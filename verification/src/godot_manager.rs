//! What the manager of installs decides: which installs there are, what
//! removing one entails, and what the default and the pin say.

use vstd::prelude::*;
use crate::artifact_cache::DirEntryInfo;
use crate::error::GdvmError;
use crate::host::{HostOs, HostPlatform};
use crate::installer::Installer;
use crate::metadata_cache::ReleaseCapabilitiesEntry;
use crate::registry_version_resolver::{
    eligible, is_choice, matching_installs, needs_csharp, with_query_flag,
    RegistryVersionResolver,
};
use crate::launcher::{executable_spec, is_kind, plan_run, EntryKind, LaunchMode, LaunchPlan};
use crate::links::{ancestor_files, ancestor_files_spec};
use crate::paths::{join_spec, GdvmPaths};
use crate::text::{chars_of, str_eq, string_of, string_views, trim, trim_spec};
use crate::version_utils::{
    concrete_views, parse_version_spec, reports, sort_newest_first, ConcreteVersion,
    GodotVersion, GodotVersionDeterminate, GodotVersionDeterminateVecExt, };

verus! {

/// The manager of the installs of one user on one host.
#[derive(Debug)]
pub struct GodotManager {
    pub paths: GdvmPaths,
    pub host: HostPlatform,
}

/// What removing an install entails.
#[derive(Debug)]
pub struct RemovePlan {
    /// The directory to remove.
    pub install_dir: String,
    /// The default points at this install and is to be unset first.
    pub clear_default: bool,
}

/// What setting the default entails.
#[derive(Debug)]
pub struct DefaultPlan {
    /// What to write to the default file: the install folder name.
    pub contents: String,
    /// The link to create anew, after the file is written.
    pub link: String,
    /// The install directory that the link points at.
    pub target: String,
}

/// The versions that install folder names stand for, in the order of the
/// names; names that are no version are passed over.
pub open spec fn versions_of_names(names: Seq<Seq<char>>) -> Seq<ConcreteVersion>
    decreases names.len(),
{
    if names.len() == 0 {
        Seq::empty()
    } else {
        let front = versions_of_names(names.drop_last());
        match parse_version_spec(names.last(), false) {
            Some(p) => front.push(p.to_determinate()),
            None => front,
        }
    }
}

/// The first of the pin files found, from the current directory upward,
/// that could be read.
pub open spec fn first_readable(files: Seq<Option<String>>) -> Option<Seq<char>>
    decreases files.len(),
{
    if files.len() == 0 {
        None
    } else {
        match files[0] {
            Some(contents) => Some(contents@),
            None => first_readable(files.drop_first()),
        }
    }
}

/// Where the pin file is looked for from the directory `current_dir`: in
/// it and in each directory above it, nearest first.
pub fn pin_file_candidates(current_dir: &str) -> (r: Vec<String>)
    ensures
        string_views(r@) == ancestor_files_spec(current_dir@, false, ".gdvmrc"@),
{
    ancestor_files(current_dir, false, ".gdvmrc")
}

/// Reads a version in the install form from a text with white space
/// around it.
pub fn parse_trimmed_install(contents: &str) -> (r: Result<GodotVersion, GdvmError>)
    ensures
        reports(r, parse_version_spec(trim_spec(contents@), false)),
{
    let chars = chars_of(contents);
    let text = string_of(trim(chars.as_slice()));
    GodotVersion::from_install_str(text.as_str())
}

/// The failure that a failed attempt to create the default link stands
/// for: on Windows, the system's error 1314 means that the process lacks
/// the privilege to create links; anything else is an output failure with
/// the given description.
pub fn classify_symlink_error(os: HostOs, raw_os_error: Option<i32>, description: &str) -> (r:
    GdvmError)
    ensures
        if os == HostOs::Windows && raw_os_error == Some(1314i32) {
            r is SymlinkPrivilege
        } else {
            r is Io && r->Io_0@ == description@
        },
{
    match (os, raw_os_error) {
        (HostOs::Windows, Some(1314)) => GdvmError::SymlinkPrivilege,
        _ => GdvmError::Io(description.to_string()),
    }
}

impl GodotManager {
    /// The manager for the given layout and host.
    pub fn new(paths: GdvmPaths, host: HostPlatform) -> (r: Self)
        ensures
            r.paths == paths,
            r.host == host,
    {
        GodotManager { paths, host }
    }

    /// The base directory of the tool.
    pub fn get_base_path(&self) -> (r: &str)
        ensures
            r@ == self.paths.base@,
    {
        self.paths.base()
    }

    /// The installed versions, newest first, given the names of the
    /// directories in the installs directory.
    pub fn list_installed(&self, dir_names: &Vec<String>) -> (r: Vec<GodotVersionDeterminate>)
        ensures
            concrete_views(r@) == sort_newest_first(versions_of_names(string_views(dir_names@))),
    {
        let ghost names = string_views(dir_names@);
        let mut out: Vec<GodotVersionDeterminate> = Vec::new();
        let mut i: usize = 0;
        assert(names.take(0) =~= Seq::<Seq<char>>::empty());
        assert(concrete_views(out@) =~= Seq::<ConcreteVersion>::empty());
        while i < dir_names.len()
            invariant
                i <= dir_names.len(),
                names == string_views(dir_names@),
                concrete_views(out@) == versions_of_names(names.take(i as int)),
            decreases dir_names.len() - i,
        {
            let ghost before = concrete_views(out@);
            assert(names.take(i + 1).drop_last() =~= names.take(i as int));
            assert(names.take(i + 1).last() == dir_names@[i as int]@);
            match GodotVersion::from_install_str(dir_names[i].as_str()) {
                Ok(gv) => {
                    let version = gv.to_determinate();
                    out.push(version);
                    assert(concrete_views(out@) =~= before.push(version@));
                },
                Err(_) => {},
            }
            i = i + 1;
        }
        assert(names.take(i as int) =~= names);
        out.sort_by_version();
        out
    }

    /// Whether one of the installed versions fits the request.
    pub fn is_version_installed(&self, gv: &GodotVersion, installed: &Vec<GodotVersionDeterminate>)
        -> (r: bool)
        ensures
            r == exists|i: int|
                0 <= i < installed@.len() && gv@.matches(
                    (#[trigger] installed@[i])@.to_indeterminate(),
                ),
    {
        let mut i: usize = 0;
        while i < installed.len()
            invariant
                i <= installed.len(),
                forall|j: int|
                    0 <= j < i ==> !gv@.matches((#[trigger] installed@[j])@.to_indeterminate()),
            decreases installed.len() - i,
        {
            if gv.matches_determinate(&installed[i]) {
                return true;
            }
            i = i + 1;
        }
        false
    }

    /// Plans the removal of an install. `exists` says whether its
    /// directory exists, `default` is the default version if one is set.
    /// An install that does not exist cannot be removed. The default is
    /// unset first where it is the install removed.
    pub fn remove(
        &self,
        gv: &GodotVersionDeterminate,
        exists: bool,
        default: Option<&GodotVersionDeterminate>,
    ) -> (r: Result<RemovePlan, GdvmError>)
        ensures
            !exists ==> r is Err && r->Err_0 is VersionNotFound,
            exists ==> r is Ok && r->Ok_0.install_dir@ == join_spec(
                self.paths.installs@,
                gv@.install_text(),
            ) && r->Ok_0.clear_default == (default is Some && default->0@.install_text()
                == gv@.install_text()),
    {
        if !exists {
            return Err(GdvmError::VersionNotFound);
        }
        let name = gv.to_install_str();
        let clear_default = match default {
            Some(d) => str_eq(d.to_install_str().as_str(), name.as_str()),
            None => false,
        };
        Ok(RemovePlan { install_dir: self.paths.install_dir(name.as_str()), clear_default })
    }

    /// Plans making an install the default. `exists` says whether its
    /// directory exists; a version that is not installed cannot be the
    /// default.
    pub fn set_default(&self, gv: &GodotVersionDeterminate, exists: bool) -> (r: Result<
        DefaultPlan,
        GdvmError,
    >)
        ensures
            !exists ==> r is Err && r->Err_0 is VersionNotFound,
            exists ==> r is Ok && r->Ok_0.contents@ == gv@.install_text() && r->Ok_0.link@
                == join_spec(self.paths.bin_dir@, "current_godot"@) && r->Ok_0.target@
                == join_spec(self.paths.installs@, gv@.install_text()),
    {
        if !exists {
            return Err(GdvmError::VersionNotFound);
        }
        let contents = gv.to_install_str();
        let target = self.paths.install_dir(contents.as_str());
        Ok(DefaultPlan { contents, link: self.paths.current_godot_symlink(), target })
    }

    /// The default version, given the contents of the default file, which
    /// are missing where there is no such file. The contents are an
    /// install folder name with white space around it; other contents are
    /// an invalid version.
    pub fn get_default(&self, contents: Option<&str>) -> (r: Result<
        Option<GodotVersionDeterminate>,
        GdvmError,
    >)
        ensures
            match contents {
                None => r is Ok && r->Ok_0 is None,
                Some(text) => match parse_version_spec(trim_spec(text@), false) {
                    Some(p) => r is Ok && r->Ok_0 is Some && r->Ok_0->0@ == p.to_determinate(),
                    None => r is Err && r->Err_0 is InvalidVersionString,
                },
            },
    {
        match contents {
            None => Ok(None),
            Some(text) => match parse_trimmed_install(text) {
                Ok(gv) => Ok(Some(gv.to_determinate())),
                Err(e) => Err(e),
            },
        }
    }

    /// The pinned version, given the pin files found from the current
    /// directory upward, each with its contents where it could be read.
    /// The first readable file decides: it pins the version it names, or
    /// nothing where it names none.
    pub fn get_pinned_version(&self, pin_files: &Vec<Option<String>>) -> (r: Option<GodotVersion>)
        ensures
            match first_readable(pin_files@) {
                None => r is None,
                Some(text) => match parse_version_spec(trim_spec(text), false) {
                    Some(p) => r is Some && r->0@ == p,
                    None => r is None,
                },
            },
    {
        let mut i: usize = 0;
        assert(pin_files@.skip(0) == pin_files@);
        while i < pin_files.len()
            invariant
                i <= pin_files.len(),
                first_readable(pin_files@) == first_readable(pin_files@.skip(i as int)),
            decreases pin_files.len() - i,
        {
            assert(pin_files@.skip(i as int)[0] == pin_files@[i as int]);
            assert(pin_files@.skip(i as int).drop_first() == pin_files@.skip(i + 1));
            match &pin_files[i] {
                Some(contents) => {
                    return match parse_trimmed_install(contents.as_str()) {
                        Ok(gv) => Some(gv),
                        Err(_) => None,
                    };
                },
                None => {},
            }
            i = i + 1;
        }
        None
    }

    /// What to write to the pin file for a version.
    pub fn pin_version(&self, gv: &GodotVersionDeterminate) -> (r: String)
        ensures
            r@ == gv@.pinned_text(),
    {
        gv.to_pinned_str()
    }

    /// Begins the install of a version: the machine that drives it.
    pub fn install(&self, gv: &GodotVersionDeterminate, force: bool, redownload: bool) -> (r:
        Installer)
        ensures
            r.version@ == gv@,
            r.host == self.host,
            r.force == force,
            r.redownload == redownload,
            r.state is Start,
    {
        Installer::new(gv.clone(), self.host, force, redownload)
    }

    /// The installs that fit the request, newest first.
    pub fn resolve_installed_version(
        &self,
        gv: &GodotVersion,
        installed: &Vec<GodotVersionDeterminate>,
    ) -> (r: Vec<GodotVersionDeterminate>)
        ensures
            concrete_views(r@) == sort_newest_first(
                matching_installs(concrete_views(installed@), gv@),
            ),
    {
        let resolver = RegistryVersionResolver::new(self.host);
        resolver.resolve_installed(gv, installed.as_slice())
    }

    /// The release to take for a request from a listing of the catalog
    /// and the capabilities of its releases: see
    /// `RegistryVersionResolver::resolve_available`.
    pub fn resolve_available_version(
        &self,
        gv: &GodotVersion,
        releases: &Vec<GodotVersionDeterminate>,
        capabilities: &Vec<Option<ReleaseCapabilitiesEntry>>,
    ) -> (r: Option<GodotVersionDeterminate>)
        ensures
            match r {
                Some(v) => exists|i: int| #[trigger]
                    is_choice(releases@, capabilities@, self.host, needs_csharp(gv@), i) && v@
                        == with_query_flag(gv@, releases@[i]@),
                None => forall|i: int|
                    !#[trigger] eligible(releases@, capabilities@, self.host, needs_csharp(gv@), i),
            },
    {
        RegistryVersionResolver::new(self.host).resolve_available(gv, releases, capabilities)
    }

    /// What making no install the default entails: the default file and
    /// the link to remove, where they exist.
    pub fn unset_default(&self) -> (r: (String, String))
        ensures
            r.0@ == join_spec(self.paths.base@, "default"@),
            r.1@ == join_spec(self.paths.bin_dir@, "current_godot"@),
    {
        (self.paths.default_file(), self.paths.current_godot_symlink())
    }

    /// Plans a run of an installed version, given the listing of its
    /// directory.
    pub fn run(&self, listing: Option<&Vec<DirEntryInfo>>, console: bool) -> (r: Result<
        LaunchPlan,
        GdvmError,
    >)
        ensures
            listing is None ==> r is Err && r->Err_0 is VersionNotFound,
            listing is Some ==> match executable_spec(self.host.os, listing->0@, console) {
                None => r is Err && r->Err_0 is ExecutableNotFound,
                Some(i) => r is Ok && r->Ok_0.entry == i && 0 <= i < listing->0@.len()
                    && r->Ok_0.mode == (if console {
                    LaunchMode::Attached
                } else {
                    LaunchMode::Detached
                }) && r->Ok_0.is_bundle == (self.host.os == HostOs::Macos && is_kind(
                    listing->0@[i],
                    EntryKind::AppBundle,
                )),
            },
    {
        plan_run(self.host.os, listing, console)
    }
}

} // verus!
