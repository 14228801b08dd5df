//! Finding the engine's entry point inside an install, and how to start
//! it.

use vstd::prelude::*;
use crate::artifact_cache::DirEntryInfo;
use crate::error::GdvmError;
use crate::host::HostOs;
use crate::text::{
    chars_of, ends_with, eq_str, first_where, has_prefix, has_suffix, lemma_first_where,
    starts_with,
};

verus! {

/// A kind of directory entry that the launcher looks for.
#[derive(Debug, Clone, Copy, PartialEq, Eq, Structural)]
pub enum EntryKind {
    /// A name that ends in `_console.exe`.
    ConsoleExe,
    /// A name that ends in `.exe` but not in `_console.exe`.
    PlainExe,
    /// A name that ends in `.exe`.
    AnyExe,
    /// A name that ends in `.app`.
    AppBundle,
    /// A regular file whose name starts with `Godot`.
    GodotFile,
    /// A regular file whose name starts with `Godot_v` or ends in
    /// `.x86_64`, `.x86_32` or `.arm64`.
    LinuxExecutable,
    /// The entry named `Godot`.
    BundleGodot,
    /// The entry named `Godot_mono`.
    BundleGodotMono,
    /// A regular file.
    RegularFile,
}

/// How the engine is started.
#[derive(Debug, Clone, Copy, PartialEq, Eq, Structural)]
pub enum LaunchMode {
    /// With the terminal of the tool, which waits for the engine to exit.
    Attached,
    /// Apart from the tool, which does not wait.
    Detached,
}

/// What to start, and how.
#[derive(Debug, Clone, Copy, PartialEq, Eq, Structural)]
pub struct LaunchPlan {
    /// The position, in the listing of the install directory, of the
    /// entry to start.
    pub entry: usize,
    /// The entry is an application bundle; what to start lies inside it.
    pub is_bundle: bool,
    pub mode: LaunchMode,
}

/// The entry is of the kind.
pub open spec fn is_kind(entry: DirEntryInfo, kind: EntryKind) -> bool {
    let name = entry.name@;
    match kind {
        EntryKind::ConsoleExe => has_suffix(name, "_console.exe"@),
        EntryKind::PlainExe => has_suffix(name, ".exe"@) && !has_suffix(name, "_console.exe"@),
        EntryKind::AnyExe => has_suffix(name, ".exe"@),
        EntryKind::AppBundle => has_suffix(name, ".app"@),
        EntryKind::GodotFile => entry.is_file && has_prefix(name, "Godot"@),
        EntryKind::LinuxExecutable => entry.is_file && (has_prefix(name, "Godot_v"@)
            || has_suffix(name, ".x86_64"@) || has_suffix(name, ".x86_32"@) || has_suffix(
            name,
            ".arm64"@,
        )),
        EntryKind::BundleGodot => name == "Godot"@,
        EntryKind::BundleGodotMono => name == "Godot_mono"@,
        EntryKind::RegularFile => entry.is_file,
    }
}

/// The position of the first entry of the kind, if there is one.
pub open spec fn first_of(entries: Seq<DirEntryInfo>, kind: EntryKind) -> Option<int> {
    let i = first_where(entries, |e: DirEntryInfo| is_kind(e, kind));
    if i < entries.len() {
        Some(i)
    } else {
        None
    }
}

/// `a` where there is one, else `b`.
pub open spec fn or_else(a: Option<int>, b: Option<int>) -> Option<int> {
    if a is Some {
        a
    } else {
        b
    }
}

/// The entry point among the entries of an install directory.
///
/// On Windows, the console executable where `console` is set and the
/// plain one where it is not, else any executable. On macOS, an
/// application bundle, else a file whose name starts with `Godot`. On
/// Linux, a file named like an engine binary.
pub open spec fn executable_spec(os: HostOs, entries: Seq<DirEntryInfo>, console: bool) -> Option<
    int,
> {
    match os {
        HostOs::Windows => or_else(
            first_of(
                entries,
                if console {
                    EntryKind::ConsoleExe
                } else {
                    EntryKind::PlainExe
                },
            ),
            first_of(entries, EntryKind::AnyExe),
        ),
        HostOs::Macos => or_else(
            first_of(entries, EntryKind::AppBundle),
            first_of(entries, EntryKind::GodotFile),
        ),
        HostOs::Linux => first_of(entries, EntryKind::LinuxExecutable),
    }
}

/// The executable among the entries of `Contents/MacOS` of a bundle: the
/// one named `Godot`, else the one named `Godot_mono`, else the first
/// regular file.
pub open spec fn bundle_executable_spec(entries: Seq<DirEntryInfo>) -> Option<int> {
    or_else(
        first_of(entries, EntryKind::BundleGodot),
        or_else(
            first_of(entries, EntryKind::BundleGodotMono),
            first_of(entries, EntryKind::RegularFile),
        ),
    )
}

/// Whether an entry is of a kind.
pub fn entry_is(entry: &DirEntryInfo, kind: EntryKind) -> (r: bool)
    ensures
        r == is_kind(*entry, kind),
{
    let name = chars_of(entry.name.as_str());
    let n = name.as_slice();
    match kind {
        EntryKind::ConsoleExe => ends_with(n, chars_of("_console.exe").as_slice()),
        EntryKind::PlainExe => ends_with(n, chars_of(".exe").as_slice()) && !ends_with(
            n,
            chars_of("_console.exe").as_slice(),
        ),
        EntryKind::AnyExe => ends_with(n, chars_of(".exe").as_slice()),
        EntryKind::AppBundle => ends_with(n, chars_of(".app").as_slice()),
        EntryKind::GodotFile => entry.is_file && starts_with(n, chars_of("Godot").as_slice()),
        EntryKind::LinuxExecutable => entry.is_file && (starts_with(
            n,
            chars_of("Godot_v").as_slice(),
        ) || ends_with(n, chars_of(".x86_64").as_slice()) || ends_with(
            n,
            chars_of(".x86_32").as_slice(),
        ) || ends_with(n, chars_of(".arm64").as_slice())),
        EntryKind::BundleGodot => eq_str(n, "Godot"),
        EntryKind::BundleGodotMono => eq_str(n, "Godot_mono"),
        EntryKind::RegularFile => entry.is_file,
    }
}

/// The position of the first entry of a kind.
pub fn find_first(entries: &Vec<DirEntryInfo>, kind: EntryKind) -> (r: Option<usize>)
    ensures
        match first_of(entries@, kind) {
            Some(i) => 0 <= i < entries@.len() && r is Some && r->0 == i,
            None => r is None,
        },
{
    let mut i: usize = 0;
    while i < entries.len()
        invariant
            i <= entries.len(),
            forall|j: int| 0 <= j < i ==> !is_kind(#[trigger] entries@[j], kind),
        decreases entries.len() - i,
    {
        if entry_is(&entries[i], kind) {
            proof {
                lemma_first_where(entries@, |e: DirEntryInfo| is_kind(e, kind), i as int);
            }
            return Some(i);
        }
        i = i + 1;
    }
    proof {
        lemma_first_where(entries@, |e: DirEntryInfo| is_kind(e, kind), entries@.len() as int);
    }
    None
}

/// The entry point of the engine among the entries of an install
/// directory, for the operating system.
pub fn find_godot_executable(os: HostOs, entries: &Vec<DirEntryInfo>, console: bool) -> (r: Option<
    usize,
>)
    ensures
        match executable_spec(os, entries@, console) {
            Some(i) => 0 <= i < entries@.len() && r is Some && r->0 == i,
            None => r is None,
        },
{
    match os {
        HostOs::Windows => {
            let wanted = if console {
                EntryKind::ConsoleExe
            } else {
                EntryKind::PlainExe
            };
            match find_first(entries, wanted) {
                Some(i) => Some(i),
                None => find_first(entries, EntryKind::AnyExe),
            }
        },
        HostOs::Macos => match find_first(entries, EntryKind::AppBundle) {
            Some(i) => Some(i),
            None => find_first(entries, EntryKind::GodotFile),
        },
        HostOs::Linux => find_first(entries, EntryKind::LinuxExecutable),
    }
}

/// The executable inside an application bundle, among the entries of its
/// `Contents/MacOS` directory.
pub fn find_bundle_executable(entries: &Vec<DirEntryInfo>) -> (r: Option<usize>)
    ensures
        match bundle_executable_spec(entries@) {
            Some(i) => 0 <= i < entries@.len() && r is Some && r->0 == i,
            None => r is None,
        },
{
    match find_first(entries, EntryKind::BundleGodot) {
        Some(i) => Some(i),
        None => match find_first(entries, EntryKind::BundleGodotMono) {
            Some(i) => Some(i),
            None => find_first(entries, EntryKind::RegularFile),
        },
    }
}

/// How to start the engine: attached to the terminal where `console` is
/// set, detached otherwise.
pub fn launch_mode(console: bool) -> (r: LaunchMode)
    ensures
        r == if console {
            LaunchMode::Attached
        } else {
            LaunchMode::Detached
        },
{
    if console {
        LaunchMode::Attached
    } else {
        LaunchMode::Detached
    }
}

/// Plans a run of an install, given the listing of its directory, which
/// is missing where the version is not installed. An install without an
/// entry point cannot be run.
pub fn plan_run(os: HostOs, listing: Option<&Vec<DirEntryInfo>>, console: bool) -> (r: Result<
    LaunchPlan,
    GdvmError,
>)
    ensures
        listing is None ==> r is Err && r->Err_0 is VersionNotFound,
        listing is Some ==> match executable_spec(os, listing->0@, console) {
            None => r is Err && r->Err_0 is ExecutableNotFound,
            Some(i) => r is Ok && r->Ok_0.entry == i && 0 <= i < listing->0@.len() && r->Ok_0.mode
                == (if console {
                LaunchMode::Attached
            } else {
                LaunchMode::Detached
            }) && r->Ok_0.is_bundle == (os == HostOs::Macos && is_kind(
                listing->0@[i],
                EntryKind::AppBundle,
            )),
        },
{
    if listing.is_none() {
        return Err(GdvmError::VersionNotFound);
    }
    let entries = listing.unwrap();
    match find_godot_executable(os, entries, console) {
        None => Err(GdvmError::ExecutableNotFound),
        Some(i) => {
            let on_macos = match os {
                HostOs::Macos => true,
                _ => false,
            };
            let is_bundle = on_macos && entry_is(&entries[i], EntryKind::AppBundle);
            let plan = LaunchPlan { entry: i, is_bundle, mode: launch_mode(console) };
            Ok(plan)
        },
    }
}

} // verus!
