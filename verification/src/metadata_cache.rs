//! The cached metadata document: what the tool remembers between runs
//! about its own updates, the release index and release capabilities.
//!
//! `CacheStore` holds the document in memory. Whoever owns the file on
//! disk loads it into the store, and writes it back while `unsaved` is set.

use vstd::prelude::*;
use crate::text::{chars_of, push_str, string_of, string_views};
use crate::version_utils::{
    concrete_views, parse_version_spec, sort_newest_first, ConcreteVersion, GodotVersion,
    GodotVersionDeterminate, GodotVersionDeterminateVecExt, PartialVersion,
};

verus! {

/// One release of the cached index.
#[derive(Debug)]
pub struct ReleaseCache {
    pub id: u64,
    pub tag_name: String,
}

/// The cached release index.
#[derive(Debug)]
pub struct RegistryReleasesCache {
    /// Unix time in seconds of the last fetch.
    pub last_fetched: u64,
    pub releases: Vec<ReleaseCache>,
}

/// What is remembered about updates of the tool itself.
#[derive(Debug)]
pub struct GdvmCache {
    /// Unix time in seconds of the last check.
    pub last_update_check: u64,
    pub new_version: Option<String>,
    pub new_major_version: Option<String>,
}

/// What one release offers: whether it has a C# variant, and for which
/// platform and architecture pairs it has binaries.
#[derive(Debug)]
pub struct ReleaseCapabilitiesEntry {
    pub tag_name: String,
    pub has_csharp: bool,
    pub platforms: Vec<String>,
}

/// The cached capabilities, as fresh as the index they were derived under.
#[derive(Debug)]
pub struct ReleaseCapabilitiesCache {
    pub last_fetched: u64,
    pub entries: Vec<ReleaseCapabilitiesEntry>,
}

/// The whole cached document.
#[derive(Debug)]
pub struct FullCache {
    pub gdvm: GdvmCache,
    pub godot_registry: RegistryReleasesCache,
    pub release_capabilities: ReleaseCapabilitiesCache,
}

/// What was found where the cache document is kept.
#[derive(Debug)]
pub enum CacheFile {
    /// There is no file.
    Missing,
    /// There is a file, and it is not a cache document.
    Unreadable,
    /// The document that the file holds.
    Valid(FullCache),
}

/// What to do when renaming the temporary file over the document failed.
#[derive(Debug, Clone, Copy, PartialEq, Eq, Structural)]
pub enum RenameRecovery {
    /// Remove the old document and rename again.
    RemoveTargetAndRetry,
    /// Report the failure.
    GiveUp,
}

/// The cache document in memory, with the place it is kept at.
#[derive(Debug)]
pub struct CacheStore {
    pub index_path: String,
    pub document: FullCache,
    /// The document in memory differs from the file, or the file is to be
    /// replaced.
    pub unsaved: bool,
}

impl Clone for ReleaseCapabilitiesEntry {
    fn clone(&self) -> (r: Self)
        ensures
            r.tag_name@ == self.tag_name@,
            r.has_csharp == self.has_csharp,
            string_views(r.platforms@) == string_views(self.platforms@),
    {
        let mut platforms: Vec<String> = Vec::new();
        let mut i: usize = 0;
        while i < self.platforms.len()
            invariant
                i <= self.platforms.len(),
                string_views(platforms@) == string_views(self.platforms@).take(i as int),
            decreases self.platforms.len() - i,
        {
            let ghost before = string_views(platforms@);
            platforms.push(self.platforms[i].clone());
            assert(string_views(platforms@) =~= before.push(self.platforms@[i as int]@));
            assert(string_views(self.platforms@).take(i + 1) =~= before.push(
                self.platforms@[i as int]@,
            ));
            i = i + 1;
        }
        assert(string_views(self.platforms@).take(i as int) =~= string_views(self.platforms@));
        ReleaseCapabilitiesEntry {
            tag_name: self.tag_name.clone(),
            has_csharp: self.has_csharp,
            platforms,
        }
    }
}

impl GdvmCache {
    /// Nothing known, last checked at `now`.
    pub open spec fn is_reset(self, now: u64) -> bool {
        self.last_update_check == now && self.new_version is None && self.new_major_version
            is None
    }
}

impl FullCache {
    /// The document of a tool that has never fetched or checked anything.
    pub open spec fn is_default(self) -> bool {
        &&& self.gdvm.is_reset(0)
        &&& self.godot_registry.last_fetched == 0
        &&& self.godot_registry.releases@.len() == 0
        &&& self.release_capabilities.last_fetched == 0
        &&& self.release_capabilities.entries@.len() == 0
    }
}

impl Default for FullCache {
    fn default() -> (r: Self)
        ensures
            r.is_default(),
    {
        FullCache {
            gdvm: GdvmCache { last_update_check: 0, new_version: None, new_major_version: None },
            godot_registry: RegistryReleasesCache { last_fetched: 0, releases: Vec::new() },
            release_capabilities: ReleaseCapabilitiesCache {
                last_fetched: 0,
                entries: Vec::new(),
            },
        }
    }
}

impl CacheStore {
    /// A store for a document that does not exist yet.
    pub fn new(index_path: String) -> (r: Self)
        ensures
            r.index_path == index_path,
            r.document.is_default(),
            !r.unsaved,
    {
        CacheStore { index_path, document: FullCache::default(), unsaved: false }
    }

    /// A store for what was found on disk. A missing file stands for the
    /// default document. A file that is no cache document is given up: the
    /// store holds the default document and asks for it to be written.
    pub fn load(index_path: String, file: CacheFile) -> (r: Self)
        ensures
            r.index_path == index_path,
            match file {
                CacheFile::Missing => r.document.is_default() && !r.unsaved,
                CacheFile::Unreadable => r.document.is_default() && r.unsaved,
                CacheFile::Valid(document) => r.document == document && !r.unsaved,
            },
    {
        match file {
            CacheFile::Missing => CacheStore {
                index_path,
                document: FullCache::default(),
                unsaved: false,
            },
            CacheFile::Unreadable => CacheStore {
                index_path,
                document: FullCache::default(),
                unsaved: true,
            },
            CacheFile::Valid(document) => CacheStore { index_path, document, unsaved: false },
        }
    }

    /// Where the document is kept.
    pub fn index_path(&self) -> (r: &str)
        ensures
            r@ == self.index_path@,
    {
        self.index_path.as_str()
    }

    /// The cached release index.
    pub fn load_registry_cache(&self) -> (r: &RegistryReleasesCache)
        ensures
            *r == self.document.godot_registry,
    {
        &self.document.godot_registry
    }

    /// Replaces the cached release index.
    pub fn save_registry_cache(&mut self, cache: RegistryReleasesCache)
        ensures
            final(self).document.godot_registry == cache,
            final(self).document.gdvm == old(self).document.gdvm,
            final(self).document.release_capabilities == old(self).document.release_capabilities,
            final(self).index_path == old(self).index_path,
            final(self).unsaved,
    {
        self.document.godot_registry = cache;
        self.unsaved = true;
    }

    /// What is remembered about updates of the tool.
    pub fn load_gdvm_cache(&self) -> (r: &GdvmCache)
        ensures
            *r == self.document.gdvm,
    {
        &self.document.gdvm
    }

    /// Replaces what is remembered about updates of the tool.
    pub fn save_gdvm_cache(&mut self, cache: GdvmCache)
        ensures
            final(self).document.gdvm == cache,
            final(self).document.godot_registry == old(self).document.godot_registry,
            final(self).document.release_capabilities == old(self).document.release_capabilities,
            final(self).index_path == old(self).index_path,
            final(self).unsaved,
    {
        self.document.gdvm = cache;
        self.unsaved = true;
    }

    /// The cached capabilities.
    pub fn load_capabilities_cache(&self) -> (r: &ReleaseCapabilitiesCache)
        ensures
            *r == self.document.release_capabilities,
    {
        &self.document.release_capabilities
    }

    /// Replaces the cached capabilities.
    pub fn save_capabilities_cache(&mut self, cache: ReleaseCapabilitiesCache)
        ensures
            final(self).document.release_capabilities == cache,
            final(self).document.gdvm == old(self).document.gdvm,
            final(self).document.godot_registry == old(self).document.godot_registry,
            final(self).index_path == old(self).index_path,
            final(self).unsaved,
    {
        self.document.release_capabilities = cache;
        self.unsaved = true;
    }

    /// Forgets what is known about updates of the tool and records `now`
    /// as the time of the last check.
    pub fn clear_gdvm_cache(&mut self, now: u64)
        ensures
            final(self).document.gdvm.is_reset(now),
            final(self).document.godot_registry == old(self).document.godot_registry,
            final(self).document.release_capabilities == old(self).document.release_capabilities,
            final(self).index_path == old(self).index_path,
            final(self).unsaved,
    {
        self.document.gdvm = GdvmCache {
            last_update_check: now,
            new_version: None,
            new_major_version: None,
        };
        self.unsaved = true;
    }

    /// Drops every cached capability and dates the empty cache `ts`.
    pub fn clear_capabilities_cache(&mut self, ts: u64)
        ensures
            final(self).document.release_capabilities.last_fetched == ts,
            final(self).document.release_capabilities.entries@.len() == 0,
            final(self).document.gdvm == old(self).document.gdvm,
            final(self).document.godot_registry == old(self).document.godot_registry,
            final(self).index_path == old(self).index_path,
            final(self).unsaved,
    {
        self.document.release_capabilities = ReleaseCapabilitiesCache {
            last_fetched: ts,
            entries: Vec::new(),
        };
        self.unsaved = true;
    }

    /// Whether the document is to be written; after the call the store
    /// counts as saved.
    pub fn take_unsaved(&mut self) -> (r: bool)
        ensures
            r == old(self).unsaved,
            !final(self).unsaved,
            final(self).document == old(self).document,
            final(self).index_path == old(self).index_path,
    {
        let was = self.unsaved;
        self.unsaved = false;
        was
    }

    /// The path of the temporary file that a write goes to before it is
    /// renamed over the document: the document's path followed by `.tmp`.
    pub fn temporary_path(&self) -> (r: String)
        ensures
            r@ == self.index_path@ + ".tmp"@,
    {
        let mut out = chars_of(self.index_path.as_str());
        push_str(&mut out, ".tmp");
        string_of(out.as_slice())
    }
}

/// What to do after renaming the temporary file over the document failed:
/// where the failure is that the document already exists, remove it and
/// rename again, once; otherwise give up.
pub fn recover_rename(already_exists: bool, retried: bool) -> (r: RenameRecovery)
    ensures
        r == if already_exists && !retried {
            RenameRecovery::RemoveTargetAndRetry
        } else {
            RenameRecovery::GiveUp
        },
{
    if already_exists && !retried {
        RenameRecovery::RemoveTargetAndRetry
    } else {
        RenameRecovery::GiveUp
    }
}

/// The concrete version that a registry tag names, if it is a version.
pub open spec fn release_of_tag(tag: Seq<char>) -> Option<ConcreteVersion> {
    match parse_version_spec(tag, true) {
        Some(p) => Some(p.to_determinate()),
        None => None,
    }
}

/// The request that an optional filter stands for: none fits everything.
pub open spec fn filter_view(filter: Option<&GodotVersion>) -> PartialVersion {
    match filter {
        Some(f) => f@,
        None => PartialVersion::any(),
    }
}

/// The releases of an index whose tags are versions that fit `filter`, in
/// the order of the index.
pub open spec fn matching_releases(releases: Seq<ReleaseCache>, filter: PartialVersion) -> Seq<
    ConcreteVersion,
>
    decreases releases.len(),
{
    if releases.len() == 0 {
        Seq::empty()
    } else {
        let front = matching_releases(releases.drop_last(), filter);
        match release_of_tag(releases.last().tag_name@) {
            Some(c) => if filter.matches(c.to_indeterminate()) {
                front.push(c)
            } else {
                front
            },
            None => front,
        }
    }
}

/// The cached releases that fit the filter, newest first. Tags that are
/// not versions are passed over.
pub fn filter_cached_releases(cache: &RegistryReleasesCache, filter: Option<&GodotVersion>) -> (r:
    Vec<GodotVersionDeterminate>)
    ensures
        concrete_views(r@) == sort_newest_first(
            matching_releases(cache.releases@, filter_view(filter)),
        ),
{
    let mut out: Vec<GodotVersionDeterminate> = Vec::new();
    let mut i: usize = 0;
    assert(cache.releases@.take(0) =~= Seq::<ReleaseCache>::empty());
    assert(concrete_views(out@) =~= Seq::<ConcreteVersion>::empty());
    while i < cache.releases.len()
        invariant
            i <= cache.releases.len(),
            concrete_views(out@) == matching_releases(
                cache.releases@.take(i as int),
                filter_view(filter),
            ),
        decreases cache.releases.len() - i,
    {
        let ghost before = concrete_views(out@);
        assert(cache.releases@.take(i + 1).drop_last() =~= cache.releases@.take(i as int));
        assert(cache.releases@.take(i + 1).last() == cache.releases@[i as int]);
        match GodotVersion::from_remote_str(cache.releases[i].tag_name.as_str(), None) {
            Ok(gv) => {
                let candidate = gv.to_determinate();
                let fits = match filter {
                    Some(f) => f.matches_determinate(&candidate),
                    None => true,
                };
                if fits {
                    out.push(candidate);
                    assert(concrete_views(out@) =~= before.push(candidate@));
                }
            },
            Err(_) => {},
        }
        i = i + 1;
    }
    assert(cache.releases@.take(i as int) =~= cache.releases@);
    out.sort_by_version();
    out
}

} // verus!
