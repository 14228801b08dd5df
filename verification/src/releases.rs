//! The release catalog: when the cached index is refreshed, what a
//! listing returns, and what is known about each release's binaries.
//!
//! Fetching is left to the caller. The catalog says when a fetch is due
//! and takes what was fetched.

use vstd::prelude::*;
use crate::error::GdvmError;
use crate::metadata_cache::{
    filter_cached_releases, filter_view, matching_releases, CacheStore, RegistryReleasesCache,
    ReleaseCache, ReleaseCapabilitiesEntry,
};
use crate::registry::{IndexEntry, ReleaseMetadata};
use crate::text::{
    chars_of, contains, first_where, has_infix, lemma_first_where, push_str, sorted_unique,
    str_eq, strictly_increasing, string_views, views,
};
use crate::version_utils::{
    concrete_views, sort_newest_first, GodotVersion, GodotVersionDeterminate,
};

verus! {

/// How long a fetched index counts as fresh: 48 hours, in seconds.
pub const CACHE_TTL_SECONDS: u64 = 172800;

/// An index fetched at `last_fetched` is older than the time to live at
/// `now`.
pub open spec fn is_stale(now: u64, last_fetched: u64) -> bool {
    now - last_fetched > CACHE_TTL_SECONDS
}

/// The name under which a release offers the binary at `(p, a)`:
/// platform key, hyphen, architecture key.
pub open spec fn pair_name(meta: ReleaseMetadata, p: int, a: int) -> Seq<char> {
    meta.binaries@[p].platform@ + seq!['-'] + meta.binaries@[p].arches@[a].arch@
}

/// The release offers a binary under the name.
pub open spec fn offers(meta: ReleaseMetadata, name: Seq<char>) -> bool {
    exists|p: int, a: int|
        0 <= p < meta.binaries@.len() && 0 <= a < meta.binaries@[p].arches@.len() && name
            == #[trigger] pair_name(meta, p, a)
}

/// One of the release's platform keys holds `csharp`.
pub open spec fn offers_csharp(meta: ReleaseMetadata) -> bool {
    exists|p: int|
        0 <= p < meta.binaries@.len() && has_infix(
            (#[trigger] meta.binaries@[p]).platform@,
            "csharp"@,
        )
}

/// The capabilities are those of the release `meta` under the tag `tag`:
/// the C# flag says whether a platform key holds `csharp`, and the
/// platforms are the names of the binaries offered, each once, in
/// dictionary order.
pub open spec fn capabilities_of(entry: ReleaseCapabilitiesEntry, tag: Seq<char>, meta:
    ReleaseMetadata) -> bool {
    &&& entry.tag_name@ == tag
    &&& entry.has_csharp == offers_csharp(meta)
    &&& strictly_increasing(string_views(entry.platforms@))
    &&& forall|x: Seq<char>| string_views(entry.platforms@).contains(x) <==> offers(meta, x)
}

/// The names of all binaries of a release.
fn binary_names(metadata: &ReleaseMetadata) -> (r: Vec<Vec<char>>)
    ensures
        forall|x: Seq<char>| views(r@).contains(x) <==> offers(*metadata, x),
{
    let mut out: Vec<Vec<char>> = Vec::new();
    let mut p: usize = 0;
    while p < metadata.binaries.len()
        invariant
            p <= metadata.binaries.len(),
            forall|x: Seq<char>|
                views(out@).contains(x) <==> exists|q: int, a: int|
                    0 <= q < p && 0 <= a < metadata.binaries@[q].arches@.len() && x
                        == #[trigger] pair_name(*metadata, q, a),
        decreases metadata.binaries.len() - p,
    {
        let platform = &metadata.binaries[p];
        let mut a: usize = 0;
        while a < platform.arches.len()
            invariant
                p < metadata.binaries.len(),
                *platform == metadata.binaries@[p as int],
                a <= platform.arches.len(),
                forall|x: Seq<char>|
                    views(out@).contains(x) <==> ((exists|q: int, b: int|
                        0 <= q < p && 0 <= b < metadata.binaries@[q].arches@.len() && x
                            == #[trigger] pair_name(*metadata, q, b)) || (exists|b: int|
                        0 <= b < a && x == #[trigger] pair_name(*metadata, p as int, b))),
            decreases platform.arches.len() - a,
        {
            let mut name = chars_of(platform.platform.as_str());
            name.push('-');
            push_str(&mut name, platform.arches[a].arch.as_str());
            assert(name@ == pair_name(*metadata, p as int, a as int));
            let ghost before = views(out@);
            out.push(name);
            proof {
                let after = views(out@);
                assert(after =~= before.push(name@));
                assert forall|x: Seq<char>| after.contains(x) <==> (before.contains(x) || x
                    == name@) by {
                    if before.contains(x) {
                        let m = choose|m: int| 0 <= m < before.len() && before[m] == x;
                        assert(after[m] == x);
                    }
                    if x == name@ {
                        assert(after[before.len() as int] == x);
                    }
                }
                assert forall|x: Seq<char>| after.contains(x) <==> ((exists|q: int, b: int|
                    0 <= q < p && 0 <= b < metadata.binaries@[q].arches@.len() && x
                        == #[trigger] pair_name(*metadata, q, b)) || (exists|b: int|
                    0 <= b < a + 1 && x == #[trigger] pair_name(*metadata, p as int, b))) by {
                    if x == name@ {
                        assert(x == pair_name(*metadata, p as int, a as int));
                    }
                    if exists|b: int| 0 <= b < a + 1 && x == #[trigger] pair_name(
                        *metadata,
                        p as int,
                        b,
                    ) {
                        let b = choose|b: int| 0 <= b < a + 1 && x == #[trigger] pair_name(
                            *metadata,
                            p as int,
                            b,
                        );
                        if b < a {
                            assert(before.contains(x));
                        }
                    }
                }
            }
            a = a + 1;
        }
        proof {
            assert forall|x: Seq<char>| views(out@).contains(x) <==> (exists|q: int, b: int|
                0 <= q < p + 1 && 0 <= b < metadata.binaries@[q].arches@.len() && x
                    == #[trigger] pair_name(*metadata, q, b)) by {
                if exists|b: int| 0 <= b < a && x == #[trigger] pair_name(*metadata, p as int, b) {
                    let b = choose|b: int| 0 <= b < a && x == #[trigger] pair_name(
                        *metadata,
                        p as int,
                        b,
                    );
                    assert(0 <= p < p + 1 && x == pair_name(*metadata, p as int, b));
                }
                if exists|q: int, b: int|
                    0 <= q < p + 1 && 0 <= b < metadata.binaries@[q].arches@.len() && x
                        == #[trigger] pair_name(*metadata, q, b) {
                    let (q, b) = choose|q: int, b: int|
                        0 <= q < p + 1 && 0 <= b < metadata.binaries@[q].arches@.len() && x
                            == #[trigger] pair_name(*metadata, q, b);
                    if q == p {
                        assert(0 <= b < a && x == pair_name(*metadata, p as int, b));
                    } else {
                        assert(0 <= q < p && x == pair_name(*metadata, q, b));
                    }
                }
            }
        }
        p = p + 1;
    }
    out
}

/// Whether one of the release's platform keys holds `csharp`.
fn any_csharp_platform(metadata: &ReleaseMetadata) -> (r: bool)
    ensures
        r == offers_csharp(*metadata),
{
    let marker = chars_of("csharp");
    let mut p: usize = 0;
    while p < metadata.binaries.len()
        invariant
            p <= metadata.binaries.len(),
            marker@ == "csharp"@,
            forall|q: int|
                0 <= q < p ==> !has_infix((#[trigger] metadata.binaries@[q]).platform@, "csharp"@),
        decreases metadata.binaries.len() - p,
    {
        let key = chars_of(metadata.binaries[p].platform.as_str());
        if contains(key.as_slice(), marker.as_slice()) {
            assert(has_infix(metadata.binaries@[p as int].platform@, "csharp"@));
            return true;
        }
        p = p + 1;
    }
    false
}

/// Summarises what a release offers.
pub fn derive_capabilities(tag: &str, metadata: &ReleaseMetadata) -> (r: ReleaseCapabilitiesEntry)
    ensures
        capabilities_of(r, tag@, *metadata),
{
    let names = binary_names(metadata);
    let platforms = sorted_unique(&names);
    ReleaseCapabilitiesEntry {
        tag_name: tag.to_string(),
        has_csharp: any_csharp_platform(metadata),
        platforms,
    }
}

/// The release catalog over the cached metadata.
#[derive(Debug)]
pub struct ReleaseCatalog {
    pub cache_store: CacheStore,
}

/// What a listing returns: the releases, newest first, and the failure of
/// the refresh where the cached index was used in spite of it.
#[derive(Debug)]
pub struct ReleaseListing {
    pub releases: Vec<GodotVersionDeterminate>,
    pub warning: Option<GdvmError>,
}

/// Where the capabilities of a release are to be had.
#[derive(Debug, Clone, Copy, PartialEq, Eq, Structural)]
pub enum CapabilityLookup {
    /// They are cached, at this position of the capability cache.
    Cached(usize),
    /// They are to be derived from the record of the release at this
    /// position of the cached index.
    Fetch(usize),
}

/// The cached releases are those of a fetched index, in its order.
pub open spec fn mirrors_index(releases: Seq<ReleaseCache>, index: Seq<IndexEntry>) -> bool {
    &&& releases.len() == index.len()
    &&& forall|i: int|
        0 <= i < releases.len() ==> (#[trigger] releases[i]).id == index[i].id
            && releases[i].tag_name@ == index[i].name@
}

/// Position of the first cached release with the tag.
pub open spec fn release_position(releases: Seq<ReleaseCache>, tag: Seq<char>) -> int {
    first_where(releases, |r: ReleaseCache| r.tag_name@ == tag)
}

/// Position of the first cached capability entry for the tag.
pub open spec fn capability_position(entries: Seq<ReleaseCapabilitiesEntry>, tag: Seq<char>)
    -> int {
    first_where(entries, |e: ReleaseCapabilitiesEntry| e.tag_name@ == tag)
}

/// The entries for other tags than `tag`, in their order.
pub open spec fn without_tag(entries: Seq<ReleaseCapabilitiesEntry>, tag: Seq<char>) -> Seq<
    ReleaseCapabilitiesEntry,
>
    decreases entries.len(),
{
    if entries.len() == 0 {
        entries
    } else if entries.last().tag_name@ == tag {
        without_tag(entries.drop_last(), tag)
    } else {
        without_tag(entries.drop_last(), tag).push(entries.last())
    }
}

/// Position of the first cached release with the tag.
fn find_release(releases: &Vec<ReleaseCache>, tag: &str) -> (r: Option<usize>)
    ensures
        match r {
            Some(i) => i < releases@.len() && i == release_position(releases@, tag@),
            None => release_position(releases@, tag@) >= releases@.len(),
        },
{
    let mut i: usize = 0;
    while i < releases.len()
        invariant
            i <= releases.len(),
            forall|j: int| 0 <= j < i ==> (#[trigger] releases@[j]).tag_name@ != tag@,
        decreases releases.len() - i,
    {
        if str_eq(releases[i].tag_name.as_str(), tag) {
            proof {
                lemma_first_where(releases@, |r: ReleaseCache| r.tag_name@ == tag@, i as int);
            }
            return Some(i);
        }
        i = i + 1;
    }
    proof {
        lemma_first_where(releases@, |r: ReleaseCache| r.tag_name@ == tag@, releases@.len() as int);
    }
    None
}

/// Position of the first cached capability entry for the tag.
fn find_capability(entries: &Vec<ReleaseCapabilitiesEntry>, tag: &str) -> (r: Option<usize>)
    ensures
        match r {
            Some(i) => i < entries@.len() && i == capability_position(entries@, tag@),
            None => capability_position(entries@, tag@) == entries@.len(),
        },
{
    let mut i: usize = 0;
    while i < entries.len()
        invariant
            i <= entries.len(),
            forall|j: int| 0 <= j < i ==> (#[trigger] entries@[j]).tag_name@ != tag@,
        decreases entries.len() - i,
    {
        if str_eq(entries[i].tag_name.as_str(), tag) {
            proof {
                lemma_first_where(entries@, |e: ReleaseCapabilitiesEntry| e.tag_name@ == tag@, i as int);
            }
            return Some(i);
        }
        i = i + 1;
    }
    proof {
        lemma_first_where(entries@, |e: ReleaseCapabilitiesEntry| e.tag_name@ == tag@, entries@.len() as int);
    }
    None
}

/// The cached form of a fetched index.
fn releases_of_index(index: &Vec<IndexEntry>) -> (r: Vec<ReleaseCache>)
    ensures
        mirrors_index(r@, index@),
{
    let mut out: Vec<ReleaseCache> = Vec::new();
    let mut i: usize = 0;
    while i < index.len()
        invariant
            i <= index.len(),
            mirrors_index(out@, index@.take(i as int)),
        decreases index.len() - i,
    {
        out.push(ReleaseCache { id: index[i].id, tag_name: index[i].name.clone() });
        i = i + 1;
    }
    assert(index@.take(i as int) =~= index@);
    out
}

/// Whether an index fetched at `last_fetched` is too old at `now`.
pub fn cache_is_stale(now: u64, last_fetched: u64) -> (r: bool)
    ensures
        r == is_stale(now, last_fetched),
{
    now > last_fetched && now - last_fetched > CACHE_TTL_SECONDS
}

impl ReleaseCatalog {
    /// A catalog over the given cache.
    pub fn new(cache_store: CacheStore) -> (r: Self)
        ensures
            r.cache_store == cache_store,
    {
        ReleaseCatalog { cache_store }
    }

    /// The cache that the catalog works on.
    pub fn cache_store(&self) -> (r: &CacheStore)
        ensures
            *r == self.cache_store,
    {
        &self.cache_store
    }

    /// Whether a listing at `now` has to fetch the index first: the cached
    /// index is older than the time to live and the caller does not insist
    /// on the cache.
    pub fn needs_refresh(&self, now: u64, use_cache_only: bool) -> (r: bool)
        ensures
            r == (is_stale(now, self.cache_store.document.godot_registry.last_fetched)
                && !use_cache_only),
    {
        cache_is_stale(now, self.cache_store.document.godot_registry.last_fetched)
            && !use_cache_only
    }

    /// Takes a freshly fetched index: the cached releases become those of
    /// the index, fetched at `now`, and the capabilities derived under the
    /// old index are dropped.
    pub fn refresh_cache(&mut self, index: &Vec<IndexEntry>, now: u64)
        ensures
            mirrors_index(final(self).cache_store.document.godot_registry.releases@, index@),
            final(self).cache_store.document.godot_registry.last_fetched == now,
            final(self).cache_store.document.release_capabilities.last_fetched == now,
            final(self).cache_store.document.release_capabilities.entries@.len() == 0,
            final(self).cache_store.document.gdvm == old(self).cache_store.document.gdvm,
            final(self).cache_store.index_path == old(self).cache_store.index_path,
            final(self).cache_store.unsaved,
    {
        let releases = releases_of_index(index);
        self.cache_store.save_registry_cache(RegistryReleasesCache { last_fetched: now, releases });
        self.cache_store.clear_capabilities_cache(now);
    }

    /// Lists the releases that fit `filter`, newest first.
    ///
    /// Where the cached index is stale, the capabilities derived under it
    /// are dropped. Where a refresh is due (see `needs_refresh`), `fetched`
    /// is what fetching the index gave: an index replaces the cached one; a
    /// failure is handed on if nothing is cached, and otherwise returned as
    /// a warning beside the listing of what is cached. Where no refresh is
    /// due, `fetched` is not looked at.
    pub fn list_releases(
        &mut self,
        filter: Option<&GodotVersion>,
        use_cache_only: bool,
        now: u64,
        fetched: Result<Vec<IndexEntry>, GdvmError>,
    ) -> (r: Result<ReleaseListing, GdvmError>)
        ensures
            final(self).cache_store.document.gdvm == old(self).cache_store.document.gdvm,
            final(self).cache_store.index_path == old(self).cache_store.index_path,
            ({
                let before = old(self).cache_store.document;
                let after = final(self).cache_store.document;
                let stale = is_stale(now, before.godot_registry.last_fetched);
                let refresh = stale && !use_cache_only;
                &&& if refresh && fetched is Ok {
                    &&& mirrors_index(after.godot_registry.releases@, fetched->Ok_0@)
                    &&& after.godot_registry.last_fetched == now
                    &&& after.release_capabilities.last_fetched == now
                    &&& after.release_capabilities.entries@.len() == 0
                } else {
                    &&& after.godot_registry == before.godot_registry
                    &&& if stale {
                        &&& after.release_capabilities.last_fetched
                            == before.godot_registry.last_fetched
                        &&& after.release_capabilities.entries@.len() == 0
                    } else {
                        &&& after.release_capabilities == before.release_capabilities
                        &&& final(self).cache_store.unsaved == old(self).cache_store.unsaved
                    }
                }
                &&& stale ==> final(self).cache_store.unsaved
                &&& match r {
                    Err(e) => refresh && fetched is Err
                        && before.godot_registry.releases@.len() == 0 && e == fetched->Err_0,
                    Ok(listing) => {
                        &&& !(refresh && fetched is Err
                            && before.godot_registry.releases@.len() == 0)
                        &&& concrete_views(listing.releases@) == sort_newest_first(
                            matching_releases(after.godot_registry.releases@, filter_view(filter)),
                        )
                        &&& if refresh && fetched is Err {
                            listing.warning == Some(fetched->Err_0)
                        } else {
                            listing.warning is None
                        }
                    },
                }
            }),
    {
        let last_fetched = self.cache_store.document.godot_registry.last_fetched;
        let stale = cache_is_stale(now, last_fetched);
        if stale {
            self.cache_store.clear_capabilities_cache(last_fetched);
        }
        let mut warning: Option<GdvmError> = None;
        if stale && !use_cache_only {
            match fetched {
                Ok(index) => {
                    self.refresh_cache(&index, now);
                },
                Err(error) => {
                    if self.cache_store.document.godot_registry.releases.len() == 0 {
                        return Err(error);
                    }
                    warning = Some(error);
                },
            }
        }
        let releases = filter_cached_releases(&self.cache_store.document.godot_registry, filter);
        Ok(ReleaseListing { releases, warning })
    }

    /// Where the capabilities of the release `tag` are to be had: in the
    /// cache, or from the record of a release of the cached index. A tag
    /// that is in neither is not a known version.
    pub fn capabilities_for(&self, tag: &str) -> (r: Result<CapabilityLookup, GdvmError>)
        ensures
            ({
                let entries = self.cache_store.document.release_capabilities.entries@;
                let releases = self.cache_store.document.godot_registry.releases@;
                let cached = capability_position(entries, tag@);
                let listed = release_position(releases, tag@);
                if 0 <= cached < entries.len() {
                    r is Ok && r->Ok_0 is Cached && r->Ok_0->Cached_0 == cached
                } else if 0 <= listed < releases.len() {
                    r is Ok && r->Ok_0 is Fetch && r->Ok_0->Fetch_0 == listed
                } else {
                    r is Err && r->Err_0 is VersionNotFound
                }
            }),
    {
        match find_capability(&self.cache_store.document.release_capabilities.entries, tag) {
            Some(i) => Ok(CapabilityLookup::Cached(i)),
            None => match find_release(&self.cache_store.document.godot_registry.releases, tag) {
                Some(i) => Ok(CapabilityLookup::Fetch(i)),
                None => Err(GdvmError::VersionNotFound),
            },
        }
    }

    /// Caches the capabilities derived from the fetched record of the
    /// release `tag`, in place of any cached for that tag, and dates the
    /// capability cache like the index. Returns the position of the new
    /// entry, which is the last.
    pub fn record_capabilities(&mut self, tag: &str, metadata: &ReleaseMetadata) -> (r: usize)
        ensures
            ({
                let before = old(self).cache_store.document;
                let after = final(self).cache_store.document;
                &&& after.release_capabilities.entries@.len() == r + 1
                &&& after.release_capabilities.entries@.drop_last() == without_tag(
                    before.release_capabilities.entries@,
                    tag@,
                )
                &&& capabilities_of(after.release_capabilities.entries@[r as int], tag@, *metadata)
                &&& after.release_capabilities.last_fetched == before.godot_registry.last_fetched
                &&& after.godot_registry == before.godot_registry
                &&& after.gdvm == before.gdvm
            }),
            final(self).cache_store.index_path == old(self).cache_store.index_path,
            final(self).cache_store.unsaved,
    {
        let capabilities = derive_capabilities(tag, metadata);
        let ghost initial = self.cache_store.document.release_capabilities.entries@;
        let mut i: usize = self.cache_store.document.release_capabilities.entries.len();
        assert(initial.take(i as int) =~= initial);
        assert(initial.take(i as int) + without_tag(initial.skip(i as int), tag@)
            =~= initial) by {
            assert(initial.skip(i as int).len() == 0);
        }
        while i > 0
            invariant
                i <= initial.len(),
                self.cache_store.document.release_capabilities.entries@ == initial.take(i as int)
                    + without_tag(initial.skip(i as int), tag@),
                self.cache_store.document.godot_registry
                    == old(self).cache_store.document.godot_registry,
                self.cache_store.document.gdvm == old(self).cache_store.document.gdvm,
                self.cache_store.index_path == old(self).cache_store.index_path,
            decreases i,
        {
            i = i - 1;
            let ghost current = self.cache_store.document.release_capabilities.entries@;
            assert(current[i as int] == initial[i as int]);
            proof {
                lemma_without_tag_first(initial.skip(i as int), tag@);
                assert(initial.skip(i as int).drop_first() =~= initial.skip(i + 1));
            }
            if str_eq(self.cache_store.document.release_capabilities.entries[i].tag_name.as_str(), tag) {
                self.cache_store.document.release_capabilities.entries.remove(i);
                assert(self.cache_store.document.release_capabilities.entries@ =~= initial.take(
                    i as int,
                ) + without_tag(initial.skip(i as int), tag@));
            } else {
                assert(current =~= initial.take(i as int) + without_tag(
                    initial.skip(i as int),
                    tag@,
                ));
            }
        }
        assert(initial.skip(0) =~= initial);
        assert(initial.take(0) + without_tag(initial, tag@) =~= without_tag(initial, tag@));
        let ghost kept = self.cache_store.document.release_capabilities.entries@;
        self.cache_store.document.release_capabilities.entries.push(capabilities);
        assert(self.cache_store.document.release_capabilities.entries@.drop_last() =~= kept);
        self.cache_store.document.release_capabilities.last_fetched =
            self.cache_store.document.godot_registry.last_fetched;
        self.cache_store.unsaved = true;
        self.cache_store.document.release_capabilities.entries.len() - 1
    }

    /// The release of the cached index whose record is to be fetched for
    /// the concrete version `gv`: the first with the version's registry
    /// tag. Where there is none, the index is to be refreshed once
    /// (`Ok(None)`); where there is none after the refresh (`refreshed`),
    /// the version is not found.
    pub fn metadata_for(&self, gv: &GodotVersionDeterminate, refreshed: bool) -> (r: Result<
        Option<usize>,
        GdvmError,
    >)
        ensures
            ({
                let releases = self.cache_store.document.godot_registry.releases@;
                let listed = release_position(releases, gv@.remote_text());
                if 0 <= listed < releases.len() {
                    r is Ok && r->Ok_0 is Some && r->Ok_0->0 == listed
                } else if refreshed {
                    r is Err && r->Err_0 is VersionNotFound
                } else {
                    r == Ok::<Option<usize>, GdvmError>(None)
                }
            }),
    {
        let tag = gv.to_remote_str();
        match find_release(&self.cache_store.document.godot_registry.releases, tag.as_str()) {
            Some(i) => Ok(Some(i)),
            None => if refreshed {
                Err(GdvmError::VersionNotFound)
            } else {
                Ok(None)
            },
        }
    }
}

/// Filtering a list whose first entry has the tag drops that entry, and
/// keeps it otherwise.
pub proof fn lemma_without_tag_first(entries: Seq<ReleaseCapabilitiesEntry>, tag: Seq<char>)
    requires
        entries.len() > 0,
    ensures
        without_tag(entries, tag) == if entries[0].tag_name@ == tag {
            without_tag(entries.drop_first(), tag)
        } else {
            seq![entries[0]] + without_tag(entries.drop_first(), tag)
        },
    decreases entries.len(),
{
    if entries.len() == 1 {
        assert(entries.drop_last() =~= entries.drop_first());
        assert(entries.drop_last().len() == 0);
        assert(without_tag(entries.drop_last(), tag) =~= Seq::empty());
        assert(entries.last() == entries[0]);
        assert(Seq::<ReleaseCapabilitiesEntry>::empty().push(entries[0]) =~= seq![entries[0]]
            + Seq::<ReleaseCapabilitiesEntry>::empty());
    } else {
        let front = entries.drop_last();
        lemma_without_tag_first(front, tag);
        assert(front[0] == entries[0]);
        assert(front.drop_first() =~= entries.drop_first().drop_last());
        assert(entries.drop_first().last() == entries.last());
        let inner = without_tag(entries.drop_first().drop_last(), tag);
        if entries.last().tag_name@ != tag && entries[0].tag_name@ != tag {
            assert((seq![entries[0]] + inner).push(entries.last()) =~= seq![entries[0]]
                + inner.push(entries.last()));
        }
    }
}

} // verus!
