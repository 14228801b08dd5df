use gdvm::error::GdvmError;
use gdvm::metadata_cache::{
    filter_cached_releases, recover_rename, CacheFile, CacheStore, FullCache, GdvmCache,
    RegistryReleasesCache, ReleaseCache, ReleaseCapabilitiesCache, ReleaseCapabilitiesEntry,
    RenameRecovery,
};
use gdvm::registry::{ArchBinary, BinaryInfo, IndexEntry, PlatformBinaries, ReleaseMetadata};
use gdvm::releases::{
    cache_is_stale, derive_capabilities, CapabilityLookup, ReleaseCatalog, CACHE_TTL_SECONDS,
};
use gdvm::version_utils::{GodotVersion, GodotVersionDeterminate};

const NOW: u64 = 1_700_000_000;

fn make_catalog_with_cache(tags: &[&str], last_fetched: u64) -> ReleaseCatalog {
    let mut cache_store = CacheStore::new("cache.json".to_string());
    let releases: Vec<ReleaseCache> = tags
        .iter()
        .enumerate()
        .map(|(id, tag)| ReleaseCache { id: id as u64, tag_name: (*tag).to_string() })
        .collect();
    cache_store.save_registry_cache(RegistryReleasesCache { last_fetched, releases });
    ReleaseCatalog::new(cache_store)
}

fn no_fetch() -> Result<Vec<IndexEntry>, GdvmError> {
    Err(GdvmError::IndexFetchFailed)
}

fn metadata(platforms: &[(&str, &[&str])]) -> ReleaseMetadata {
    ReleaseMetadata {
        id: 7,
        name: "4.3-stable".to_string(),
        url: "https://host/4.3".to_string(),
        binaries: platforms
            .iter()
            .map(|(platform, arches)| PlatformBinaries {
                platform: platform.to_string(),
                arches: arches
                    .iter()
                    .map(|arch| ArchBinary {
                        arch: arch.to_string(),
                        info: BinaryInfo { sha512: "00".to_string(), urls: vec![] },
                    })
                    .collect(),
            })
            .collect(),
    }
}

#[test]
fn uses_cached_releases_when_fresh() {
    let mut catalog = make_catalog_with_cache(&["4.3-stable", "4.2-rc1"], NOW);
    assert!(!catalog.needs_refresh(NOW, false));

    let listing = catalog.list_releases(None, false, NOW, no_fetch()).expect("list releases");
    let releases = listing.releases;

    assert_eq!(releases.len(), 2);
    // Sorted newest-first. RC precedes lower version stable, stable of higher version wins.
    assert_eq!(releases[0].to_remote_str(), "4.3-stable");
    assert_eq!(releases[1].to_remote_str(), "4.2-rc1");
    assert!(listing.warning.is_none());
}

#[test]
fn filters_cached_releases_with_query() {
    let mut catalog = make_catalog_with_cache(&["4.3-stable", "4.2-rc1"], NOW);
    let filter = GodotVersion {
        major: Some(4),
        minor: Some(2),
        patch: None,
        subpatch: None,
        release_type: None,
        is_csharp: None,
    };

    let releases = catalog
        .list_releases(Some(&filter), true, NOW, no_fetch())
        .expect("filtered releases")
        .releases;

    assert_eq!(releases.len(), 1);
    assert_eq!(releases[0].to_remote_str(), "4.2-rc1");
}

#[test]
fn cache_miss_refreshes_the_index() {
    let mut catalog = ReleaseCatalog::new(CacheStore::load("cache.json".to_string(), CacheFile::Missing));
    assert!(catalog.needs_refresh(NOW, false));
    assert!(!catalog.needs_refresh(NOW, true));
    let index = vec![IndexEntry { id: 7, name: "4.3-stable".to_string() }];
    let listing = catalog.list_releases(None, false, NOW, Ok(index)).unwrap();
    assert_eq!(listing.releases.len(), 1);
    assert_eq!(listing.releases[0].to_remote_str(), "4.3-stable");
    let cached = catalog.cache_store().load_registry_cache();
    assert_eq!(cached.last_fetched, NOW);
    assert_eq!(cached.releases.len(), 1);
    assert_eq!(cached.releases[0].id, 7);
    assert_eq!(cached.releases[0].tag_name, "4.3-stable");
    assert_eq!(catalog.cache_store().load_capabilities_cache().last_fetched, NOW);
    assert!(catalog.cache_store.unsaved);
}

#[test]
fn failed_refresh_falls_back_to_the_cache() {
    let old = NOW - CACHE_TTL_SECONDS - 1;
    let mut catalog = make_catalog_with_cache(&["4.3-stable"], old);
    catalog.cache_store.save_capabilities_cache(ReleaseCapabilitiesCache {
        last_fetched: old,
        entries: vec![ReleaseCapabilitiesEntry {
            tag_name: "4.3-stable".to_string(),
            has_csharp: false,
            platforms: vec![],
        }],
    });
    let listing = catalog.list_releases(None, false, NOW, Err(GdvmError::IndexFetchFailed)).unwrap();
    assert_eq!(listing.warning, Some(GdvmError::IndexFetchFailed));
    assert_eq!(listing.releases.len(), 1);
    assert!(catalog.cache_store().load_capabilities_cache().entries.is_empty());
    assert_eq!(catalog.cache_store().load_capabilities_cache().last_fetched, old);
    assert_eq!(catalog.cache_store().load_registry_cache().last_fetched, old);

    let mut empty = make_catalog_with_cache(&[], old);
    assert_eq!(
        empty.list_releases(None, false, NOW, Err(GdvmError::IndexFetchFailed)).unwrap_err(),
        GdvmError::IndexFetchFailed
    );
    let mut offline = make_catalog_with_cache(&[], old);
    let listing = offline.list_releases(None, true, NOW, Err(GdvmError::IndexFetchFailed)).unwrap();
    assert!(listing.releases.is_empty());
    assert!(listing.warning.is_none());
}

#[test]
fn staleness_is_measured_against_the_time_to_live() {
    assert_eq!(CACHE_TTL_SECONDS, 48 * 3600);
    assert!(!cache_is_stale(NOW, NOW));
    assert!(!cache_is_stale(NOW, NOW - CACHE_TTL_SECONDS));
    assert!(cache_is_stale(NOW, NOW - CACHE_TTL_SECONDS - 1));
    assert!(!cache_is_stale(NOW, NOW + 10));
    assert!(cache_is_stale(NOW, 0));
}

#[test]
fn corrupt_cache_is_replaced_by_defaults() {
    let mut store = CacheStore::load("cache.json".to_string(), CacheFile::Unreadable);
    assert!(store.unsaved);
    assert_eq!(store.load_registry_cache().last_fetched, 0);
    assert!(store.load_registry_cache().releases.is_empty());
    assert_eq!(store.load_gdvm_cache().last_update_check, 0);
    assert!(store.load_gdvm_cache().new_version.is_none());
    assert!(store.load_gdvm_cache().new_major_version.is_none());
    assert!(store.load_capabilities_cache().entries.is_empty());
    assert!(store.take_unsaved());
    assert!(!store.take_unsaved());

    let missing = CacheStore::load("cache.json".to_string(), CacheFile::Missing);
    assert!(!missing.unsaved);
    let mut document = FullCache::default();
    document.gdvm.new_version = Some("v1.2.3".to_string());
    let valid = CacheStore::load("c".to_string(), CacheFile::Valid(document));
    assert!(!valid.unsaved);
    assert_eq!(valid.load_gdvm_cache().new_version.as_deref(), Some("v1.2.3"));
    assert_eq!(valid.index_path(), "c");
    assert_eq!(valid.temporary_path(), "c.tmp");
}

#[test]
fn cache_store_updates_one_part_at_a_time() {
    let mut store = CacheStore::new("cache.json".to_string());
    store.save_gdvm_cache(GdvmCache {
        last_update_check: 5,
        new_version: Some("v2".to_string()),
        new_major_version: None,
    });
    store.save_registry_cache(RegistryReleasesCache {
        last_fetched: 9,
        releases: vec![ReleaseCache { id: 1, tag_name: "4.3-stable".to_string() }],
    });
    assert_eq!(store.load_gdvm_cache().new_version.as_deref(), Some("v2"));
    assert_eq!(store.load_registry_cache().last_fetched, 9);
    store.clear_gdvm_cache(11);
    assert_eq!(store.load_gdvm_cache().last_update_check, 11);
    assert!(store.load_gdvm_cache().new_version.is_none());
    assert_eq!(store.load_registry_cache().releases.len(), 1);
    store.clear_capabilities_cache(9);
    assert_eq!(store.load_capabilities_cache().last_fetched, 9);
    assert!(store.unsaved);
    assert_eq!(recover_rename(true, false), RenameRecovery::RemoveTargetAndRetry);
    assert_eq!(recover_rename(true, true), RenameRecovery::GiveUp);
    assert_eq!(recover_rename(false, false), RenameRecovery::GiveUp);
}

#[test]
fn filter_passes_over_tags_that_are_no_versions() {
    let cache = RegistryReleasesCache {
        last_fetched: 0,
        releases: ["4.1-stable", "nightly", "4.3-stable", "4.3-rc2", ""]
            .iter()
            .enumerate()
            .map(|(id, tag)| ReleaseCache { id: id as u64, tag_name: tag.to_string() })
            .collect(),
    };
    let all: Vec<String> = filter_cached_releases(&cache, None).iter().map(|v| v.to_remote_str()).collect();
    assert_eq!(all, vec!["4.3-stable", "4.3-rc2", "4.1-stable"]);
    let stable = GodotVersion::from_match_str("stable").unwrap();
    let only: Vec<GodotVersionDeterminate> = filter_cached_releases(&cache, Some(&stable));
    assert_eq!(only.len(), 2);
    assert!(only.iter().all(|v| v.is_csharp.is_none()));
}

#[test]
fn capabilities_are_derived_sorted_and_unique() {
    let meta = metadata(&[
        ("windows", &["x86_64", "x86"]),
        ("linux-csharp", &["x86_64"]),
        ("linux", &["x86_64", "arm64"]),
        ("windows", &["x86_64"]),
    ]);
    let caps = derive_capabilities("4.3-stable", &meta);
    assert_eq!(caps.tag_name, "4.3-stable");
    assert!(caps.has_csharp);
    assert_eq!(
        caps.platforms,
        vec!["linux-arm64", "linux-csharp-x86_64", "linux-x86_64", "windows-x86", "windows-x86_64"]
    );
    let plain = derive_capabilities("t", &metadata(&[("macos", &["universal"])]));
    assert!(!plain.has_csharp);
    assert_eq!(plain.platforms, vec!["macos-universal"]);
    assert!(derive_capabilities("t", &metadata(&[])).platforms.is_empty());
}

#[test]
fn capabilities_are_cached_per_tag() {
    let mut catalog = make_catalog_with_cache(&["4.3-stable", "4.2-stable"], NOW);
    assert_eq!(catalog.capabilities_for("4.2-stable"), Ok(CapabilityLookup::Fetch(1)));
    assert_eq!(catalog.capabilities_for("4.0-stable"), Err(GdvmError::VersionNotFound));
    let at = catalog.record_capabilities("4.2-stable", &metadata(&[("linux", &["x86_64"])]));
    assert_eq!(at, 0);
    assert_eq!(catalog.capabilities_for("4.2-stable"), Ok(CapabilityLookup::Cached(0)));
    catalog.record_capabilities("4.3-stable", &metadata(&[("linux", &["arm64"])]));
    let again = catalog.record_capabilities("4.2-stable", &metadata(&[("macos", &["universal"])]));
    assert_eq!(again, 1);
    let cached = catalog.cache_store().load_capabilities_cache();
    assert_eq!(cached.last_fetched, NOW);
    assert_eq!(cached.entries.len(), 2);
    assert_eq!(cached.entries[0].tag_name, "4.3-stable");
    assert_eq!(cached.entries[1].platforms, vec!["macos-universal"]);
}

#[test]
fn metadata_lookup_refreshes_once() {
    let mut catalog = make_catalog_with_cache(&["4.3-stable"], NOW);
    let known = GodotVersion::from_install_str("4.3-stable-csharp").unwrap().to_determinate();
    let unknown = GodotVersion::from_install_str("4.4-stable").unwrap().to_determinate();
    assert_eq!(catalog.metadata_for(&known, false), Ok(Some(0)));
    assert_eq!(catalog.metadata_for(&unknown, false), Ok(None));
    assert_eq!(catalog.metadata_for(&unknown, true), Err(GdvmError::VersionNotFound));
    catalog.refresh_cache(
        &vec![
            IndexEntry { id: 8, name: "4.4-stable".to_string() },
            IndexEntry { id: 7, name: "4.3-stable".to_string() },
        ],
        NOW + 5,
    );
    assert_eq!(catalog.metadata_for(&unknown, true), Ok(Some(0)));
    assert_eq!(catalog.cache_store().load_registry_cache().last_fetched, NOW + 5);
    assert_eq!(catalog.cache_store().load_registry_cache().releases[0].id, 8);
}
