use gdvm::error::GdvmError;
use gdvm::host::{HostArch, HostOs, HostPlatform};
use gdvm::metadata_cache::ReleaseCapabilitiesEntry;
use gdvm::registry_version_resolver::{
    CatalogAnswer, CatalogQuestion, RegistryVersionResolver, ResolveMode, ResolveOutcome,
    ResolveRequest,
};
use gdvm::version_utils::{GodotVersion, GodotVersionDeterminate};

fn host() -> HostPlatform {
    HostPlatform { os: HostOs::Linux, arch: HostArch::X86_64 }
}

fn caps(tag: &str) -> ReleaseCapabilitiesEntry {
    ReleaseCapabilitiesEntry {
        tag_name: tag.to_string(),
        has_csharp: true,
        platforms: vec![
            "linux-csharp-x86_64".to_string(),
            "linux-x86_64".to_string(),
            "linux-universal".to_string(),
        ],
    }
}

fn answer_with_tags(tags: &[&str]) -> CatalogAnswer {
    let mut releases: Vec<GodotVersionDeterminate> = tags
        .iter()
        .map(|t| GodotVersion::from_remote_str(t, None).unwrap().to_determinate())
        .collect();
    gdvm::version_utils::GodotVersionDeterminateVecExt::sort_by_version(&mut releases);
    let capabilities = releases.iter().map(|r| Some(caps(&r.to_remote_str()))).collect();
    CatalogAnswer::Listing { releases, capabilities }
}

fn query(major: Option<u32>, minor: Option<u32>, release: Option<&str>, csharp: Option<bool>) -> GodotVersion {
    GodotVersion {
        major,
        minor,
        patch: None,
        subpatch: None,
        release_type: release.map(|s| s.to_string()),
        is_csharp: csharp,
    }
}

fn gvd(major: u32, minor: u32, patch: u32, release: &str) -> GodotVersionDeterminate {
    GodotVersionDeterminate {
        major,
        minor,
        patch,
        subpatch: 0,
        release_type: release.into(),
        is_csharp: None,
    }
}

#[test]
fn resolve_available_prefers_stable() {
    let answer = answer_with_tags(&["4.2-rc1", "4.2-stable"]);
    let resolver = RegistryVersionResolver::new(host());
    let query = query(Some(4), Some(2), None, Some(true));

    let request = ResolveRequest::available(query, false);
    let resolved = match resolver.resolve(&request, &answer) {
        ResolveOutcome::Determinate(v) => v,
        other => panic!("expected a version, got {:?}", other),
    };
    assert_eq!(resolved.to_remote_str(), "4.2-stable");
    assert_eq!(resolved.is_csharp, Some(true));
}

#[test]
fn resolve_for_auto_install_uses_latest_stable() {
    let answer = answer_with_tags(&["4.1-stable", "4.0-stable"]);
    let resolver = RegistryVersionResolver::new(host());
    let query = query(None, None, Some("stable"), Some(true));

    let resolved = resolver.resolve_for_auto_install(&query, &answer).unwrap();
    assert_eq!(resolved.to_remote_str(), "4.1-stable");
    assert_eq!(resolved.is_csharp, Some(true));
}

#[test]
fn resolve_request_available_reports_not_found() {
    let resolver = RegistryVersionResolver::new(host());
    let request = ResolveRequest::available(query(Some(3), Some(6), None, None), false);
    let answer = CatalogAnswer::Listing { releases: vec![], capabilities: vec![] };

    let outcome = resolver.resolve(&request, &answer);
    assert!(matches!(outcome, ResolveOutcome::NotFound));
}

#[test]
fn resolve_installed_sorts_and_filters() {
    let resolver = RegistryVersionResolver::new(host());
    let query = query(Some(3), None, None, None);

    let installed = vec![gvd(3, 5, 0, "stable"), gvd(4, 0, 0, "stable"), gvd(3, 6, 1, "rc1")];

    let result = resolver.resolve(&ResolveRequest::installed(query, &installed), &CatalogAnswer::Nothing);

    match result {
        ResolveOutcome::Candidates(matches) => {
            assert_eq!(matches.len(), 2);
            assert_eq!(matches[0].minor, 6);
            assert_eq!(matches[1].minor, 5);
        }
        _ => panic!("expected candidates"),
    }
}

#[test]
fn available_skips_what_the_host_cannot_use() {
    let resolver = RegistryVersionResolver::new(host());
    let releases = vec![gvd(4, 3, 0, "stable"), gvd(4, 2, 0, "rc1"), gvd(4, 1, 0, "stable")];
    let windows_only = ReleaseCapabilitiesEntry {
        tag_name: "4.3-stable".to_string(),
        has_csharp: false,
        platforms: vec!["windows-x86_64".to_string()],
    };
    let capabilities = vec![Some(windows_only), Some(caps("4.2-rc1")), None];
    let picked = resolver
        .resolve_available(&query(Some(4), None, None, None), &releases, &capabilities)
        .unwrap();
    assert_eq!(picked.to_remote_str(), "4.2-rc1");
    assert_eq!(picked.is_csharp, None);
    let none = resolver.resolve_available(
        &query(Some(4), None, None, None),
        &releases,
        &vec![None, None, None],
    );
    assert!(none.is_none());
    let short = resolver.resolve_available(&query(Some(4), None, None, None), &releases, &vec![]);
    assert!(short.is_none());
}

#[test]
fn compatibility_rules() {
    let linux = RegistryVersionResolver::new(host());
    let mac = RegistryVersionResolver::new(HostPlatform { os: HostOs::Macos, arch: HostArch::Aarch64 });
    let entry = |has_csharp: bool, platforms: &[&str]| ReleaseCapabilitiesEntry {
        tag_name: "t".to_string(),
        has_csharp,
        platforms: platforms.iter().map(|s| s.to_string()).collect(),
    };
    assert!(linux.is_compatible(&entry(false, &["linux-x86_64"]), false));
    assert!(!linux.is_compatible(&entry(false, &["linux-x86_64"]), true));
    assert!(!linux.is_compatible(&entry(true, &["linux-x86_64"]), true));
    assert!(linux.is_compatible(&entry(true, &["linux-csharp-x86_64"]), true));
    assert!(!linux.is_compatible(&entry(false, &["linux-universal"]), false));
    assert!(!linux.is_compatible(&entry(false, &["linux-arm64", "windows-x86_64"]), false));
    assert!(mac.is_compatible(&entry(false, &["macos-universal"]), false));
    assert!(mac.is_compatible(&entry(false, &["macos-arm64"]), false));
    assert!(!mac.is_compatible(&entry(false, &["macos-x86_64"]), false));
    assert!(mac.is_compatible(&entry(true, &["macos-csharp-universal"]), true));
    assert!(!mac.is_compatible(&entry(false, &[]), false));
}

#[test]
fn auto_install_takes_a_full_request_as_it_is() {
    let resolver = RegistryVersionResolver::new(host());
    let mut full = GodotVersion::from_match_str("4.1.2-rc1").unwrap();
    full.is_csharp = Some(false);
    assert!(!RegistryVersionResolver::needs_listing(&full));
    assert!(RegistryVersionResolver::needs_listing(&GodotVersion::from_match_str("4.1").unwrap()));
    assert!(RegistryVersionResolver::needs_listing(&GodotVersion::from_match_str("stable").unwrap()));
    let request = ResolveRequest::auto_install(full.clone());
    match RegistryVersionResolver::catalog_question(&request) {
        CatalogQuestion::Exact(tag) => assert_eq!(tag, "4.1.2-rc1"),
        other => panic!("unexpected question {:?}", other),
    }
    let taken = resolver.resolve_for_auto_install(&full, &CatalogAnswer::Exact(caps("4.1.2-rc1"))).unwrap();
    assert_eq!(taken.to_install_str(), "4.1.2-rc1");
    assert_eq!(taken.is_csharp, Some(false));
    let unusable = ReleaseCapabilitiesEntry {
        tag_name: "4.1.2-rc1".to_string(),
        has_csharp: false,
        platforms: vec!["windows-x86_64".to_string()],
    };
    assert_eq!(
        resolver.resolve_for_auto_install(&full, &CatalogAnswer::Exact(unusable)).unwrap_err(),
        GdvmError::VersionNotFound
    );
    assert_eq!(
        resolver.resolve_for_auto_install(&full, &CatalogAnswer::Nothing).unwrap_err(),
        GdvmError::VersionNotFound
    );
    assert_eq!(
        resolver.resolve_for_auto_install(&full, &answer_with_tags(&["4.1.2-rc1"])).unwrap_err(),
        GdvmError::VersionNotFound
    );
}

#[test]
fn questions_for_the_catalog() {
    let installed = vec![gvd(3, 5, 0, "stable")];
    let q = query(Some(4), None, None, None);
    assert!(matches!(
        RegistryVersionResolver::catalog_question(&ResolveRequest::installed(q.clone(), &installed)),
        CatalogQuestion::Nothing
    ));
    assert!(matches!(
        RegistryVersionResolver::catalog_question(&ResolveRequest::available(q.clone(), true)),
        CatalogQuestion::Listing { use_cache_only: true }
    ));
    assert!(matches!(
        RegistryVersionResolver::catalog_question(&ResolveRequest::auto_install(q.clone())),
        CatalogQuestion::Listing { use_cache_only: false }
    ));
    let request = ResolveRequest::available(q, false);
    assert!(matches!(request.mode, ResolveMode::Available { use_cache_only: false }));
}

#[test]
fn latest_stable_of_a_listing() {
    let resolver = RegistryVersionResolver::new(host());
    let releases = vec![gvd(4, 3, 0, "rc1"), gvd(4, 2, 0, "stable"), gvd(4, 1, 0, "stable")];
    assert_eq!(resolver.latest_stable(&releases).unwrap().to_remote_str(), "4.2-stable");
    assert_eq!(
        resolver.latest_stable(&vec![gvd(4, 3, 0, "rc1")]).unwrap_err(),
        GdvmError::NoStableRelease
    );
    let chosen = resolver.apply_csharp(&query(None, None, None, Some(true)), gvd(4, 2, 0, "stable"));
    assert_eq!(chosen.is_csharp, Some(true));
    let kept = resolver.apply_csharp(&query(None, None, None, None), gvd(4, 2, 0, "stable"));
    assert_eq!(kept.is_csharp, None);
}
