use gdvm::version_utils::{
    get_pre_release_priority, GodotVersion, GodotVersionDeterminate,
    GodotVersionDeterminateVecExt,
};

fn check_match(pattern: &GodotVersion, version: &str, expected: bool) {
    let version = GodotVersion::from_install_str(version).unwrap();
    let result = pattern.matches(&version);
    assert_eq!(
        result, expected,
        "Expected match result for {:?} and {:?} to be {}, got {}",
        pattern, version, expected, result
    );
}

#[test]
fn test_from_install_str() {
    let gv = GodotVersion::from_install_str("4.1.1-rc1-csharp").unwrap();
    assert_eq!(gv.major, Some(4));
    assert_eq!(gv.minor, Some(1));
    assert_eq!(gv.patch, Some(1));
    assert_eq!(gv.release_type.as_deref(), Some("rc1"));
    assert_eq!(gv.is_csharp, Some(true));

    let gv = GodotVersion::from_install_str("4.1.1-rc1").unwrap();
    assert_eq!(gv.major, Some(4));
    assert_eq!(gv.minor, Some(1));
    assert_eq!(gv.patch, Some(1));
    assert_eq!(gv.release_type.as_deref(), Some("rc1"));
    assert_eq!(gv.is_csharp, Some(false));
}

#[test]
fn test_from_remote_str() {
    let gv = GodotVersion::from_install_str("3.5-stable").unwrap();
    assert_eq!(gv.major, Some(3));
    assert_eq!(gv.minor, Some(5));
    assert!(gv.is_stable());
}

#[test]
fn test_from_match_str() {
    let gv = GodotVersion::from_match_str("4.1.1").unwrap();
    assert_eq!(gv.major, Some(4));
    assert_eq!(gv.minor, Some(1));
    assert_eq!(gv.patch, Some(1));

    let gv = GodotVersion::from_match_str("stable").unwrap();
    assert_eq!(gv.release_type.as_deref(), Some("stable"));

    let gv = GodotVersion::from_match_str("4.1.1-rc1").unwrap();
    assert_eq!(gv.major, Some(4));
    assert_eq!(gv.minor, Some(1));
    assert_eq!(gv.patch, Some(1));
    assert_eq!(gv.release_type.as_deref(), Some("rc1"));

    let gv = GodotVersion::from_match_str("4.1.1-csharp").unwrap();
    assert_eq!(gv.major, Some(4));
    assert_eq!(gv.minor, Some(1));
    assert_eq!(gv.patch, Some(1));
    assert_eq!(gv.release_type.as_deref(), Some("csharp"));
}

#[test]
fn test_to_install_str() {
    let gv = GodotVersion::from_install_str("2.0.4.1-stable-csharp")
        .unwrap()
        .to_determinate();
    assert_eq!(gv.to_install_str(), "2.0.4.1-stable-csharp");
}

#[test]
fn test_sort_by_version() {
    let mut versions = vec![
        GodotVersion::from_install_str("3.0.0-stable")
            .unwrap()
            .to_determinate(),
        GodotVersion::from_install_str("4.1.1-rc2")
            .unwrap()
            .to_determinate(),
        GodotVersion::from_install_str("4.1.1-rc1")
            .unwrap()
            .to_determinate(),
    ];
    versions.sort_by_version();
    // We expect 4.1.1-rc2 > 4.1.1-rc1 > 3.0.0-stable
    assert_eq!(versions[0].release_type, "rc2");
    assert_eq!(versions[1].release_type, "rc1");
    assert_eq!(versions[2].major, 3);
}

#[test]
fn test_get_pre_release_priority() {
    assert_eq!(get_pre_release_priority("stable"), 4);
    assert_eq!(get_pre_release_priority("rc1"), 3);
    assert_eq!(get_pre_release_priority("beta1"), 2);
    assert_eq!(get_pre_release_priority("dev1"), 1);
    assert_eq!(get_pre_release_priority("unknown"), 0);
}

#[test]
fn test_to_version_string() {
    let gv = GodotVersion::from_install_str("2.0.4.1-stable-csharp").unwrap();
    assert_eq!(gv.to_version_string().unwrap(), "2.0.4.1");

    let gv = GodotVersion::from_install_str("2.0.4-stable-csharp").unwrap();
    assert_eq!(gv.to_version_string().unwrap(), "2.0.4");

    let gv = GodotVersion::from_install_str("2.0-stable-csharp").unwrap();
    assert_eq!(gv.to_version_string().unwrap(), "2.0");

    let gv = GodotVersion::from_install_str("2-stable-csharp").unwrap();
    assert_eq!(gv.to_version_string().unwrap(), "2");

    let gv = GodotVersion::from_install_str("2.0.0.0-stable-csharp").unwrap();
    assert_eq!(gv.to_version_string().unwrap(), "2.0");

    let gv = GodotVersion::from_install_str("2.0.1-stable-csharp").unwrap();
    assert_eq!(gv.to_version_string().unwrap(), "2.0.1");

    let gv = GodotVersion::from_install_str("2.0.1-stable-csharp").unwrap();
    assert_eq!(gv.to_version_string().unwrap(), "2.0.1");
}

#[test]
fn test_matches() {
    check_match(&GodotVersion::from_match_str("4").unwrap(), "4.1.1-rc1", true);
    check_match(&GodotVersion::from_match_str("4.1").unwrap(), "4.1.1-rc1", true);
    check_match(&GodotVersion::from_match_str("4.1.1").unwrap(), "4.1.1-rc1", true);
    check_match(
        &GodotVersion::from_remote_str("4.1.1-rc1", None).unwrap(),
        "4.1.1-rc1",
        true,
    );
    check_match(
        &GodotVersion::from_install_str("4.1.1-rc1").unwrap(),
        "4.1.1-rc1-csharp",
        false,
    );
    check_match(
        &GodotVersion::from_install_str("4.1.1-rc1-csharp").unwrap(),
        "4.1.1-rc1-csharp",
        true,
    );
    check_match(
        &GodotVersion::from_remote_str("4.1.1-rc2", None).unwrap(),
        "4.1.1-rc1",
        false,
    );
    check_match(&GodotVersion::from_match_str("stable").unwrap(), "4.1.1-stable", true);
}

#[test]
fn sort_keeps_order_of_equal_ranks() {
    let mut versions = vec![
        GodotVersionDeterminate {
            major: 4,
            minor: 2,
            patch: 0,
            subpatch: 0,
            release_type: "rc1".to_string(),
            is_csharp: Some(true),
        },
        GodotVersionDeterminate {
            major: 4,
            minor: 2,
            patch: 0,
            subpatch: 0,
            release_type: "stable".to_string(),
            is_csharp: None,
        },
        GodotVersionDeterminate {
            major: 4,
            minor: 2,
            patch: 0,
            subpatch: 0,
            release_type: "rc2".to_string(),
            is_csharp: Some(false),
        },
    ];
    versions.sort_by_version();
    assert_eq!(versions[0].release_type, "stable");
    assert_eq!(versions[1].release_type, "rc1");
    assert_eq!(versions[2].release_type, "rc2");
}

#[test]
fn test_validate_godot_version() {
    assert!(gdvm::version_utils::validate_godot_version("4.1.1-rc1").is_ok());
    assert!(gdvm::version_utils::validate_godot_version("not-a-version").is_err());
}

#[test]
fn test_validate_remote_version() {
    assert!(gdvm::version_utils::validate_remote_version("stable").is_ok());
    assert!(gdvm::version_utils::validate_remote_version("4.1.1-rc1").is_ok());
    assert!(gdvm::version_utils::validate_remote_version("not-a-version").is_err());
}

#[test]
fn validators_hand_back_the_text_or_their_key() {
    assert_eq!(
        gdvm::version_utils::validate_godot_version("4.3"),
        Ok("4.3".to_string())
    );
    assert_eq!(
        gdvm::version_utils::validate_godot_version("1.2.3.4.5"),
        Err("error-invalid-godot-version".to_string())
    );
    assert_eq!(
        gdvm::version_utils::validate_godot_version("stable"),
        Err("error-invalid-godot-version".to_string())
    );
    assert_eq!(
        gdvm::version_utils::validate_remote_version("4.3-"),
        Err("error-invalid-remote-version".to_string())
    );
    assert_eq!(
        gdvm::version_utils::version_verdict("x", None, "key"),
        Err("key".to_string())
    );
    assert_eq!(
        gdvm::version_utils::version_verdict("x", Some(true), "key"),
        Ok("x".to_string())
    );
}

#[test]
fn install_names_round_trip() {
    for name in [
        "4.3-stable",
        "4.3-stable-csharp",
        "2.0.4.1-stable",
        "4.1.1-rc1-csharp",
        "3.0-beta2",
        "10.20.30-dev5",
        "4.0-",
    ] {
        let parsed = GodotVersion::from_install_str(name).unwrap();
        assert_eq!(parsed.to_determinate().to_install_str(), name);
    }
}

#[test]
fn install_names_that_are_not_canonical_are_normalised() {
    let parsed = GodotVersion::from_install_str("4.0.0-stable").unwrap();
    assert_eq!(parsed.to_determinate().to_install_str(), "4.0-stable");
    let parsed = GodotVersion::from_install_str("+4.01-stable").unwrap();
    assert_eq!(parsed.to_determinate().to_install_str(), "4.1-stable");
}

#[test]
fn remote_tags_round_trip() {
    let v = GodotVersionDeterminate {
        major: 2,
        minor: 0,
        patch: 4,
        subpatch: 1,
        release_type: "stable".to_string(),
        is_csharp: Some(true),
    };
    assert_eq!(v.to_remote_str(), "2.0.4.1-stable");
    let parsed = GodotVersion::from_remote_str(&v.to_remote_str(), v.is_csharp).unwrap();
    let projected = v.to_indeterminate();
    assert_eq!(parsed.major, projected.major);
    assert_eq!(parsed.minor, projected.minor);
    assert_eq!(parsed.patch, projected.patch);
    assert_eq!(parsed.subpatch, projected.subpatch);
    assert_eq!(parsed.release_type, projected.release_type);
    assert_eq!(parsed.is_csharp, projected.is_csharp);

    let short = GodotVersionDeterminate {
        major: 4,
        minor: 3,
        patch: 0,
        subpatch: 0,
        release_type: "stable".to_string(),
        is_csharp: None,
    };
    let parsed = GodotVersion::from_remote_str(&short.to_remote_str(), None).unwrap();
    assert_eq!(parsed.patch, None);
    let back = parsed.to_determinate();
    assert_eq!(back.major, 4);
    assert_eq!(back.minor, 3);
    assert_eq!(back.patch, 0);
    assert_eq!(back.subpatch, 0);
    assert_eq!(back.release_type, "stable");
}

#[test]
fn malformed_versions_are_refused() {
    for text in ["", "a.b-stable", "4..1-stable", "1.2.3.4.5-stable", "4.x", "-stable", "4294967296-stable", "-4"] {
        assert_eq!(
            GodotVersion::from_install_str(text).unwrap_err(),
            gdvm::error::GdvmError::InvalidVersionString,
            "{:?}",
            text
        );
    }
    assert!(GodotVersion::from_match_str("4.1.beta").is_err());
    assert_eq!(
        GodotVersion::from_install_str("4294967295-stable").unwrap().major,
        Some(4294967295)
    );
}

#[test]
fn install_form_sets_the_flag_and_registry_form_leaves_it_open() {
    assert_eq!(GodotVersion::from_install_str("3-csharp").unwrap().is_csharp, Some(true));
    assert_eq!(GodotVersion::from_install_str("3-csharp").unwrap().release_type, None);
    assert_eq!(GodotVersion::from_install_str("3").unwrap().is_csharp, Some(false));
    assert_eq!(GodotVersion::from_remote_str("3-csharp", None).unwrap().is_csharp, None);
    assert_eq!(
        GodotVersion::from_remote_str("3-csharp", Some(false)).unwrap().release_type.as_deref(),
        Some("csharp")
    );
}

#[test]
fn text_forms_of_a_concrete_version() {
    let v = GodotVersionDeterminate {
        major: 4,
        minor: 1,
        patch: 0,
        subpatch: 0,
        release_type: "stable".to_string(),
        is_csharp: Some(true),
    };
    assert_eq!(v.to_version_string(false), "4.1");
    assert_eq!(v.to_version_string(true), "4.1.0");
    assert_eq!(v.to_remote_str(), "4.1-stable");
    assert_eq!(v.to_install_str(), "4.1-stable-csharp");
    assert_eq!(v.to_pinned_str(), "4.1.0-stable-csharp");
    assert_eq!(v.to_display_str(), "4.1-stable (C#)");
    assert!(v.is_stable());
    let plain = GodotVersionDeterminate { is_csharp: Some(false), ..v.clone() };
    assert_eq!(plain.to_install_str(), "4.1-stable");
    assert_eq!(plain.to_pinned_str(), "4.1.0-stable");
    assert_eq!(plain.to_display_str(), "4.1-stable");
    let odd = GodotVersionDeterminate { patch: 0, subpatch: 7, ..v.clone() };
    assert_eq!(odd.to_version_string(false), "4.1.0.7");
    let d = GodotVersionDeterminate::default();
    assert_eq!(d.to_remote_str(), "0.0-stable");
}

#[test]
fn text_forms_of_a_partial_version() {
    let stable = GodotVersion::from_match_str("stable").unwrap();
    assert_eq!(stable.to_remote_str(), None);
    assert_eq!(stable.to_display_str(), None);
    let gap = GodotVersion {
        major: Some(4),
        minor: None,
        patch: Some(1),
        subpatch: None,
        release_type: None,
        is_csharp: None,
    };
    assert_eq!(gap.to_version_string(), None);
    let v = GodotVersion::from_install_str("4.1.1-rc1-csharp").unwrap();
    assert_eq!(v.to_remote_str().unwrap(), "4.1.1-rc1");
    assert_eq!(v.to_display_str().unwrap(), "4.1.1-rc1 (C#)");
    let bare = GodotVersion::from_match_str("4").unwrap();
    assert_eq!(bare.to_remote_str().unwrap(), "4");
    assert_eq!(GodotVersion::default().to_remote_str(), None);
}

#[test]
fn incomplete_versions() {
    assert!(GodotVersion::from_match_str("4").unwrap().is_incomplete());
    assert!(GodotVersion::from_match_str("4.1").unwrap().is_incomplete());
    assert!(GodotVersion::from_match_str("4.1.1").unwrap().is_incomplete());
    assert!(!GodotVersion::from_match_str("4.1.1-rc1").unwrap().is_incomplete());
    assert!(GodotVersion::from_match_str("2.0.4-stable").unwrap().is_incomplete());
    assert!(!GodotVersion::from_match_str("2.0.4.1-stable").unwrap().is_incomplete());
    assert!(GodotVersion::from_match_str("stable").unwrap().is_incomplete());
}

#[test]
fn conflicts_between_requests() {
    let project = GodotVersion {
        major: Some(4),
        minor: Some(1),
        patch: None,
        subpatch: None,
        release_type: None,
        is_csharp: Some(false),
    };
    let mut requested = GodotVersion::from_match_str("3.5").unwrap();
    requested.is_csharp = Some(false);
    assert!(project.conflicts_with(&requested));
    let mut same = GodotVersion::from_match_str("4.1.2-stable").unwrap();
    assert!(!project.conflicts_with(&same));
    same.is_csharp = Some(true);
    assert!(project.conflicts_with(&same));
    let open = GodotVersion::from_match_str("4").unwrap();
    let mono = GodotVersion { is_csharp: Some(true), ..open.clone() };
    assert!(open.conflicts_with(&mono));
    assert!(!open.conflicts_with(&open));
}

#[test]
fn matches_against_concrete_versions() {
    let c = GodotVersion::from_install_str("4.1.1-rc1-csharp").unwrap().to_determinate();
    assert!(GodotVersion::from_match_str("4.1").unwrap().matches_determinate(&c));
    assert!(!GodotVersion::from_match_str("4.2").unwrap().matches_determinate(&c));
    assert!(!GodotVersion::from_match_str("stable").unwrap().matches_determinate(&c));
    assert!(GodotVersion::from_install_str("4.1.1-rc1-csharp").unwrap().matches_determinate(&c));
    assert!(!GodotVersion::from_install_str("4.1.1-rc1").unwrap().matches_determinate(&c));
    assert!(GodotVersion::default().matches_determinate(&c));
}

#[test]
fn sort_orders_by_numbers_then_release_type() {
    let mut versions: Vec<GodotVersionDeterminate> = [
        "4.2-dev1", "4.2-stable", "4.10-beta1", "4.2-rc1", "4.2-weird", "4.2.1-dev1", "2.0.4.1-stable",
        "2.0.4-stable", "4.2-beta3",
    ]
    .iter()
    .map(|s| GodotVersion::from_install_str(s).unwrap().to_determinate())
    .collect();
    versions.sort_by_version();
    let names: Vec<String> = versions.iter().map(|v| v.to_remote_str()).collect();
    assert_eq!(
        names,
        vec![
            "4.10-beta1", "4.2.1-dev1", "4.2-stable", "4.2-rc1", "4.2-beta3", "4.2-dev1", "4.2-weird",
            "2.0.4.1-stable", "2.0.4-stable",
        ]
    );
    assert!(gdvm::version_utils::newer_than(&versions[0], &versions[1]));
    assert!(!gdvm::version_utils::newer_than(&versions[1], &versions[0]));
}
