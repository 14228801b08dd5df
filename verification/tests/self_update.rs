use gdvm::error::GdvmError;
use gdvm::host::{HostArch, HostOs, HostPlatform};
use gdvm::metadata_cache::GdvmCache;
use gdvm::releases::CACHE_TTL_SECONDS;
use gdvm::self_update::{
    asset_name, asset_url, authorization_value, backup_path, caret_requirement,
    check_for_upgrades, choose_token, classify_github_error, find_digest,
    find_latest_stable_release, plan_upgrade, strip_leading_v, update_check_due, verify_upgrade,
    GithubRelease, ReleaseAsset, UpdateNotice, UpgradePlan,
};

const NOW: u64 = 1_700_000_000;
const SHA256_HELLO: &str = "2cf24dba5fb0a30e26e83b2ac5b9e29e1b161e5c1fa7425e73043362938b9824";

fn release(tag: &str, draft: bool, prerelease: bool) -> GithubRelease {
    GithubRelease { tag_name: Some(tag.to_string()), draft, prerelease, assets: vec![] }
}

fn mock_releases() -> Vec<GithubRelease> {
    vec![
        release("v1.0.0", false, false),
        release("v0.9.0", false, false),
        release("v0.8.1", false, false),
        release("v0.8.0", false, false),
        release("v0.7.0", false, false),
        release("v0.8.0-beta.1", false, true),
        release("v0.9.0-rc.1", false, false),
    ]
}

fn linux() -> HostPlatform {
    HostPlatform { os: HostOs::Linux, arch: HostArch::X86_64 }
}

fn cache(last: u64, minor: Option<&str>, major: Option<&str>) -> GdvmCache {
    GdvmCache {
        last_update_check: last,
        new_version: minor.map(|s| s.to_string()),
        new_major_version: major.map(|s| s.to_string()),
    }
}

#[test]
fn test_find_latest_stable_release() {
    // Mock release data based on GitHub API response.
    let releases = mock_releases();

    let result = find_latest_stable_release(&releases, "^0").unwrap();

    assert_eq!(result, Some("v0.9.0".to_string()));

    let result = find_latest_stable_release(&releases, "^0.8").unwrap();

    assert_eq!(result, Some("v0.8.1".to_string()));

    let result = find_latest_stable_release(&releases, "=0.8.0").unwrap();

    assert_eq!(result, Some("v0.8.0".to_string()));
}

#[test]
fn test_find_latest_stable_release_no_matches() {
    // Mock releases with no stable 0.x.x versions.
    let releases = vec![
        release("v1.0.0", false, false),
        release("v1.1.0", false, false),
        release("v0.8.0-beta.1", false, true),
    ];

    let result = find_latest_stable_release(&releases, "^0").unwrap();

    assert_eq!(result, None);
}

#[test]
fn test_find_latest_stable_release_skips_drafts() {
    // Mock releases with drafts.
    let releases = vec![release("v0.9.0", true, false), release("v0.8.0", false, false)];

    let result = find_latest_stable_release(&releases, "^0").unwrap();

    assert_eq!(result, Some("v0.8.0".to_string()));
}

#[test]
fn test_find_latest_stable_release_invalid_requirement() {
    let releases = vec![];

    let result = find_latest_stable_release(&releases, "invalid-version-req");

    assert!(result.is_err());
    assert_eq!(result.unwrap_err(), GdvmError::InvalidRequirement);
}

#[test]
fn selection_ignores_order_tags_and_build_metadata() {
    let releases = vec![
        release("v1.2.0", false, false),
        release("nightly", false, false),
        release("v1.10.0", false, false),
        release("vv1.10.0", false, false),
        release("v1.9.9", false, false),
        release("v2.0.0-rc.1", false, false),
        release("v1.10.0+build.5", false, false),
    ];
    assert_eq!(find_latest_stable_release(&releases, "*").unwrap().as_deref(), Some("v1.10.0+build.5"));
    assert_eq!(find_latest_stable_release(&releases, "<1.10").unwrap().as_deref(), Some("v1.9.9"));
    assert_eq!(find_latest_stable_release(&releases, "^2").unwrap(), None);
    let untagged = vec![
        release("v1.0.0", false, false),
        GithubRelease { tag_name: None, draft: false, prerelease: false, assets: vec![] },
    ];
    assert_eq!(find_latest_stable_release(&untagged, "*").unwrap_err(), GdvmError::MissingTagName);
    let hidden = vec![
        release("v1.0.0", false, false),
        GithubRelease { tag_name: None, draft: true, prerelease: false, assets: vec![] },
    ];
    assert_eq!(find_latest_stable_release(&hidden, "*").unwrap().as_deref(), Some("v1.0.0"));
    assert_eq!(strip_leading_v("vv1.0"), "1.0");
    assert_eq!(strip_leading_v("1.0v"), "1.0v");
    assert_eq!(caret_requirement(12), "^12");
    assert_eq!(caret_requirement(0), "^0");
}

#[test]
fn update_check_lists_releases_when_due() {
    let stale = cache(NOW - CACHE_TTL_SECONDS - 1, Some("v0.1.0"), None);
    assert!(update_check_due(&stale, NOW));
    let releases = mock_releases();
    let check = check_for_upgrades(&stale, NOW, "0.8.0", Ok(&releases));
    assert!(check.failure.is_none());
    assert!(matches!(&check.notice, UpdateNotice::Both { minor, major } if minor == "v0.9.0" && major == "v1.0.0"));
    let saved = check.save.unwrap();
    assert_eq!(saved.last_update_check, NOW);
    assert_eq!(saved.new_version.as_deref(), Some("v0.9.0"));
    assert_eq!(saved.new_major_version.as_deref(), Some("v1.0.0"));

    let check = check_for_upgrades(&stale, NOW, "0.9.0", Ok(&releases));
    assert!(matches!(&check.notice, UpdateNotice::Major(tag) if tag == "v1.0.0"));
    assert_eq!(check.save.as_ref().unwrap().new_version, None);

    let check = check_for_upgrades(&stale, NOW, "1.0.0", Ok(&releases));
    assert!(matches!(check.notice, UpdateNotice::Nothing));
    let saved = check.save.unwrap();
    assert_eq!(saved.new_version, None);
    assert_eq!(saved.new_major_version, None);

    let only_minor = vec![release("v0.9.1", false, false), release("v0.9.0", false, false)];
    let check = check_for_upgrades(&stale, NOW, "0.9.0", Ok(&only_minor));
    assert!(matches!(&check.notice, UpdateNotice::Minor(tag) if tag == "v0.9.1"));
    assert_eq!(check.save.unwrap().new_major_version, None);

    let check = check_for_upgrades(&stale, NOW, "0.9.0-rc.1", Ok(&vec![release("v0.9.0", false, false)]));
    assert!(matches!(&check.notice, UpdateNotice::Minor(tag) if tag == "v0.9.0"));
}

#[test]
fn failed_update_check_forgets_what_was_known() {
    let stale = cache(0, Some("v0.9.0"), Some("v1.0.0"));
    let check = check_for_upgrades(&stale, NOW, "0.8.0", Err(GdvmError::RateLimited));
    assert_eq!(check.failure, Some(GdvmError::RateLimited));
    assert!(matches!(check.notice, UpdateNotice::Nothing));
    let saved = check.save.unwrap();
    assert_eq!(saved.last_update_check, NOW);
    assert_eq!(saved.new_version, None);
    assert_eq!(saved.new_major_version, None);

    let check = check_for_upgrades(&stale, NOW, "not a version", Ok(&mock_releases()));
    assert_eq!(check.failure, Some(GdvmError::InvalidVersionString));
    assert!(check.save.is_none());
    let untagged = vec![GithubRelease { tag_name: None, draft: false, prerelease: false, assets: vec![] }];
    let check = check_for_upgrades(&stale, NOW, "0.8.0", Ok(&untagged));
    assert_eq!(check.failure, Some(GdvmError::MissingTagName));
    assert!(check.save.is_none());
}

#[test]
fn fresh_update_check_honours_what_is_remembered() {
    let fresh = cache(NOW - 10, Some("v0.9.0"), Some("v1.0.0"));
    assert!(!update_check_due(&fresh, NOW));
    let ignored = Err(GdvmError::RateLimited);
    let check = check_for_upgrades(&fresh, NOW, "0.8.0", ignored);
    assert!(check.failure.is_none());
    assert!(check.save.is_none());
    assert!(matches!(&check.notice, UpdateNotice::Both { minor, major } if minor == "v0.9.0" && major == "v1.0.0"));

    let check = check_for_upgrades(&fresh, NOW, "0.9.0", Err(GdvmError::RateLimited));
    assert!(matches!(&check.notice, UpdateNotice::Major(tag) if tag == "v1.0.0"));
    assert!(check.save.is_none());

    let check = check_for_upgrades(&fresh, NOW, "1.0.0", Err(GdvmError::RateLimited));
    assert!(matches!(check.notice, UpdateNotice::Nothing));
    let saved = check.save.unwrap();
    assert_eq!(saved.last_update_check, NOW);
    assert_eq!(saved.new_version, None);

    let nothing = cache(NOW - 10, None, None);
    let check = check_for_upgrades(&nothing, NOW, "1.0.0", Err(GdvmError::RateLimited));
    assert!(matches!(check.notice, UpdateNotice::Nothing));
    assert!(check.save.is_none());

    let same = cache(NOW - 10, Some("v0.9.0"), Some("0.9.0"));
    let check = check_for_upgrades(&same, NOW, "0.8.0", Err(GdvmError::RateLimited));
    assert!(matches!(&check.notice, UpdateNotice::Minor(tag) if tag == "v0.9.0"));

    let garbage = cache(NOW - 10, Some("latest"), None);
    let check = check_for_upgrades(&garbage, NOW, "0.8.0", Err(GdvmError::RateLimited));
    assert!(matches!(check.notice, UpdateNotice::Nothing));
    assert!(check.save.is_some());
}

#[test]
fn upgrade_plans() {
    let mut releases = mock_releases();
    releases[1].assets = vec![
        ReleaseAsset { name: Some("gdvm-x86_64-unknown-linux-gnu".to_string()), digest: None },
        ReleaseAsset {
            name: Some("gdvm-x86_64-pc-windows-msvc.exe".to_string()),
            digest: Some("sha256:aaaa".to_string()),
        },
        ReleaseAsset {
            name: Some("gdvm-x86_64-unknown-linux-gnu".to_string()),
            digest: Some("sha512:cccc".to_string()),
        },
        ReleaseAsset {
            name: Some("gdvm-x86_64-unknown-linux-gnu".to_string()),
            digest: Some("sha256:bbbb".to_string()),
        },
    ];
    match plan_upgrade(&releases, "0.8.0", false, linux()).unwrap() {
        UpgradePlan::Upgrade { tag, asset_name, url, digest } => {
            assert_eq!(tag, "v0.9.0");
            assert_eq!(asset_name, "gdvm-x86_64-unknown-linux-gnu");
            assert_eq!(
                url,
                "https://github.com/adalinesimonian/gdvm/releases/download/v0.9.0/gdvm-x86_64-unknown-linux-gnu"
            );
            assert_eq!(digest.as_deref(), Some("bbbb"));
        }
        other => panic!("unexpected plan {:?}", other),
    }
    match plan_upgrade(&releases, "0.8.0", true, linux()).unwrap() {
        UpgradePlan::Upgrade { tag, digest, .. } => {
            assert_eq!(tag, "v1.0.0");
            assert_eq!(digest, None);
        }
        other => panic!("unexpected plan {:?}", other),
    }
    assert!(matches!(
        plan_upgrade(&releases, "0.9.0", false, linux()).unwrap(),
        UpgradePlan::NotNeeded { version } if version == "v0.9.0"
    ));
    assert!(matches!(
        plan_upgrade(&releases, "0.9.5", false, linux()).unwrap(),
        UpgradePlan::CurrentIsNewer { latest } if latest == "v0.9.0"
    ));
    assert_eq!(plan_upgrade(&releases, "2.0.0", false, linux()).unwrap_err(), GdvmError::NoStableRelease);
    assert_eq!(plan_upgrade(&vec![], "2.0.0", true, linux()).unwrap_err(), GdvmError::NoStableRelease);
    assert_eq!(plan_upgrade(&releases, "x", true, linux()).unwrap_err(), GdvmError::InvalidVersionString);
    let mac32 = HostPlatform { os: HostOs::Macos, arch: HostArch::X86 };
    assert_eq!(plan_upgrade(&releases, "0.8.0", false, mac32).unwrap_err(), GdvmError::UnsupportedArch);
    let windows = HostPlatform { os: HostOs::Windows, arch: HostArch::X86_64 };
    match plan_upgrade(&releases, "0.8.0", false, windows).unwrap() {
        UpgradePlan::Upgrade { asset_name, digest, .. } => {
            assert_eq!(asset_name, "gdvm-x86_64-pc-windows-msvc.exe");
            assert_eq!(digest.as_deref(), Some("aaaa"));
        }
        other => panic!("unexpected plan {:?}", other),
    }
    assert_eq!(find_digest(&releases, "v0.8.0", "gdvm-x86_64-unknown-linux-gnu"), None);
    assert_eq!(find_digest(&releases, "v9", "gdvm-x86_64-unknown-linux-gnu"), None);
    assert_eq!(asset_name("t", HostOs::Macos), "gdvm-t");
    assert_eq!(asset_url("v1", "f"), "https://github.com/adalinesimonian/gdvm/releases/download/v1/f");
}

#[test]
fn upgrade_downloads_are_checked_when_a_digest_is_published() {
    assert_eq!(verify_upgrade(b"hello", None), Ok(false));
    assert_eq!(verify_upgrade(b"hello", Some(SHA256_HELLO)), Ok(true));
    assert_eq!(verify_upgrade(b"hullo", Some(SHA256_HELLO)), Err(GdvmError::ChecksumMismatch));
    assert_eq!(verify_upgrade(b"hello", Some("abcd")), Err(GdvmError::InvalidHashLength));
    assert_eq!(backup_path("/home/u/.gdvm/bin/gdvm"), "/home/u/.gdvm/bin/gdvm.bak");
}

#[test]
fn release_host_failures() {
    assert_eq!(
        classify_github_error(403, Some("API rate limit exceeded for 1.2.3.4")),
        GdvmError::RateLimited
    );
    assert_eq!(
        classify_github_error(429, Some("API rate limit exceeded")),
        GdvmError::GithubApi(Some("API rate limit exceeded".to_string()))
    );
    assert_eq!(
        classify_github_error(403, Some("Forbidden")),
        GdvmError::GithubApi(Some("Forbidden".to_string()))
    );
    assert_eq!(classify_github_error(500, None), GdvmError::GithubApi(None));
    assert_eq!(classify_github_error(403, None), GdvmError::GithubApi(None));
    assert_eq!(choose_token(Some("e".to_string()), Some("c".to_string())).as_deref(), Some("e"));
    assert_eq!(choose_token(None, Some("c".to_string())).as_deref(), Some("c"));
    assert_eq!(choose_token(None, None), None);
    assert_eq!(authorization_value("abc"), "token abc");
}
