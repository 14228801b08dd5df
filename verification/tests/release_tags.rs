use gdvm::host::{HostArch, HostOs, HostPlatform};
use gdvm::release_tags::{
    get_archive_name, get_download_url, normalize_text, normalize_version, release_key,
    sort_releases, tag_comes_before,
};
use gdvm::version_utils::GodotVersion;

fn host(os: HostOs, arch: HostArch) -> HostPlatform {
    HostPlatform { os, arch }
}

fn numbers(tag: &str) -> Option<(u64, u64, u64, String)> {
    normalize_version(tag).map(|v| (v.major, v.minor, v.patch, v.pre))
}

#[test]
fn test_get_download_url_and_archive_name() {
    let gv = GodotVersion::from_remote_str("4.1-stable", Some(false)).unwrap().to_determinate();
    let name = get_archive_name(&gv, host(HostOs::Linux, HostArch::X86_64));
    assert_eq!(name, "Godot_v4.1-stable_linux.x86_64.zip");
    let name = get_archive_name(&gv, host(HostOs::Windows, HostArch::X86_64));
    assert_eq!(name, "Godot_v4.1-stable_win64.exe.zip");
    let name = get_archive_name(&gv, host(HostOs::Macos, HostArch::X86_64));
    assert_eq!(name, "Godot_v4.1-stable_macos.universal.zip");
    let url = get_download_url(&gv.to_remote_str(), &name);
    assert!(url.ends_with(&name));
}

#[test]
fn archive_names_of_every_host() {
    let plain = GodotVersion::from_install_str("4.3-stable").unwrap().to_determinate();
    let mono = GodotVersion::from_install_str("4.3-rc1-csharp").unwrap().to_determinate();
    let name = |v, os, arch| get_archive_name(v, host(os, arch));
    assert_eq!(name(&plain, HostOs::Windows, HostArch::X86), "Godot_v4.3-stable_win32.exe.zip");
    assert_eq!(name(&plain, HostOs::Windows, HostArch::Aarch64), "Godot_v4.3-stable_windows_arm64.exe.zip");
    assert_eq!(name(&plain, HostOs::Linux, HostArch::X86), "Godot_v4.3-stable_linux.x86_32.zip");
    assert_eq!(name(&plain, HostOs::Linux, HostArch::Aarch64), "Godot_v4.3-stable_linux.arm64.zip");
    assert_eq!(name(&plain, HostOs::Macos, HostArch::Aarch64), "Godot_v4.3-stable_macos.universal.zip");
    assert_eq!(name(&mono, HostOs::Windows, HostArch::X86_64), "Godot_v4.3-rc1_mono_win64.zip");
    assert_eq!(name(&mono, HostOs::Windows, HostArch::X86), "Godot_v4.3-rc1_mono_win32.zip");
    assert_eq!(name(&mono, HostOs::Windows, HostArch::Aarch64), "Godot_v4.3-rc1_mono_windows_arm64.zip");
    assert_eq!(name(&mono, HostOs::Linux, HostArch::X86_64), "Godot_v4.3-rc1_mono_linux_x86_64.zip");
    assert_eq!(name(&mono, HostOs::Linux, HostArch::X86), "Godot_v4.3-rc1_mono_linux_x86_32.zip");
    assert_eq!(name(&mono, HostOs::Linux, HostArch::Aarch64), "Godot_v4.3-rc1_mono_linux_arm64.zip");
    assert_eq!(name(&mono, HostOs::Macos, HostArch::X86), "Godot_v4.3-rc1_mono_macos.universal.zip");
    assert_eq!(
        get_download_url("4.3-stable", "a.zip"),
        "https://github.com/godotengine/godot-builds/releases/download/4.3-stable/a.zip"
    );
}

#[test]
fn tags_are_rewritten_as_semantic_versions() {
    assert_eq!(normalize_text("4.1-stable").as_deref(), Some("4.1.0-stable"));
    assert_eq!(normalize_text("4.1.2-rc1").as_deref(), Some("4.1.2-rc1"));
    assert_eq!(normalize_text("2.0.4.1-stable").as_deref(), Some("2.0.4-stable.1"));
    assert_eq!(normalize_text("4.1-stable-csharp").as_deref(), Some("4.1.0-stable"));
    assert_eq!(normalize_text("4.1.2").as_deref(), Some("4.1.2"));
    assert_eq!(normalize_text("4-stable"), None);
    assert_eq!(normalize_text("1.2.3.4.5-stable"), None);
    assert_eq!(normalize_text("-csharp").as_deref(), Some(""));
    assert_eq!(normalize_text("4.1-rc1-x").as_deref(), Some("4.1.0-rc1-x"));
    assert_eq!(numbers("4.1-stable"), Some((4, 1, 0, "stable".to_string())));
    assert_eq!(numbers("2.0.4.1-stable"), Some((2, 0, 4, "stable.1".to_string())));
    assert_eq!(numbers("4.1.2"), Some((4, 1, 2, "".to_string())));
    assert_eq!(numbers("4.1"), None);
    assert_eq!(numbers("nightly"), None);
    assert_eq!(numbers("4.01-stable"), None);
    assert_eq!(numbers("4-stable"), None);
}

#[test]
fn release_tags_are_sorted_newest_first() {
    let mut tags: Vec<String> = [
        "4.2-dev1", "nightly", "4.2-stable", "4.10-beta1", "4.2-rc1", "4.2.1-dev1", "2.0.4.1-stable",
        "4.2-rc2", "oldest", "3.5-stable-csharp",
    ]
    .iter()
    .map(|t| t.to_string())
    .collect();
    sort_releases(&mut tags);
    assert_eq!(
        tags,
        vec![
            "4.10-beta1", "4.2.1-dev1", "4.2-stable", "4.2-rc1", "4.2-rc2", "4.2-dev1",
            "3.5-stable-csharp", "2.0.4.1-stable", "nightly", "oldest",
        ]
    );
    let mut none: Vec<String> = Vec::new();
    sort_releases(&mut none);
    assert!(none.is_empty());
    assert!(tag_comes_before("4.3-stable", "4.3-rc1"));
    assert!(!tag_comes_before("4.3-rc1", "4.3-stable"));
    assert!(!tag_comes_before("4.3-rc1", "4.3-rc2"));
    assert!(tag_comes_before("4.3-weird", "4.2-stable"));
    assert!(!tag_comes_before("nightly", "0.0.0"));
    assert_eq!(release_key(None), (0, 0, 0, 4));
    let v = normalize_version("4.2-beta3").unwrap();
    assert_eq!(release_key(Some(&v)), (4, 2, 0, 2));
}
