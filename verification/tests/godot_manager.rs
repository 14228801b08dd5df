use gdvm::artifact_cache::DirEntryInfo;
use gdvm::error::GdvmError;
use gdvm::godot_manager::{classify_symlink_error, parse_trimmed_install, GodotManager};
use gdvm::host::{HostArch, HostOs, HostPlatform};
use gdvm::installer::InstallState;
use gdvm::links::{
    build_console_link_path, file_name_of, godotsharp_candidates, godotsharp_link_path,
    macos_bundle_from_executable, parent_of, prepare_link_path,
};
use gdvm::paths::{join_path, GdvmPaths};
use gdvm::release_tags::{build_release_tag, friendly_installed_version, GodotBranch};
use gdvm::version_utils::{GodotVersion, GodotVersionDeterminate};

fn manager() -> GodotManager {
    GodotManager::new(
        GdvmPaths::new("/home/u"),
        HostPlatform { os: HostOs::Linux, arch: HostArch::X86_64 },
    )
}

fn version(name: &str) -> GodotVersionDeterminate {
    GodotVersion::from_install_str(name).unwrap().to_determinate()
}

#[test]
fn creates_directories_and_exposes_paths() {
    let paths = GdvmPaths::from_base("/tmp/base".to_string());

    assert!(paths.base().starts_with("/tmp/base"));
    assert_eq!(
        paths.required_directories(),
        vec!["/tmp/base/installs", "/tmp/base/cache", "/tmp/base/bin"]
    );
    assert_eq!(paths.installs(), "/tmp/base/installs");
    assert_eq!(paths.cache_dir(), "/tmp/base/cache");
    assert_eq!(paths.bin_dir(), "/tmp/base/bin");

    // Derived files live under base.
    assert_eq!(paths.default_file(), join_path(paths.base(), "default"));
    assert_eq!(paths.current_godot_symlink(), join_path(paths.bin_dir(), "current_godot"));
}

#[test]
fn home_layout() {
    let paths = GdvmPaths::new("/home/u/");
    assert_eq!(paths.base(), "/home/u/.gdvm");
    assert_eq!(paths.cache_index(), "/home/u/.gdvm/cache.json");
    assert_eq!(paths.default_file(), "/home/u/.gdvm/default");
    assert_eq!(paths.current_godot_symlink(), "/home/u/.gdvm/bin/current_godot");
    assert_eq!(paths.install_dir("4.3-stable"), "/home/u/.gdvm/installs/4.3-stable");
    assert_eq!(paths.config_file(), "/home/u/.gdvm/config.toml");
    assert_eq!(join_path("", "x"), "x");
    assert_eq!(join_path("a", "/x"), "/x");
    assert_eq!(join_path("a", ""), "a/");
    assert_eq!(join_path("a/", "b/c"), "a/b/c");
    assert_eq!(manager().get_base_path(), "/home/u/.gdvm");
}

#[test]
fn installed_versions_are_listed_newest_first() {
    let names: Vec<String> = ["4.1-stable", "notes", "4.3-stable-csharp", "4.3-rc1", "2.0.4.1-stable", "tmp.zip"]
        .iter()
        .map(|s| s.to_string())
        .collect();
    let listed: Vec<String> = manager().list_installed(&names).iter().map(|v| v.to_install_str()).collect();
    assert_eq!(listed, vec!["4.3-stable-csharp", "4.3-rc1", "4.1-stable", "2.0.4.1-stable"]);
    let installed = manager().list_installed(&names);
    let m = manager();
    assert!(m.is_version_installed(&GodotVersion::from_match_str("4.3").unwrap(), &installed));
    assert!(!m.is_version_installed(&GodotVersion::from_match_str("4.2").unwrap(), &installed));
    assert!(!m.is_version_installed(&GodotVersion::from_install_str("4.1-stable-csharp").unwrap(), &installed));
    assert!(!m.is_version_installed(&GodotVersion::default(), &vec![]));
}

#[test]
fn removing_an_install_clears_a_default_that_points_at_it() {
    let m = manager();
    let v = version("4.3-stable");
    assert_eq!(m.remove(&v, false, None).unwrap_err(), GdvmError::VersionNotFound);
    let plan = m.remove(&v, true, None).unwrap();
    assert_eq!(plan.install_dir, "/home/u/.gdvm/installs/4.3-stable");
    assert!(!plan.clear_default);
    assert!(m.remove(&v, true, Some(&version("4.3-stable"))).unwrap().clear_default);
    assert!(!m.remove(&v, true, Some(&version("4.3-stable-csharp"))).unwrap().clear_default);
}

#[test]
fn default_and_pin() {
    let m = manager();
    let v = version("4.3-stable-csharp");
    assert_eq!(m.set_default(&v, false).unwrap_err(), GdvmError::VersionNotFound);
    let plan = m.set_default(&v, true).unwrap();
    assert_eq!(plan.contents, "4.3-stable-csharp");
    assert_eq!(plan.link, "/home/u/.gdvm/bin/current_godot");
    assert_eq!(plan.target, "/home/u/.gdvm/installs/4.3-stable-csharp");
    assert!(m.get_default(None).unwrap().is_none());
    let default = m.get_default(Some(" 4.3-stable-csharp\n")).unwrap().unwrap();
    assert_eq!(default.to_install_str(), "4.3-stable-csharp");
    assert_eq!(m.get_default(Some("garbage")).unwrap_err(), GdvmError::InvalidVersionString);
    assert_eq!(m.pin_version(&v), "4.3.0-stable-csharp");
    let pins = vec![None, Some("4.1.0-stable\n".to_string()), Some("3.5-stable".to_string())];
    let pinned = m.get_pinned_version(&pins).unwrap();
    assert_eq!(pinned.minor, Some(1));
    assert_eq!(pinned.patch, Some(0));
    assert_eq!(pinned.is_csharp, Some(false));
    assert!(m.get_pinned_version(&vec![Some("nonsense".to_string()), Some("3.5-stable".to_string())]).is_none());
    assert!(m.get_pinned_version(&vec![None, None]).is_none());
    assert!(m.get_pinned_version(&vec![]).is_none());
    assert_eq!(parse_trimmed_install("\t4.2-rc1-csharp  ").unwrap().is_csharp, Some(true));
    assert_eq!(classify_symlink_error(HostOs::Windows, Some(1314), "x"), GdvmError::SymlinkPrivilege);
    assert_eq!(classify_symlink_error(HostOs::Windows, Some(5), "denied"), GdvmError::Io("denied".to_string()));
    assert_eq!(classify_symlink_error(HostOs::Linux, Some(1314), "x"), GdvmError::Io("x".to_string()));
    assert_eq!(classify_symlink_error(HostOs::Windows, None, "x"), GdvmError::Io("x".to_string()));
    assert_eq!(GdvmError::SymlinkPrivilege.message_key(), "error-create-symlink-windows");
    assert_eq!(GdvmError::StartFailed("x".to_string()).message_key(), "error-starting-godot");
}

#[test]
fn manager_starts_installs_and_runs() {
    let m = manager();
    let installer = m.install(&version("4.3-stable"), true, false);
    assert!(matches!(installer.state, InstallState::Start));
    assert!(installer.force);
    assert!(!installer.redownload);
    assert_eq!(installer.version.to_install_str(), "4.3-stable");
    let listing = vec![DirEntryInfo { name: "Godot_v4.3-stable_linux.x86_64".to_string(), is_file: true }];
    assert_eq!(m.run(Some(&listing), true).unwrap().entry, 0);
    assert_eq!(m.run(None, true).unwrap_err(), GdvmError::VersionNotFound);
    assert_eq!(m.run(Some(&vec![]), true).unwrap_err(), GdvmError::ExecutableNotFound);
}

#[test]
fn release_tags_as_text() {
    assert_eq!(build_release_tag("4.3", &GodotBranch::Stable), "4.3-stable");
    assert_eq!(build_release_tag("4.3", &GodotBranch::PreRelease("rc1".to_string())), "4.3-rc1");
    assert_eq!(friendly_installed_version("4.3-stable-csharp"), "4.3-stable (C#)");
    assert_eq!(friendly_installed_version("4.3-stable"), "4.3-stable");
    assert_eq!(friendly_installed_version("-csharp"), " (C#)");
}

#[test]
fn link_paths() {
    assert_eq!(parent_of("/a/b/c"), "/a/b");
    assert_eq!(parent_of("/a"), "/");
    assert_eq!(parent_of("a"), "");
    assert_eq!(file_name_of("/a/b/c.txt"), "c.txt");
    assert_eq!(file_name_of("c.txt"), "c.txt");
    assert_eq!(
        macos_bundle_from_executable("/i/Godot.app/Contents/MacOS/Godot").as_deref(),
        Some("/i/Godot.app")
    );
    assert_eq!(macos_bundle_from_executable("/i/Godot.app/Contents/Other/Godot"), None);
    assert_eq!(macos_bundle_from_executable("/i/Godot_v4.3"), None);
    assert_eq!(macos_bundle_from_executable("Contents/MacOS/Godot"), None);
    assert_eq!(build_console_link_path("C:/tools/godot.exe").as_deref(), Some("C:/tools/godot_console.exe"));
    assert_eq!(build_console_link_path("godot").as_deref(), Some("godot_console"));
    assert_eq!(build_console_link_path("bin/.godot").as_deref(), Some("bin/.godot_console"));
    assert_eq!(build_console_link_path("bin/godot.4.exe").as_deref(), Some("bin/godot.4_console.exe"));
    assert_eq!(build_console_link_path("bin/"), None);
    assert_eq!(build_console_link_path("bin/.."), None);
    assert_eq!(
        godotsharp_candidates("/i/Godot.app/Contents/MacOS/Godot", HostOs::Macos),
        vec!["/i/Godot.app/Contents/Resources/GodotSharp", "/i/Godot.app/Contents/MacOS/GodotSharp"]
    );
    assert_eq!(godotsharp_candidates("/i/godot.x86_64", HostOs::Linux), vec!["/i/GodotSharp"]);
    assert_eq!(godotsharp_link_path("/usr/local/bin/godot"), "/usr/local/bin/GodotSharp");
    assert_eq!(prepare_link_path(false, false), Ok(false));
    assert_eq!(prepare_link_path(true, true), Ok(true));
    assert_eq!(prepare_link_path(true, false), Err(GdvmError::LinkExists));
    assert_eq!(GdvmError::NoDefault.message_key(), "no-default-set");
    assert_eq!(GdvmError::DownloadFailed(500).message_key(), "error-download-failed");
    assert_eq!(
        GdvmError::ProjectVersionMismatch { pinned: true }.message_key(),
        "error-project-version-mismatch"
    );
}

#[test]
fn files_are_looked_for_upward() {
    assert_eq!(
        gdvm::links::ancestor_files("/home/u/proj/src", false, "project.godot"),
        vec![
            "/home/u/proj/src/project.godot",
            "/home/u/proj/project.godot",
            "/home/u/project.godot",
            "/home/project.godot",
            "/project.godot"
        ]
    );
    assert_eq!(
        gdvm::project_version_detector::project_file_candidates("/p/main.tscn", true),
        vec!["/p/project.godot", "/project.godot"]
    );
    assert_eq!(
        gdvm::project_version_detector::project_file_candidates("/p/project.godot", true),
        vec!["/p/project.godot", "/project.godot"]
    );
    assert_eq!(
        gdvm::project_version_detector::project_file_candidates("a/b", false),
        vec!["a/b/project.godot", "a/project.godot", "project.godot"]
    );
    assert_eq!(gdvm::godot_manager::pin_file_candidates("/"), vec!["/.gdvmrc"]);
    assert_eq!(gdvm::godot_manager::pin_file_candidates(""), vec![".gdvmrc"]);
    assert_eq!(gdvm::godot_manager::pin_file_candidates("/w"), vec!["/w/.gdvmrc", "/.gdvmrc"]);
}

#[test]
fn versions_convert_into_each_other() {
    let concrete = version("4.3-stable-csharp");
    let request = GodotVersion::from(concrete.clone());
    assert_eq!(request.major, Some(4));
    assert_eq!(request.patch, Some(0));
    assert_eq!(request.subpatch, Some(0));
    assert_eq!(request.release_type.as_deref(), Some("stable"));
    assert_eq!(request.is_csharp, Some(true));
    let back = GodotVersionDeterminate::from(GodotVersion::from_match_str("4").unwrap());
    assert_eq!(back.to_install_str(), "4.0-");
    assert_eq!(back.is_csharp, None);
}

#[test]
fn link_plans() {
    let plan = |os, primary: &str, console: &str, link: &str, csharp, sharp: Option<&str>| {
        gdvm::links::plan_links(os, primary, console, link, csharp, sharp).map(|items| {
            items.into_iter().map(|i| (i.target, i.link, i.is_dir)).collect::<Vec<_>>()
        })
    };
    let t = |a: &str, b: &str, d: bool| (a.to_string(), b.to_string(), d);
    assert_eq!(
        plan(HostOs::Linux, "/i/godot.x86_64", "/i/godot.x86_64", "/bin/godot", false, None),
        Ok(vec![t("/i/godot.x86_64", "/bin/godot", false)])
    );
    assert_eq!(
        plan(HostOs::Linux, "/i/godot", "/i/godot", "/bin/godot", true, Some("/i/GodotSharp")),
        Ok(vec![t("/i/godot", "/bin/godot", false), t("/i/GodotSharp", "/bin/GodotSharp", true)])
    );
    assert_eq!(
        plan(HostOs::Linux, "/i/godot", "/i/godot", "/bin/godot", true, None),
        Err(GdvmError::GodotSharpMissing)
    );
    assert_eq!(
        plan(HostOs::Windows, "C:/i/g.exe", "C:/i/g_console.exe", "C:/b/godot.exe", false, None),
        Ok(vec![
            t("C:/i/g.exe", "C:/b/godot.exe", false),
            t("C:/i/g_console.exe", "C:/b/godot_console.exe", false)
        ])
    );
    assert_eq!(
        plan(HostOs::Windows, "C:/i/g.exe", "C:/i/g.exe", "C:/b/godot.exe", false, None),
        Ok(vec![t("C:/i/g.exe", "C:/b/godot.exe", false)])
    );
    assert_eq!(
        plan(HostOs::Macos, "/i/Godot.app/Contents/MacOS/Godot", "x", "/Applications/G.app", true, None),
        Ok(vec![t("/i/Godot.app", "/Applications/G.app", true)])
    );
    assert_eq!(
        plan(HostOs::Macos, "/i/Godot", "x", "/usr/local/bin/godot", false, None),
        Ok(vec![t("/i/Godot", "/usr/local/bin/godot", false)])
    );
}

#[test]
fn manager_resolves_installs_and_releases() {
    let m = manager();
    let installed = vec![version("4.1-stable"), version("4.3-stable"), version("3.5-stable")];
    let fits: Vec<String> = m
        .resolve_installed_version(&GodotVersion::from_match_str("4").unwrap(), &installed)
        .iter()
        .map(|v| v.to_install_str())
        .collect();
    assert_eq!(fits, vec!["4.3-stable", "4.1-stable"]);
    let caps = gdvm::metadata_cache::ReleaseCapabilitiesEntry {
        tag_name: "4.3-stable".to_string(),
        has_csharp: false,
        platforms: vec!["linux-x86_64".to_string()],
    };
    let picked = m
        .resolve_available_version(
            &GodotVersion::from_match_str("4").unwrap(),
            &vec![version("4.3-stable")],
            &vec![Some(caps)],
        )
        .unwrap();
    assert_eq!(picked.to_remote_str(), "4.3-stable");
    let (file, link) = m.unset_default();
    assert_eq!(file, "/home/u/.gdvm/default");
    assert_eq!(link, "/home/u/.gdvm/bin/current_godot");
}
