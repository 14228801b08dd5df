use gdvm::error::GdvmError;
use gdvm::zip_utils::{common_prefix, components, plan_extraction, ZipEntryInfo};

fn entry(name: &str) -> ZipEntryInfo {
    ZipEntryInfo {
        enclosed_name: Some(name.to_string()),
        is_dir: name.ends_with('/'),
        unix_mode: None,
    }
}

fn paths(entries: &[ZipEntryInfo]) -> Vec<String> {
    plan_extraction(&entries.to_vec_of()).unwrap().items.into_iter().map(|i| i.relative_path).collect()
}

trait ToVecOf {
    fn to_vec_of(&self) -> Vec<ZipEntryInfo>;
}

impl ToVecOf for [ZipEntryInfo] {
    fn to_vec_of(&self) -> Vec<ZipEntryInfo> {
        self.iter()
            .map(|e| ZipEntryInfo {
                enclosed_name: e.enclosed_name.clone(),
                is_dir: e.is_dir,
                unix_mode: e.unix_mode,
            })
            .collect()
    }
}

#[test]
fn test_extract_zip_basic() {
    let entries = vec![entry("folder/file.txt")];
    let plan = plan_extraction(&entries).unwrap();
    assert_eq!(plan.stripped_prefix.as_deref(), Some("folder"));
    assert_eq!(plan.items.len(), 1);
    assert_eq!(plan.items[0].relative_path, "file.txt");
    assert_eq!(plan.items[0].index, 0);
    assert!(!plan.items[0].is_dir);
}

#[test]
fn strips_a_top_level_directory_that_is_no_member() {
    let entries = [entry("GodotRoot/a.txt"), entry("GodotRoot/bin/b")];
    assert_eq!(common_prefix(&entries.to_vec_of()).as_deref(), Some("GodotRoot"));
    assert_eq!(paths(&entries), vec!["a.txt", "bin/b"]);
    let bundle = [entry("Godot.app/Contents/MacOS/Godot"), entry("Godot.app/Contents/Info.plist")];
    assert_eq!(common_prefix(&bundle.to_vec_of()), None);
    assert_eq!(paths(&bundle), vec!["Godot.app/Contents/MacOS/Godot", "Godot.app/Contents/Info.plist"]);
    let lone_file = [entry("GodotRoot")];
    assert_eq!(common_prefix(&lone_file.to_vec_of()), None);
    assert_eq!(paths(&lone_file), vec!["GodotRoot"]);
    let lone_dir = [entry("GodotRoot/")];
    assert_eq!(common_prefix(&lone_dir.to_vec_of()).as_deref(), Some("GodotRoot"));
    assert_eq!(paths(&lone_dir), vec![""]);
    let mixed = [entry("GodotRoot/a.txt"), entry("other/b")];
    assert_eq!(common_prefix(&mixed.to_vec_of()), None);
}

#[test]
fn strips_a_single_top_level_directory() {
    let entries = vec![
        entry("GodotRoot/"),
        entry("GodotRoot/Godot_v4.3-stable_linux.x86_64"),
        entry("GodotRoot/GodotSharp/"),
        entry("GodotRoot/GodotSharp/Api/x.dll"),
    ];
    let plan = plan_extraction(&entries).unwrap();
    assert_eq!(plan.stripped_prefix.as_deref(), Some("GodotRoot"));
    let got: Vec<(usize, &str, bool)> =
        plan.items.iter().map(|i| (i.index, i.relative_path.as_str(), i.is_dir)).collect();
    assert_eq!(
        got,
        vec![
            (0, "", true),
            (1, "Godot_v4.3-stable_linux.x86_64", false),
            (2, "GodotSharp", true),
            (3, "GodotSharp/Api/x.dll", false),
        ]
    );
}

#[test]
fn keeps_an_application_bundle() {
    let entries = [entry("Godot.app/"), entry("Godot.app/Contents/MacOS/Godot")];
    assert_eq!(common_prefix(&entries.to_vec_of()), None);
    assert_eq!(paths(&entries), vec!["Godot.app", "Godot.app/Contents/MacOS/Godot"]);
}

#[test]
fn keeps_archives_with_several_top_level_entries() {
    let entries = [entry("a/"), entry("a/x"), entry("b.txt")];
    assert_eq!(common_prefix(&entries.to_vec_of()), None);
    assert_eq!(paths(&entries), vec!["a", "a/x", "b.txt"]);
    let flat = [entry("godot.exe"), entry("godot_console.exe")];
    assert_eq!(paths(&flat), vec!["godot.exe", "godot_console.exe"]);
    assert!(paths(&[]).is_empty());
}

#[test]
fn a_deeper_directory_entry_counts_as_directory() {
    let entries = [entry("Root/sub/"), entry("Root/sub/file")];
    assert_eq!(common_prefix(&entries.to_vec_of()).as_deref(), Some("Root"));
    assert_eq!(paths(&entries), vec!["sub", "sub/file"]);
}

#[test]
fn members_without_a_path_are_passed_over() {
    let mut with_mode = entry("Root/bin");
    with_mode.unix_mode = Some(0o755);
    let entries = vec![entry("Root/"), entry("."), entry(""), entry("./"), with_mode];
    let plan = plan_extraction(&entries).unwrap();
    assert_eq!(plan.items.len(), 2);
    assert_eq!(plan.items[1].index, 4);
    assert_eq!(plan.items[1].relative_path, "bin");
    assert_eq!(plan.items[1].unix_mode, Some(0o755));
}

#[test]
fn unsafe_members_are_refused() {
    let unnamed = ZipEntryInfo { enclosed_name: None, is_dir: false, unix_mode: None };
    assert_eq!(
        plan_extraction(&vec![entry("a/x"), unnamed]).unwrap_err(),
        GdvmError::InvalidArchiveEntry
    );
    let escaping = vec![entry("Root/"), entry("Root/../evil")];
    assert_eq!(plan_extraction(&escaping).unwrap_err(), GdvmError::InvalidArchiveEntry);
    let enclosed = vec![entry("a/../b"), entry("c")];
    assert!(plan_extraction(&enclosed).is_ok());
}

#[test]
fn path_parts() {
    let parts = |s: &str| -> Vec<String> {
        components(&s.chars().collect::<Vec<char>>()).into_iter().map(|p| p.into_iter().collect()).collect()
    };
    assert_eq!(parts("a/b/c"), vec!["a", "b", "c"]);
    assert_eq!(parts("./a//b/./c/"), vec!["a", "b", "c"]);
    assert_eq!(parts("a/../b"), vec!["a", "..", "b"]);
    assert!(parts("").is_empty());
    assert!(parts("./").is_empty());
}
