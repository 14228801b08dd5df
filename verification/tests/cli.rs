use gdvm::cli::{collect_possible_paths, run_alias, search_results, single_candidate, tool_file_name};
use gdvm::error::GdvmError;
use gdvm::host::HostOs;
use gdvm::version_utils::{GodotVersion, GodotVersionDeterminate};

fn to_vec(args: &[&str]) -> Vec<String> {
    args.iter().map(|s| s.to_string()).collect()
}

fn versions(names: &[&str]) -> Vec<GodotVersionDeterminate> {
    names.iter().map(|s| GodotVersion::from_install_str(s).unwrap().to_determinate()).collect()
}

fn tags(list: &[GodotVersionDeterminate]) -> Vec<String> {
    list.iter().map(|v| v.to_remote_str()).collect()
}

#[test]
fn collects_non_flag_arguments() {
    let args = to_vec(&["--verbose", "project", "another"]);
    assert_eq!(collect_possible_paths(&args), vec!["project", "another"]);
}

#[test]
fn prefers_explicit_path_flag() {
    let args = to_vec(&["foo", "--path", "explicit", "bar"]);
    assert_eq!(collect_possible_paths(&args), vec!["explicit"]);
}

#[test]
fn missing_path_value_keeps_existing_candidates() {
    let args = to_vec(&["project", "--path"]);
    assert_eq!(collect_possible_paths(&args), vec!["project"]);
}

#[test]
fn path_flag_takes_whatever_follows() {
    assert_eq!(collect_possible_paths(&to_vec(&["--path", "--editor"])), vec!["--editor"]);
    assert_eq!(
        collect_possible_paths(&to_vec(&["--path", "a", "--path", "b"])),
        vec!["a"]
    );
    assert!(collect_possible_paths(&to_vec(&[])).is_empty());
    assert_eq!(collect_possible_paths(&to_vec(&["", "-x"])), vec![""]);
}

#[test]
fn shim_redispatch() {
    assert_eq!(run_alias("godot_console", HostOs::Windows), Some(true));
    assert_eq!(run_alias("godot", HostOs::Windows), Some(false));
    assert_eq!(run_alias("godot", HostOs::Linux), Some(true));
    assert_eq!(run_alias("mygodot4", HostOs::Macos), Some(true));
    assert_eq!(run_alias("gdvm", HostOs::Windows), None);
    assert_eq!(run_alias("console", HostOs::Linux), None);
    assert_eq!(run_alias("", HostOs::Linux), None);
    let args = to_vec(&["--editor", "--path", "C:\\proj"]);
    assert_eq!(collect_possible_paths(&args), vec!["C:\\proj"]);
    assert_eq!(tool_file_name(HostOs::Windows), "gdvm.exe");
    assert_eq!(tool_file_name(HostOs::Linux), "gdvm");
    assert_eq!(tool_file_name(HostOs::Macos), "gdvm");
}

#[test]
fn search_shows_stable_releases_up_to_the_limit() {
    let all = versions(&["4.3-stable", "4.3-rc1", "4.2-stable", "4.1-stable"]);
    assert_eq!(tags(&search_results(&all, false, 0)), vec!["4.3-stable", "4.2-stable", "4.1-stable"]);
    assert_eq!(tags(&search_results(&all, false, 2)), vec!["4.3-stable", "4.2-stable"]);
    assert_eq!(tags(&search_results(&all, true, 2)), vec!["4.3-stable", "4.3-rc1"]);
    assert_eq!(tags(&search_results(&all, true, 9)).len(), 4);
    assert_eq!(tags(&search_results(&all, true, 0)).len(), 4);
    assert!(search_results(&versions(&["4.3-rc1"]), false, 5).is_empty());
}

#[test]
fn one_candidate_is_needed() {
    assert_eq!(single_candidate(&versions(&[])).unwrap_err(), GdvmError::VersionNotFound);
    assert_eq!(
        single_candidate(&versions(&["4.3-stable", "4.2-stable"])).unwrap_err(),
        GdvmError::MultipleVersionsFound
    );
    assert_eq!(single_candidate(&versions(&["4.3-stable"])).unwrap().to_remote_str(), "4.3-stable");
}
