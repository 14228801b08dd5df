use gdvm::error::GdvmError;
use gdvm::run_version_resolver::{
    decide_run_version, mismatch_between, warn_project_version_mismatch, RunDecision, RunFacts,
    RunNotice, RunResolutionRequest, RunVersionResolver, RunVersionSource,
};
use gdvm::version_utils::{GodotVersion, GodotVersionDeterminate};
use std::collections::HashMap;

struct FakeSource {
    pinned: Option<GodotVersion>,
    project_versions: HashMap<String, GodotVersion>,
    default: Option<GodotVersionDeterminate>,
    auto_result: Option<GodotVersionDeterminate>,
}

impl FakeSource {
    fn new() -> Self {
        Self { pinned: None, project_versions: HashMap::new(), default: None, auto_result: None }
    }

    fn with_project(mut self, path: &str, gv: GodotVersion) -> Self {
        self.project_versions.insert(path.to_string(), gv);
        self
    }

    fn with_pinned(mut self, gv: GodotVersion) -> Self {
        self.pinned = Some(gv);
        self
    }

    fn with_default(mut self, gv: GodotVersionDeterminate) -> Self {
        self.default = Some(gv);
        self
    }

    fn with_auto(mut self, gv: GodotVersionDeterminate) -> Self {
        self.auto_result = Some(gv);
        self
    }
}

impl RunVersionSource for FakeSource {
    fn get_pinned_version(&self) -> Option<GodotVersion> {
        self.pinned.clone()
    }

    fn get_default(&self) -> Result<Option<GodotVersionDeterminate>, GdvmError> {
        Ok(self.default.clone())
    }

    fn determine_version(&self, path: Option<&str>) -> Option<GodotVersion> {
        match path {
            Some(p) => self.project_versions.get(p).cloned(),
            None => self.project_versions.get("<cwd>").cloned(),
        }
    }

    fn auto_install_version(&self, gv: &GodotVersion) -> Result<GodotVersionDeterminate, GdvmError> {
        if let Some(result) = self.auto_result.clone() {
            return Ok(result);
        }
        Ok(gv.to_determinate())
    }
}

fn gv(major: u32, minor: u32, release: &str) -> GodotVersion {
    GodotVersion {
        major: Some(major),
        minor: Some(minor),
        patch: Some(0),
        subpatch: None,
        release_type: Some(release.to_string()),
        is_csharp: Some(false),
    }
}

fn gvd(major: u32, minor: u32, release: &str) -> GodotVersionDeterminate {
    GodotVersionDeterminate {
        major,
        minor,
        patch: 0,
        subpatch: 0,
        release_type: release.to_string(),
        is_csharp: Some(false),
    }
}

fn request<'a>(explicit: Option<GodotVersion>, paths: &'a [String], force: bool) -> RunResolutionRequest<'a> {
    RunResolutionRequest {
        explicit,
        possible_paths: paths,
        csharp_given: false,
        csharp_flag: false,
        force_on_mismatch: force,
    }
}

#[test]
fn prefers_explicit_over_others() {
    let source = FakeSource::new()
        .with_pinned(gv(3, 5, "stable"))
        .with_default(gvd(4, 0, "stable"))
        .with_auto(gvd(5, 0, "stable"));
    let resolver = RunVersionResolver::new(&source);
    let explicit = gv(5, 0, "stable");
    let mut notices = Vec::new();

    let resolved = resolver.resolve(request(Some(explicit), &[], false), &mut notices).unwrap();
    assert_eq!(resolved.major, 5);
}

#[test]
fn pinned_used_when_no_explicit() {
    let source = FakeSource::new().with_pinned(gv(3, 5, "stable")).with_default(gvd(4, 0, "stable"));
    let resolver = RunVersionResolver::new(&source);
    let mut notices = Vec::new();

    let resolved = resolver.resolve(request(None, &[], false), &mut notices).unwrap();

    assert_eq!(resolved.major, 3);
}

#[test]
fn picks_project_when_available() {
    let source = FakeSource::new()
        .with_project("/proj", gv(4, 2, "stable"))
        .with_default(gvd(4, 0, "stable"));
    let resolver = RunVersionResolver::new(&source);
    let mut notices = Vec::new();
    let paths = vec!["/proj".to_string()];

    let resolved = resolver.resolve(request(None, &paths, false), &mut notices).unwrap();

    assert_eq!(resolved.minor, 2);
    assert_eq!(notices.len(), 1);
    assert!(matches!(&notices[0], RunNotice::UsingProjectVersion(v) if v.minor == Some(2)));
}

#[test]
fn falls_back_to_default() {
    let source = FakeSource::new().with_default(gvd(4, 0, "stable"));
    let resolver = RunVersionResolver::new(&source);
    let mut notices = Vec::new();

    let resolved = resolver.resolve(request(None, &[], false), &mut notices).unwrap();

    assert_eq!(resolved.major, 4);
    assert!(notices.is_empty());
}

#[test]
fn mismatches_error_when_not_forced() {
    let source = FakeSource::new().with_project("<cwd>", gv(4, 1, "stable"));
    let resolver = RunVersionResolver::new(&source);
    let requested = gv(3, 5, "stable");
    let mut notices = Vec::new();

    resolver.resolve(request(Some(requested.clone()), &[], false), &mut notices).unwrap_err();

    // Force allows it to proceed.
    let resolved = resolver.resolve(request(Some(requested.clone()), &[], true), &mut notices).unwrap();

    assert_eq!(resolved.major, requested.major.unwrap());
    assert_eq!(notices.len(), 2);
}

#[test]
fn project_mismatch_without_force() {
    let project = gdvm::project_version_detector::detect_version_in_contents(
        "[application]\nconfig/features=PackedStringArray(\"4.1\")\n",
    )
    .unwrap();
    let source = FakeSource::new().with_project("<cwd>", project);
    let resolver = RunVersionResolver::new(&source);
    let requested = GodotVersion::from_match_str("3.5").unwrap();
    let mut notices = Vec::new();
    let err = resolver.resolve(request(Some(requested.clone()), &[], false), &mut notices).unwrap_err();
    assert_eq!(err, GdvmError::ProjectVersionMismatch { pinned: false });
    match &notices[0] {
        RunNotice::ProjectVersionMismatch(w) => {
            assert!(!w.pinned);
            assert_eq!(w.project_version.minor, Some(1));
            assert_eq!(w.requested_version.major, Some(3));
        }
        other => panic!("unexpected notice {:?}", other),
    }
    let forced = resolver.resolve(request(Some(requested), &[], true), &mut notices).unwrap();
    assert_eq!(forced.to_remote_str(), "3.5-");
    assert_eq!(forced.is_csharp, Some(false));
}

#[test]
fn nothing_to_run_without_a_default() {
    let source = FakeSource::new();
    let resolver = RunVersionResolver::new(&source);
    let mut notices = Vec::new();
    assert_eq!(
        resolver.resolve(request(None, &[], false), &mut notices).unwrap_err(),
        GdvmError::NoDefault
    );
    let pinned = FakeSource::new().with_pinned(gv(3, 5, "stable")).with_project("<cwd>", gv(4, 1, "stable"));
    let resolver = RunVersionResolver::new(&pinned);
    assert_eq!(
        resolver.resolve(request(None, &[], false), &mut notices).unwrap_err(),
        GdvmError::ProjectVersionMismatch { pinned: true }
    );
}

#[test]
fn default_takes_the_flag_of_the_command_line() {
    let source = FakeSource::new().with_default(gvd(4, 0, "stable"));
    let resolver = RunVersionResolver::new(&source);
    let mut notices = Vec::new();
    let resolved = resolver
        .resolve(
            RunResolutionRequest {
                explicit: None,
                possible_paths: &[],
                csharp_given: true,
                csharp_flag: true,
                force_on_mismatch: false,
            },
            &mut notices,
        )
        .unwrap();
    assert_eq!(resolved.is_csharp, Some(true));
}

#[test]
fn decisions_from_facts() {
    let facts = |pinned: Option<GodotVersion>, near_paths: Option<GodotVersion>, default: Option<GodotVersionDeterminate>| RunFacts {
        pinned,
        project_near_paths: near_paths,
        default,
    };
    let hint = GodotVersion { patch: None, release_type: None, ..gv(4, 1, "") };
    let all = facts(Some(gv(3, 5, "stable")), Some(hint.clone()), Some(gvd(4, 0, "stable")));
    match decide_run_version(&request(Some(gv(4, 1, "rc1")), &[], false), &all).unwrap() {
        RunDecision::Install(v) => assert_eq!(v.release_type.as_deref(), Some("rc1")),
        other => panic!("unexpected decision {:?}", other),
    }
    assert_eq!(
        decide_run_version(&request(Some(gv(4, 2, "rc1")), &[], false), &all).unwrap_err(),
        GdvmError::ProjectVersionMismatch { pinned: false }
    );
    assert!(decide_run_version(&request(Some(gv(4, 2, "rc1")), &[], true), &all).is_ok());
    assert_eq!(
        decide_run_version(&request(None, &[], false), &all).unwrap_err(),
        GdvmError::ProjectVersionMismatch { pinned: true }
    );
    match decide_run_version(&request(None, &[], true), &all).unwrap() {
        RunDecision::Install(v) => assert_eq!(v.major, Some(3)),
        other => panic!("unexpected decision {:?}", other),
    }
    let agreeing = facts(Some(gv(4, 1, "stable")), Some(hint), None);
    match decide_run_version(&request(None, &[], false), &agreeing).unwrap() {
        RunDecision::Install(v) => assert_eq!(v.release_type.as_deref(), Some("stable")),
        other => panic!("unexpected decision {:?}", other),
    }
    let pinned_only = facts(Some(gv(3, 5, "stable")), None, None);
    assert!(matches!(
        decide_run_version(&request(None, &[], false), &pinned_only).unwrap(),
        RunDecision::Install(v) if v.major == Some(3)
    ));
    let project = facts(None, Some(gv(4, 1, "stable")), Some(gvd(4, 0, "stable")));
    assert!(matches!(
        decide_run_version(&request(None, &[], false), &project).unwrap(),
        RunDecision::Install(v) if v.minor == Some(1)
    ));
    let default = facts(None, None, Some(gvd(4, 0, "stable")));
    assert!(matches!(
        decide_run_version(&request(None, &[], false), &default).unwrap(),
        RunDecision::Use(v) if v.major == 4
    ));
    assert_eq!(
        decide_run_version(&request(None, &[], false), &facts(None, None, None)).unwrap_err(),
        GdvmError::NoDefault
    );
}

#[test]
fn pinned_version_is_checked_against_the_project_near_the_paths() {
    let source = FakeSource::new()
        .with_pinned(gv(3, 5, "stable"))
        .with_project("/proj", GodotVersion { patch: None, release_type: None, ..gv(4, 1, "") });
    let resolver = RunVersionResolver::new(&source);
    let paths = vec!["/elsewhere".to_string(), "/proj".to_string()];
    let mut notices = Vec::new();
    assert_eq!(
        resolver.resolve(request(None, &paths, false), &mut notices).unwrap_err(),
        GdvmError::ProjectVersionMismatch { pinned: true }
    );
    assert!(matches!(&notices[0], RunNotice::ProjectVersionMismatch(w) if w.pinned));
    let forced = resolver.resolve(request(None, &paths, true), &mut notices).unwrap();
    assert_eq!(forced.major, 3);
    let mut quiet = Vec::new();
    let away = resolver.resolve(request(None, &[], false), &mut quiet).unwrap();
    assert_eq!(away.major, 3);
    assert!(quiet.is_empty());
}

#[test]
fn mismatch_warnings() {
    let project = gv(4, 1, "stable");
    assert!(mismatch_between(None, &gv(3, 5, "stable"), true).is_none());
    assert!(mismatch_between(Some(&project), &gv(4, 1, "stable"), true).is_none());
    let warning = mismatch_between(Some(&project), &gv(3, 5, "stable"), true).unwrap();
    assert!(warning.pinned);
    let source = FakeSource::new().with_project("/a", gv(4, 1, "stable")).with_project("<cwd>", gv(3, 5, "stable"));
    let paths = vec!["/missing".to_string(), "/a".to_string()];
    assert!(warn_project_version_mismatch(&source, &gv(3, 5, "stable"), false, Some(&paths)).is_some());
    assert!(warn_project_version_mismatch(&source, &gv(3, 5, "stable"), true, None).is_none());
    assert!(warn_project_version_mismatch(&source, &gv(3, 5, "stable"), false, Some(&[])).is_none());
}
