//! Choosing the version for a run: the version given on the command line,
//! else the pinned one, else the one the project asks for, else the
//! default.

use vstd::prelude::*;
use crate::error::GdvmError;
use crate::text::string_views;
use crate::version_utils::{ConcreteVersion, GodotVersion, GodotVersionDeterminate, PartialVersion};

verus! {

/// What the resolver consults. Nothing is promised of the answers: they
/// come from the file system and from installing. What the resolver does
/// with them is stated over the answers that the source gave.
pub trait RunVersionSource {
    /// The version pinned for the current directory, if one is.
    fn get_pinned_version(&self) -> Option<GodotVersion>;

    /// The default version, if one is set.
    fn get_default(&self) -> Result<Option<GodotVersionDeterminate>, GdvmError>;

    /// The version that the project at `path`, or at the current directory
    /// where no path is given, asks for.
    fn determine_version(&self, path: Option<&str>) -> Option<GodotVersion>;

    /// Resolves a request to one version and makes sure it is installed.
    fn auto_install_version(&self, gv: &GodotVersion) -> Result<GodotVersionDeterminate, GdvmError>;
}

/// Resolves the version for a run from a source.
pub struct RunVersionResolver<'a, S: RunVersionSource> {
    pub source: &'a S,
}

/// What the command line says about the version to run.
#[derive(Debug)]
pub struct RunResolutionRequest<'a> {
    /// The version given, if one was.
    pub explicit: Option<GodotVersion>,
    /// Where the project may be, in the order to try.
    pub possible_paths: &'a [String],
    /// Whether the variant flag was given at all.
    pub csharp_given: bool,
    /// The variant flag.
    pub csharp_flag: bool,
    /// Whether to go on where the project asks for another version.
    pub force_on_mismatch: bool,
}

/// The project asks for another version than the one requested.
#[derive(Debug)]
pub struct MismatchWarning {
    pub project_version: GodotVersion,
    pub requested_version: GodotVersion,
    /// The requested version is the pinned one, not one given on the
    /// command line.
    pub pinned: bool,
}

/// What the user is to be told about a resolution.
#[derive(Debug)]
pub enum RunNotice {
    /// The project asks for another version than the one requested.
    ProjectVersionMismatch(MismatchWarning),
    /// The version that the project asks for is used.
    UsingProjectVersion(GodotVersion),
}

/// What was found out for a run, all at once.
#[derive(Debug)]
pub struct RunFacts {
    /// The pinned version.
    pub pinned: Option<GodotVersion>,
    /// The project's version, looked for at the possible paths in their
    /// order and then at the current directory.
    pub project_near_paths: Option<GodotVersion>,
    /// The default version.
    pub default: Option<GodotVersionDeterminate>,
}

/// What to do for a run.
#[derive(Debug)]
pub enum RunDecision {
    /// Resolve this request, install it if needed, and run it.
    Install(GodotVersion),
    /// Run this version.
    Use(GodotVersionDeterminate),
}

/// The version given on the command line with the variant flag of the
/// command line.
pub open spec fn explicit_request(explicit: PartialVersion, csharp_flag: bool) -> PartialVersion {
    PartialVersion { is_csharp: Some(csharp_flag), ..explicit }
}

/// The project's version stands against the requested one.
pub open spec fn stands_against(project: Option<GodotVersion>, requested: PartialVersion) -> bool {
    project is Some && project->0@.conflicts_with(requested)
}

/// The default version with the variant flag of the command line where
/// one was given.
pub open spec fn default_for_run(default: ConcreteVersion, csharp_given: bool, csharp_flag: bool)
    -> ConcreteVersion {
    if csharp_given {
        ConcreteVersion { is_csharp: Some(csharp_flag), ..default }
    } else {
        default
    }
}

/// The outcome `r` is the one that the request and the facts call for.
///
/// A version given on the command line wins, then the pinned one; either
/// is refused where the project found near the paths asks for another
/// version, unless forced.
/// Then comes the project's version, then the default, which takes the
/// variant flag of the command line where one was given. With none of
/// these there is no default to fall back on.
pub open spec fn is_run_decision(
    r: Result<RunDecision, GdvmError>,
    request: RunResolutionRequest,
    facts: RunFacts,
) -> bool {
    if request.explicit is Some {
        let requested = explicit_request(request.explicit->0@, request.csharp_flag);
        if stands_against(facts.project_near_paths, requested) && !request.force_on_mismatch {
            r is Err && r->Err_0 == (GdvmError::ProjectVersionMismatch { pinned: false })
        } else {
            r is Ok && r->Ok_0 is Install && r->Ok_0->Install_0@ == requested
        }
    } else if facts.pinned is Some {
        let requested = facts.pinned->0@;
        if stands_against(facts.project_near_paths, requested) && !request.force_on_mismatch {
            r is Err && r->Err_0 == (GdvmError::ProjectVersionMismatch { pinned: true })
        } else {
            r is Ok && r->Ok_0 is Install && r->Ok_0->Install_0@ == requested
        }
    } else if facts.project_near_paths is Some {
        r is Ok && r->Ok_0 is Install && r->Ok_0->Install_0@ == facts.project_near_paths->0@
    } else if facts.default is Some {
        r is Ok && r->Ok_0 is Use && r->Ok_0->Use_0@ == default_for_run(
            facts.default->0@,
            request.csharp_given,
            request.csharp_flag,
        )
    } else {
        r is Err && r->Err_0 is NoDefault
    }
}

/// A notice is one that a resolution may give: a mismatch notice names a
/// project version that stands against the requested one, which is the
/// pinned one exactly where no version was given on the command line; a
/// notice that the project's version is used comes only where none was
/// given.
pub open spec fn notice_is_due(notice: RunNotice, explicit_given: bool) -> bool {
    match notice {
        RunNotice::ProjectVersionMismatch(w) => w.project_version@.conflicts_with(
            w.requested_version@,
        ) && w.pinned == !explicit_given,
        RunNotice::UsingProjectVersion(_) => !explicit_given,
    }
}

/// The warning to give where the project's version stands against the
/// requested one, and nothing where it does not or no project was found.
pub fn mismatch_between(project: Option<&GodotVersion>, requested: &GodotVersion, is_pin: bool)
    -> (r: Option<MismatchWarning>)
    ensures
        match r {
            Some(w) => project is Some && project->0@.conflicts_with(requested@)
                && w.project_version@ == project->0@ && w.requested_version@ == requested@
                && w.pinned == is_pin,
            None => project is None || !project->0@.conflicts_with(requested@),
        },
{
    match project {
        Some(p) => {
            if p.conflicts_with(requested) {
                Some(
                    MismatchWarning {
                        project_version: p.clone(),
                        requested_version: requested.clone(),
                        pinned: is_pin,
                    },
                )
            } else {
                None
            }
        },
        None => None,
    }
}

/// The default version for a run: with the variant flag of the command
/// line where one was given.
pub fn default_with_flag(default: GodotVersionDeterminate, csharp_given: bool, csharp_flag: bool)
    -> (r: GodotVersionDeterminate)
    ensures
        r@ == default_for_run(default@, csharp_given, csharp_flag),
{
    let mut default = default;
    if csharp_given {
        default.is_csharp = Some(csharp_flag);
    }
    default
}

/// Decides what to run from everything that was found out.
pub fn decide_run_version(request: &RunResolutionRequest<'_>, facts: &RunFacts) -> (r: Result<
    RunDecision,
    GdvmError,
>)
    ensures
        is_run_decision(r, *request, *facts),
{
    match &request.explicit {
        Some(explicit) => {
            let mut requested = explicit.clone();
            requested.is_csharp = Some(request.csharp_flag);
            let warning = mismatch_between(facts.project_near_paths.as_ref(), &requested, false);
            if warning.is_some() && !request.force_on_mismatch {
                return Err(GdvmError::ProjectVersionMismatch { pinned: false });
            }
            Ok(RunDecision::Install(requested))
        },
        None => match &facts.pinned {
            Some(pinned) => {
                let warning = mismatch_between(facts.project_near_paths.as_ref(), pinned, true);
                if warning.is_some() && !request.force_on_mismatch {
                    return Err(GdvmError::ProjectVersionMismatch { pinned: true });
                }
                Ok(RunDecision::Install(pinned.clone()))
            },
            None => match &facts.project_near_paths {
                Some(project) => Ok(RunDecision::Install(project.clone())),
                None => match &facts.default {
                    Some(default) => Ok(
                        RunDecision::Use(
                            default_with_flag(
                                default.clone(),
                                request.csharp_given,
                                request.csharp_flag,
                            ),
                        ),
                    ),
                    None => Err(GdvmError::NoDefault),
                },
            },
        },
    }
}

/// `answer` is an answer of the source to the question for the version
/// of the project at the path with the text `path`, or at the current
/// directory where no path is given.
pub open spec fn is_project_answer<S: RunVersionSource>(
    source: &S,
    path: Option<Seq<char>>,
    answer: Option<GodotVersion>,
) -> bool {
    match path {
        Some(text) => exists|p: &str|
            p@ == text && #[trigger] call_ensures(S::determine_version, (source, Some(p)), answer),
        None => call_ensures(S::determine_version, (source, None::<&str>), answer),
    }
}

/// `found` is what asking the source path by path gave, where the first
/// `k` paths were asked in vain: the source knew no project at any of
/// them, and `found` is its answer for the next path, a version, or, where
/// no path is left, its answer for the current directory.
pub open spec fn is_detected_at<S: RunVersionSource>(
    source: &S,
    paths: Seq<Seq<char>>,
    k: int,
    found: Option<GodotVersion>,
) -> bool {
    &&& 0 <= k <= paths.len()
    &&& forall|j: int| 0 <= j < k ==> is_project_answer(source, Some(#[trigger] paths[j]), None)
    &&& if k < paths.len() {
        found is Some && is_project_answer(source, Some(paths[k]), found)
    } else {
        is_project_answer(source, None, found)
    }
}

/// `found` is the version that the project asks for according to the
/// source: its first answer that names a version, asked for each of the
/// paths in their order, else its answer for the current directory.
pub open spec fn is_detected<S: RunVersionSource>(
    source: &S,
    paths: Seq<Seq<char>>,
    found: Option<GodotVersion>,
) -> bool {
    exists|k: int| is_detected_at(source, paths, k, found)
}

/// The version that the project asks for: the first that the source finds
/// at one of the paths, in their order, else what it finds at the current
/// directory.
pub fn detect_project_version<S: RunVersionSource>(source: &S, paths: &[String]) -> (r: Option<
    GodotVersion,
>)
    ensures
        is_detected(source, string_views(paths@), r),
{
    let ghost texts = string_views(paths@);
    let mut i: usize = 0;
    while i < paths.len()
        invariant
            i <= paths.len(),
            texts == string_views(paths@),
            forall|j: int| 0 <= j < i ==> is_project_answer(source, Some(#[trigger] texts[j]), None),
        decreases paths.len() - i,
    {
        let path = paths[i].as_str();
        let answer = source.determine_version(Some(path));
        assert(call_ensures(S::determine_version, (source, Some(path)), answer));
        assert(is_project_answer(source, Some(texts[i as int]), answer));
        match answer {
            Some(version) => {
                assert(is_detected_at(source, texts, i as int, Some(version)));
                return Some(version);
            },
            None => {},
        }
        i = i + 1;
    }
    let answer = source.determine_version(None);
    assert(is_detected_at(source, texts, paths@.len() as int, answer));
    answer
}

/// `r` is the warning to give for a requested version where the project
/// asks for `project`: a warning that names both versions where the
/// project's version stands against the requested one, and none where it
/// does not or no project was found.
pub open spec fn is_mismatch_warning(
    r: Option<MismatchWarning>,
    project: Option<GodotVersion>,
    requested: PartialVersion,
    is_pin: bool,
) -> bool {
    match r {
        Some(w) => stands_against(project, requested) && w.project_version@ == project->0@
            && w.requested_version@ == requested && w.pinned == is_pin,
        None => !stands_against(project, requested),
    }
}

/// The texts of the paths given, where some are given.
pub open spec fn path_texts(paths: Option<&[String]>) -> Option<Seq<Seq<char>>> {
    match paths {
        Some(given) => Some(string_views(given@)),
        None => None,
    }
}

/// `r` is the warning to give where `determined` is what the source
/// found: asked path by path (see `is_detected`) where paths are given,
/// and for the current directory alone where none are.
pub open spec fn is_warning_for<S: RunVersionSource>(
    source: &S,
    paths: Option<Seq<Seq<char>>>,
    determined: Option<GodotVersion>,
    requested: PartialVersion,
    is_pin: bool,
    r: Option<MismatchWarning>,
) -> bool {
    &&& match paths {
        Some(texts) => is_detected(source, texts, determined),
        None => is_project_answer(source, None, determined),
    }
    &&& is_mismatch_warning(r, determined, requested, is_pin)
}

/// Looks up the project's version, at the paths where some are given and
/// at the current directory, and returns the warning to give where it
/// stands against the requested version.
pub fn warn_project_version_mismatch<S: RunVersionSource>(
    source: &S,
    requested: &GodotVersion,
    is_pin: bool,
    paths: Option<&[String]>,
) -> (r: Option<MismatchWarning>)
    ensures
        r is Some ==> r->0.project_version@.conflicts_with(requested@) && r->0.requested_version@
            == requested@ && r->0.pinned == is_pin,
        exists|determined: Option<GodotVersion>| #[trigger]
            is_warning_for(source, path_texts(paths), determined, requested@, is_pin, r),
{
    let determined = match paths {
        Some(given) => detect_project_version(source, given),
        None => source.determine_version(None),
    };
    let warning = mismatch_between(determined.as_ref(), requested, is_pin);
    assert(is_warning_for(source, path_texts(paths), determined, requested@, is_pin, warning));
    warning
}

/// What a source answered in the course of one resolution. An answer
/// that the resolution did not ask for counts for nothing.
pub struct RunAnswers {
    /// The answer to the question for the pinned version.
    pub pinned: Option<GodotVersion>,
    /// The project's version, asked for path by path and then for the
    /// current directory.
    pub project_near_paths: Option<GodotVersion>,
    /// The answer to the question for the default version.
    pub default: Result<Option<GodotVersionDeterminate>, GdvmError>,
}

/// The answers are those that the source gave to the questions that the
/// resolution of the request asks, in its order: with a version given on
/// the command line, only the project near the paths is asked for;
/// without one, first the pinned version, then the project near the
/// paths; and only where neither is known, the default.
pub open spec fn are_answers<S: RunVersionSource>(
    source: &S,
    request: RunResolutionRequest,
    answers: RunAnswers,
) -> bool {
    let paths = string_views(request.possible_paths@);
    &&& is_detected(source, paths, answers.project_near_paths)
    &&& request.explicit is None ==> call_ensures(S::get_pinned_version, (source,), answers.pinned)
    &&& asks_for_default(request, answers) ==> call_ensures(
        S::get_default,
        (source,),
        answers.default,
    )
}

/// With these answers the resolution comes to asking for the default.
pub open spec fn asks_for_default(request: RunResolutionRequest, answers: RunAnswers) -> bool {
    request.explicit is None && answers.pinned is None && answers.project_near_paths is None
}

/// `r` is the decision that the request and the answers call for: the
/// failure of the source where it failed to say what the default is, and
/// otherwise what `is_run_decision` says for the facts answered.
pub open spec fn is_decision_for(
    r: Result<RunDecision, GdvmError>,
    request: RunResolutionRequest,
    answers: RunAnswers,
) -> bool {
    if asks_for_default(request, answers) && answers.default is Err {
        r is Err && r->Err_0 == answers.default->Err_0
    } else {
        is_run_decision(
            r,
            request,
            RunFacts {
                pinned: answers.pinned,
                project_near_paths: answers.project_near_paths,
                default: match answers.default {
                    Ok(default) => default,
                    Err(_) => None,
                },
            },
        )
    }
}

/// The notice tells that `project` stands against `requested`.
pub open spec fn is_mismatch_notice(
    notice: RunNotice,
    project: PartialVersion,
    requested: PartialVersion,
    pinned: bool,
) -> bool {
    notice is ProjectVersionMismatch && notice->ProjectVersionMismatch_0.project_version@
        == project && notice->ProjectVersionMismatch_0.requested_version@ == requested
        && notice->ProjectVersionMismatch_0.pinned == pinned
}

/// `after` is `before` and one notice more.
pub open spec fn has_one_more(before: Seq<RunNotice>, after: Seq<RunNotice>) -> bool {
    after.len() == before.len() + 1 && after.drop_last() == before
}

/// `after` holds the notices of `before` and what the resolution tells the
/// user: that the project stands against the version given or pinned,
/// where it does, forced or not; that the project's version is used,
/// where it is; and nothing more.
pub open spec fn are_notices_for(
    before: Seq<RunNotice>,
    after: Seq<RunNotice>,
    request: RunResolutionRequest,
    answers: RunAnswers,
) -> bool {
    if request.explicit is Some {
        let requested = explicit_request(request.explicit->0@, request.csharp_flag);
        if stands_against(answers.project_near_paths, requested) {
            has_one_more(before, after) && is_mismatch_notice(
                after.last(),
                answers.project_near_paths->0@,
                requested,
                false,
            )
        } else {
            after == before
        }
    } else if answers.pinned is Some {
        if stands_against(answers.project_near_paths, answers.pinned->0@) {
            has_one_more(before, after) && is_mismatch_notice(
                after.last(),
                answers.project_near_paths->0@,
                answers.pinned->0@,
                true,
            )
        } else {
            after == before
        }
    } else if answers.project_near_paths is Some {
        has_one_more(before, after) && after.last() is UsingProjectVersion
            && after.last()->UsingProjectVersion_0@ == answers.project_near_paths->0@
    } else {
        after == before
    }
}

/// The source gave the answers, and `decision` and the notices in `after`
/// are what the request and the answers call for.
pub open spec fn is_decided<S: RunVersionSource>(
    source: &S,
    request: RunResolutionRequest,
    answers: RunAnswers,
    before: Seq<RunNotice>,
    after: Seq<RunNotice>,
    decision: Result<RunDecision, GdvmError>,
) -> bool {
    &&& are_answers(source, request, answers)
    &&& is_decision_for(decision, request, answers)
    &&& are_notices_for(before, after, request, answers)
}

/// `r` is what comes of a decision: its failure; the version to use; or,
/// for a request to be installed, what the source answered when asked to
/// resolve and install it.
pub open spec fn is_outcome<S: RunVersionSource>(
    source: &S,
    decision: Result<RunDecision, GdvmError>,
    r: Result<GodotVersionDeterminate, GdvmError>,
) -> bool {
    match decision {
        Err(e) => r is Err && r->Err_0 == e,
        Ok(RunDecision::Use(version)) => r is Ok && r->Ok_0 == version,
        Ok(RunDecision::Install(requested)) => call_ensures(
            S::auto_install_version,
            (source, &requested),
            r,
        ),
    }
}

/// The resolution of the request went by these answers to this decision,
/// and `r` is what came of the decision.
pub open spec fn is_resolution<S: RunVersionSource>(
    source: &S,
    request: RunResolutionRequest,
    answers: RunAnswers,
    before: Seq<RunNotice>,
    after: Seq<RunNotice>,
    decision: Result<RunDecision, GdvmError>,
    r: Result<GodotVersionDeterminate, GdvmError>,
) -> bool {
    is_decided(source, request, answers, before, after, decision) && is_outcome(
        source,
        decision,
        r,
    )
}

impl<'a, S: RunVersionSource> RunVersionResolver<'a, S> {
    /// A resolver over the given source.
    pub fn new(source: &'a S) -> (r: Self)
        ensures
            r.source == source,
    {
        RunVersionResolver { source }
    }

    /// The version that the project asks for, near the paths or the
    /// current directory.
    pub fn detect_project_version(&self, paths: &[String]) -> (r: Option<GodotVersion>)
        ensures
            is_detected(self.source, string_views(paths@), r),
    {
        detect_project_version(self.source, paths)
    }

    /// Decides what to run, asking the source step by step, and adds to
    /// `notices` what the user is to be told.
    ///
    /// The order and the rules are those of `decide_run_version`. What the
    /// source answers is not known beforehand. The outcome is stated over
    /// its answers: the source gave some answers to the questions asked,
    /// and the decision and the new notices are what the request and those
    /// answers call for (`is_decided`). Whatever the answers:
    /// - A version given on the command line is what is installed, with
    ///   the variant flag of the command line, unless the project stands
    ///   against it and the run is not forced.
    /// - A forced run of a version given on the command line is never
    ///   refused.
    /// - The default is used only where no version was given, and it takes
    ///   the variant flag of the command line where one was given.
    /// - Notices already given stay, and each new notice is one that is
    ///   due.
    pub fn resolve_decision(&self, request: &RunResolutionRequest<'_>, notices: &mut Vec<RunNotice>)
        -> (r: Result<RunDecision, GdvmError>)
        ensures
            old(notices)@.is_prefix_of(final(notices)@),
            final(notices)@.len() <= old(notices)@.len() + 1,
            forall|i: int|
                old(notices)@.len() <= i < final(notices)@.len() ==> notice_is_due(
                    #[trigger] final(notices)@[i],
                    request.explicit is Some,
                ),
            request.explicit is Some ==> match r {
                Ok(decision) => decision is Install && decision->Install_0@ == explicit_request(
                    request.explicit->0@,
                    request.csharp_flag,
                ),
                Err(e) => e == (GdvmError::ProjectVersionMismatch { pinned: false })
                    && !request.force_on_mismatch && final(notices)@.len() == old(notices)@.len()
                    + 1,
            },
            r is Ok && r->Ok_0 is Use ==> request.explicit is None && (request.csharp_given
                ==> r->Ok_0->Use_0@.is_csharp == Some(request.csharp_flag)),
            exists|answers: RunAnswers| #[trigger]
                is_decided(self.source, *request, answers, old(notices)@, final(notices)@, r),
    {
        let ghost before = notices@;
        match &request.explicit {
            Some(explicit) => {
                let mut requested = explicit.clone();
                requested.is_csharp = Some(request.csharp_flag);
                let warning = warn_project_version_mismatch(
                    self.source,
                    &requested,
                    false,
                    Some(request.possible_paths),
                );
                let ghost determined = choose|d: Option<GodotVersion>|
                    is_warning_for(
                        self.source,
                        path_texts(Some(request.possible_paths)),
                        d,
                        requested@,
                        false,
                        warning,
                    );
                let ghost answers = RunAnswers {
                    pinned: None,
                    project_near_paths: determined,
                    default: Ok(None),
                };
                match warning {
                    Some(warning) => {
                        notices.push(RunNotice::ProjectVersionMismatch(warning));
                        assert(notices@.drop_last() =~= before);
                        if !request.force_on_mismatch {
                            let refused = Err(GdvmError::ProjectVersionMismatch { pinned: false });
                            assert(is_decided(
                                self.source,
                                *request,
                                answers,
                                before,
                                notices@,
                                refused,
                            ));
                            return refused;
                        }
                    },
                    None => {},
                }
                let decision = Ok(RunDecision::Install(requested));
                assert(is_decided(self.source, *request, answers, before, notices@, decision));
                return decision;
            },
            None => {},
        }
        let pinned_answer = self.source.get_pinned_version();
        let ghost pinned_given = pinned_answer;
        match pinned_answer {
            Some(pinned) => {
                let warning = warn_project_version_mismatch(
                    self.source,
                    &pinned,
                    true,
                    Some(request.possible_paths),
                );
                let ghost determined = choose|d: Option<GodotVersion>|
                    is_warning_for(
                        self.source,
                        path_texts(Some(request.possible_paths)),
                        d,
                        pinned@,
                        true,
                        warning,
                    );
                let ghost answers = RunAnswers {
                    pinned: pinned_given,
                    project_near_paths: determined,
                    default: Ok(None),
                };
                match warning {
                    Some(warning) => {
                        notices.push(RunNotice::ProjectVersionMismatch(warning));
                        assert(notices@.drop_last() =~= before);
                        if !request.force_on_mismatch {
                            let refused = Err(GdvmError::ProjectVersionMismatch { pinned: true });
                            assert(is_decided(
                                self.source,
                                *request,
                                answers,
                                before,
                                notices@,
                                refused,
                            ));
                            return refused;
                        }
                    },
                    None => {},
                }
                let decision = Ok(RunDecision::Install(pinned));
                assert(is_decided(self.source, *request, answers, before, notices@, decision));
                return decision;
            },
            None => {},
        }
        let project_answer = self.detect_project_version(request.possible_paths);
        let ghost project_given = project_answer;
        match project_answer {
            Some(project_version) => {
                notices.push(RunNotice::UsingProjectVersion(project_version.clone()));
                assert(notices@.drop_last() =~= before);
                let ghost answers = RunAnswers {
                    pinned: None,
                    project_near_paths: project_given,
                    default: Ok(None),
                };
                let decision = Ok(RunDecision::Install(project_version));
                assert(is_decided(self.source, *request, answers, before, notices@, decision));
                return decision;
            },
            None => {},
        }
        let default_answer = self.source.get_default();
        let ghost answers = RunAnswers {
            pinned: None,
            project_near_paths: None,
            default: default_answer,
        };
        let decision = match default_answer {
            Err(e) => Err(e),
            Ok(Some(default)) => Ok(
                RunDecision::Use(
                    default_with_flag(default, request.csharp_given, request.csharp_flag),
                ),
            ),
            Ok(None) => Err(GdvmError::NoDefault),
        };
        assert(is_decided(self.source, *request, answers, before, notices@, decision));
        decision
    }

    /// Resolves the version for a run: decides as `resolve_decision` says,
    /// and has the source resolve and install what is to be installed.
    ///
    /// What the source answers is not known beforehand. The result is
    /// stated over its answers: the resolution went by some answers of the
    /// source to a decision, with the notices that go with it, and the
    /// result is the failure of that decision, the version that it says to
    /// use, or what the source made of the request that it says to
    /// install.
    pub fn resolve(&self, request: RunResolutionRequest<'_>, notices: &mut Vec<RunNotice>) -> (r:
        Result<GodotVersionDeterminate, GdvmError>)
        ensures
            old(notices)@.is_prefix_of(final(notices)@),
            final(notices)@.len() <= old(notices)@.len() + 1,
            forall|i: int|
                old(notices)@.len() <= i < final(notices)@.len() ==> notice_is_due(
                    #[trigger] final(notices)@[i],
                    request.explicit is Some,
                ),
            exists|answers: RunAnswers, decision: Result<RunDecision, GdvmError>| #[trigger]
                is_resolution(
                    self.source,
                    request,
                    answers,
                    old(notices)@,
                    final(notices)@,
                    decision,
                    r,
                ),
    {
        let ghost before = notices@;
        let decision = self.resolve_decision(&request, notices);
        let ghost decided = decision;
        let ghost answers = choose|answers: RunAnswers|
            is_decided(self.source, request, answers, before, notices@, decided);
        let result = match decision {
            Err(e) => Err(e),
            Ok(RunDecision::Use(version)) => Ok(version),
            Ok(RunDecision::Install(requested)) => self.source.auto_install_version(&requested),
        };
        assert(is_resolution(self.source, request, answers, before, notices@, decided, result));
        result
    }
}

} // verus!
