//! Updating the tool itself: which published release is the newest that
//! fits, whether it is newer than the running tool, and what to fetch.

use vstd::prelude::*;
use vstd::slice::slice_subrange;
use crate::checksum::{has_declared_hash, sha_type_spec, verify_sha};
use crate::error::GdvmError;
use crate::host::{target_triple_spec, HostOs, HostPlatform};
use crate::metadata_cache::GdvmCache;
use crate::releases::{cache_is_stale, is_stale};
use crate::text::{
    chars_of, decimal, has_prefix, push_decimal, push_str, starts_with, str_eq, string_of,
};

verus! {

/// Where the tool's releases are listed.
pub const RELEASES_API_URL: &'static str =
    "https://api.github.com/repos/adalinesimonian/gdvm/releases";

/// Where the tool's releases are downloaded from.
pub const REPOSITORY_URL: &'static str = "https://github.com/adalinesimonian/gdvm";

/// One file of a published release.
#[derive(Debug)]
pub struct ReleaseAsset {
    pub name: Option<String>,
    /// The digest of the file, with the name of its hash function and a
    /// colon before it.
    pub digest: Option<String>,
}

/// One published release of the tool.
#[derive(Debug)]
pub struct GithubRelease {
    pub tag_name: Option<String>,
    pub draft: bool,
    pub prerelease: bool,
    pub assets: Vec<ReleaseAsset>,
}

/// A semantic version, taken apart.
#[derive(Debug)]
pub struct ToolVersion {
    pub major: u64,
    pub minor: u64,
    pub patch: u64,
    pub pre: String,
    pub build: String,
}

/// What the user is to be told about updates.
#[derive(Debug)]
pub enum UpdateNotice {
    /// Nothing.
    Nothing,
    /// A newer release of the running major version.
    Minor(String),
    /// A newer release of a later major version only.
    Major(String),
    /// A newer release of the running major version, and another of a
    /// later one.
    Both { minor: String, major: String },
}

/// What a check for updates gave.
#[derive(Debug)]
pub struct UpdateCheck {
    pub notice: UpdateNotice,
    /// What to remember from now on, where that changes.
    pub save: Option<GdvmCache>,
    /// Why the check failed, where it did.
    pub failure: Option<GdvmError>,
}

/// What an upgrade has to do.
#[derive(Debug)]
pub enum UpgradePlan {
    /// Nothing: the running tool is the newest release.
    NotNeeded { version: String },
    /// Nothing: the running tool is newer than the newest release.
    CurrentIsNewer { latest: String },
    /// Download the file `asset_name` of the release `tag` from `url`,
    /// check it against `digest` where one is published, and put it in
    /// place of the running tool.
    Upgrade { tag: String, asset_name: String, url: String, digest: Option<String> },
}

/// The parts of a semantic version as `semver::Version::parse` reads
/// them: major, minor and patch number, pre-release and build metadata.
/// Nothing where the text is no semantic version.
pub uninterp spec fn semver_parts(text: Seq<char>) -> Option<(u64, u64, u64, Seq<char>, Seq<char>)>;

/// `semver::VersionReq::parse` accepts the text as a requirement.
pub uninterp spec fn semver_requirement_valid(req: Seq<char>) -> bool;

/// The text `req` is a requirement, the text `version` a semantic
/// version, and `semver::VersionReq::matches` says that the requirement
/// admits the version.
pub uninterp spec fn semver_admits(req: Seq<char>, version: Seq<char>) -> bool;

/// Both texts are semantic versions and the first is less than the
/// second in the order of `semver::Version`.
pub uninterp spec fn semver_precedes(a: Seq<char>, b: Seq<char>) -> bool;

/// The three numbers `a` come before the three numbers `b`: compared
/// from left to right, the first that differs is smaller.
pub open spec fn numbers_less(a: (u64, u64, u64), b: (u64, u64, u64)) -> bool {
    if a.0 != b.0 {
        a.0 < b.0
    } else if a.1 != b.1 {
        a.1 < b.1
    } else {
        a.2 < b.2
    }
}

/// The three numbers of a semantic version.
pub open spec fn numbers_of(text: Seq<char>) -> (u64, u64, u64) {
    let parts = semver_parts(text).unwrap();
    (parts.0, parts.1, parts.2)
}

/// The pre-release part of a semantic version; empty for a release
/// proper.
pub open spec fn pre_release_of(text: Seq<char>) -> Seq<char> {
    let parts = semver_parts(text).unwrap();
    parts.3
}

impl ToolVersion {
    /// The version has the given parts.
    pub open spec fn has_parts(self, parts: (u64, u64, u64, Seq<char>, Seq<char>)) -> bool {
        &&& self.major == parts.0
        &&& self.minor == parts.1
        &&& self.patch == parts.2
        &&& self.pre@ == parts.3
        &&& self.build@ == parts.4
    }
}

/// `semver::Version::parse`, with the version taken apart: what it gives
/// depends on the text alone.
#[verifier::external_body]
pub(crate) fn parse_semver(text: &str) -> (r: Option<ToolVersion>)
    ensures
        match semver_parts(text@) {
            Some(parts) => r is Some && r->0.has_parts(parts),
            None => r is None,
        },
{
    match semver::Version::parse(text) {
        Ok(v) => Some(
            ToolVersion {
                major: v.major,
                minor: v.minor,
                patch: v.patch,
                pre: v.pre.as_str().to_string(),
                build: v.build.as_str().to_string(),
            },
        ),
        Err(_) => None,
    }
}

/// `semver::VersionReq::parse`: whether the text is a requirement.
#[verifier::external_body]
fn requirement_is_valid(req: &str) -> (r: bool)
    ensures
        r == semver_requirement_valid(req@),
{
    semver::VersionReq::parse(req).is_ok()
}

/// `semver::VersionReq::matches` on the parsed texts; false where either
/// does not parse.
#[verifier::external_body]
fn requirement_admits(req: &str, version: &str) -> (r: bool)
    ensures
        r == semver_admits(req@, version@),
{
    match (semver::VersionReq::parse(req), semver::Version::parse(version)) {
        (Ok(requirement), Ok(v)) => requirement.matches(&v),
        _ => false,
    }
}

/// The order of `semver::Version` on the parsed texts; false where
/// either does not parse. As the crate documents, the three numbers
/// decide where they differ, and with equal numbers a pre-release comes
/// before the release proper.
#[verifier::external_body]
fn version_precedes(a: &str, b: &str) -> (r: bool)
    ensures
        r == semver_precedes(a@, b@),
        semver_parts(a@) is None || semver_parts(b@) is None ==> !r,
        semver_parts(a@) is Some && semver_parts(b@) is Some && numbers_less(
            numbers_of(a@),
            numbers_of(b@),
        ) ==> r,
        semver_parts(a@) is Some && semver_parts(b@) is Some && numbers_less(
            numbers_of(b@),
            numbers_of(a@),
        ) ==> !r,
        semver_parts(a@) is Some && semver_parts(b@) is Some && numbers_of(a@) == numbers_of(b@)
            && pre_release_of(a@).len() > 0 && pre_release_of(b@).len() == 0 ==> r,
        semver_parts(a@) is Some && semver_parts(b@) is Some && numbers_of(a@) == numbers_of(b@)
            && pre_release_of(a@).len() == 0 && pre_release_of(b@).len() > 0 ==> !r,
{
    match (semver::Version::parse(a), semver::Version::parse(b)) {
        (Ok(x), Ok(y)) => x < y,
        _ => false,
    }
}

/// A tag without its leading `v`s.
pub open spec fn strip_v(tag: Seq<char>) -> Seq<char>
    decreases tag.len(),
{
    if tag.len() > 0 && tag[0] == 'v' {
        strip_v(tag.drop_first())
    } else {
        tag
    }
}

/// A release that does not count: a draft or a pre-release.
pub open spec fn is_passed_over(release: GithubRelease) -> bool {
    release.draft || release.prerelease
}

/// The version that a release's tag names.
pub open spec fn version_text(release: GithubRelease) -> Seq<char> {
    strip_v(release.tag_name->0@)
}

/// A release that can be chosen: published, tagged with a semantic
/// version that is no pre-release, and admitted by the requirement.
pub open spec fn is_candidate(release: GithubRelease, req: Seq<char>) -> bool {
    &&& !is_passed_over(release)
    &&& release.tag_name is Some
    &&& semver_parts(version_text(release)) is Some
    &&& pre_release_of(version_text(release)).len() == 0
    &&& semver_admits(req, version_text(release))
}

/// The candidate chosen among the first `n` releases: going through them
/// in order, a candidate replaces the one held exactly where the held
/// one precedes it. So among candidates of equal rank the first stays.
pub open spec fn best_candidate(releases: Seq<GithubRelease>, req: Seq<char>, n: int) -> Option<
    int,
>
    decreases n,
{
    if n <= 0 {
        None
    } else {
        let held = best_candidate(releases, req, n - 1);
        if !is_candidate(releases[n - 1], req) {
            held
        } else if held is None {
            Some(n - 1)
        } else if semver_precedes(
            version_text(releases[held->0]),
            version_text(releases[n - 1]),
        ) {
            Some(n - 1)
        } else {
            held
        }
    }
}

/// A published release carries no tag.
pub open spec fn has_untagged(releases: Seq<GithubRelease>) -> bool {
    exists|i: int|
        0 <= i < releases.len() && !is_passed_over(#[trigger] releases[i])
            && releases[i].tag_name is None
}

/// The characters of a tag without its leading `v`s.
pub fn strip_leading_v(tag: &str) -> (r: String)
    ensures
        r@ == strip_v(tag@),
{
    let chars = chars_of(tag);
    let s = chars.as_slice();
    let mut i: usize = 0;
    assert(s@.skip(0) == s@);
    while i < s.len() && s[i] == 'v'
        invariant
            i <= s.len(),
            strip_v(s@) == strip_v(s@.skip(i as int)),
        decreases s.len() - i,
    {
        assert(s@.skip(i as int).drop_first() == s@.skip(i + 1));
        i = i + 1;
    }
    assert(s@.skip(i as int) == s@.subrange(i as int, s@.len() as int));
    string_of(slice_subrange(s, i, s.len()))
}

/// Whether a release can be chosen under the requirement; an error where
/// it is published without a tag.
fn candidate_version(release: &GithubRelease, req: &str) -> (r: Result<Option<String>, GdvmError>)
    ensures
        match r {
            Ok(Some(text)) => is_candidate(*release, req@) && text@ == version_text(*release),
            Ok(None) => !is_candidate(*release, req@) && (is_passed_over(*release)
                || release.tag_name is Some),
            Err(e) => e is MissingTagName && !is_passed_over(*release) && release.tag_name is None,
        },
{
    if release.draft || release.prerelease {
        return Ok(None);
    }
    match &release.tag_name {
        None => Err(GdvmError::MissingTagName),
        Some(tag) => {
            let text = strip_leading_v(tag.as_str());
            match parse_semver(text.as_str()) {
                Some(version) => {
                    if version.pre.as_str().is_empty() && requirement_admits(req, text.as_str()) {
                        Ok(Some(text))
                    } else {
                        Ok(None)
                    }
                },
                None => Ok(None),
            }
        },
    }
}

/// The tag of the newest published release that the requirement admits.
///
/// Drafts and pre-releases are passed over, and so are tags that are no
/// semantic version or name a pre-release version. Of the releases that
/// remain, none has higher numbers than the one chosen; among releases of
/// equal rank the first in the list is chosen. A requirement that does
/// not parse is refused, and so is a list with a published release that
/// has no tag.
pub fn find_latest_stable_release(releases: &Vec<GithubRelease>, version_req: &str) -> (r: Result<
    Option<String>,
    GdvmError,
>)
    ensures
        !semver_requirement_valid(version_req@) ==> r is Err && r->Err_0 is InvalidRequirement,
        semver_requirement_valid(version_req@) && has_untagged(releases@) ==> r is Err
            && r->Err_0 is MissingTagName,
        semver_requirement_valid(version_req@) && !has_untagged(releases@) ==> r is Ok && ({
            let best = best_candidate(releases@, version_req@, releases@.len() as int);
            match r->Ok_0 {
                None => best is None && forall|j: int|
                    0 <= j < releases@.len() ==> !is_candidate(#[trigger] releases@[j], version_req@),
                Some(tag) => best is Some && 0 <= best->0 < releases@.len() && is_candidate(
                    releases@[best->0],
                    version_req@,
                ) && tag@ == releases@[best->0].tag_name->0@ && forall|j: int|
                    0 <= j < releases@.len() && is_candidate(#[trigger] releases@[j], version_req@)
                        ==> !numbers_less(
                        numbers_of(version_text(releases@[best->0])),
                        numbers_of(version_text(releases@[j])),
                    ),
            }
        }),
{
    if !requirement_is_valid(version_req) {
        return Err(GdvmError::InvalidRequirement);
    }
    let mut best: Option<usize> = None;
    let mut best_text: String = String::new();
    let mut i: usize = 0;
    while i < releases.len()
        invariant
            i <= releases.len(),
            semver_requirement_valid(version_req@),
            forall|j: int|
                0 <= j < i ==> is_passed_over(#[trigger] releases@[j]) || releases@[j].tag_name
                    is Some,
            match best {
                None => best_candidate(releases@, version_req@, i as int) is None,
                Some(k) => k < i && best_candidate(releases@, version_req@, i as int) == Some(
                    k as int,
                ) && is_candidate(releases@[k as int], version_req@) && best_text@
                    == version_text(releases@[k as int]),
            },
            best is None ==> forall|j: int|
                0 <= j < i ==> !is_candidate(#[trigger] releases@[j], version_req@),
            best is Some ==> forall|j: int|
                0 <= j < i && is_candidate(#[trigger] releases@[j], version_req@) ==> !numbers_less(
                    numbers_of(version_text(releases@[best->0 as int])),
                    numbers_of(version_text(releases@[j])),
                ),
        decreases releases.len() - i,
    {
        match candidate_version(&releases[i], version_req) {
            Err(e) => {
                assert(has_untagged(releases@));
                return Err(e);
            },
            Ok(None) => {},
            Ok(Some(text)) => {
                let replace = match best {
                    None => true,
                    Some(_) => version_precedes(best_text.as_str(), text.as_str()),
                };
                if replace {
                    best = Some(i);
                    best_text = text;
                }
            },
        }
        i = i + 1;
    }
    proof {
        if has_untagged(releases@) {
            let j = choose|j: int|
                0 <= j < releases@.len() && !is_passed_over(#[trigger] releases@[j])
                    && releases@[j].tag_name is None;
            assert(is_passed_over(releases@[j]) || releases@[j].tag_name is Some);
        }
    }
    match best {
        None => Ok(None),
        Some(k) => match &releases[k].tag_name {
            Some(tag) => Ok(Some(tag.clone())),
            None => Ok(None),
        },
    }
}

/// The tag that `find_latest_stable_release` chooses, if it chooses one.
pub open spec fn latest_tag(releases: Seq<GithubRelease>, req: Seq<char>) -> Option<Seq<char>> {
    match best_candidate(releases, req, releases.len() as int) {
        Some(k) => Some(releases[k].tag_name->0@),
        None => None,
    }
}

/// Choosing a release under the requirement fails.
pub open spec fn selection_fails(releases: Seq<GithubRelease>, req: Seq<char>) -> bool {
    !semver_requirement_valid(req) || has_untagged(releases)
}

/// `e` is the failure of choosing a release under the requirement: an
/// invalid requirement, else a published release without a tag.
pub open spec fn is_selection_failure(e: GdvmError, req: Seq<char>) -> bool {
    if semver_requirement_valid(req) {
        e is MissingTagName
    } else {
        e is InvalidRequirement
    }
}

/// The release tagged `tag` is newer than the version `current`.
pub open spec fn is_newer(tag: Seq<char>, current: Seq<char>) -> bool {
    semver_precedes(current, strip_v(tag))
}

/// The tag, where there is one and it is newer than `current`.
pub open spec fn if_newer(tag: Option<Seq<char>>, current: Seq<char>) -> Option<Seq<char>> {
    if tag is Some && is_newer(tag->0, current) {
        tag
    } else {
        None
    }
}

/// The requirement that admits every version of the major version
/// `major`: a caret and the number.
pub open spec fn caret_of(major: u64) -> Seq<char> {
    seq!['^'] + decimal(major as nat)
}

/// The text of an optional string.
pub open spec fn text_of(s: Option<String>) -> Option<Seq<char>> {
    match s {
        Some(t) => Some(t@),
        None => None,
    }
}

/// The notice names exactly these tags: both where both are given, one
/// where one is, none where none is.
pub open spec fn notice_names(notice: UpdateNotice, minor: Option<Seq<char>>, major: Option<
    Seq<char>,
>) -> bool {
    match notice {
        UpdateNotice::Nothing => minor is None && major is None,
        UpdateNotice::Minor(m) => minor == Some(m@) && major is None,
        UpdateNotice::Major(m) => minor is None && major == Some(m@),
        UpdateNotice::Both { minor: a, major: b } => minor == Some(a@) && major == Some(b@),
    }
}

/// The cache remembers exactly this.
pub open spec fn remembers(cache: GdvmCache, now: u64, minor: Option<Seq<char>>, major: Option<
    Seq<char>,
>) -> bool {
    &&& cache.last_update_check == now
    &&& text_of(cache.new_version) == minor
    &&& text_of(cache.new_major_version) == major
}

/// The tag `major`, unless it is the tag `minor`.
pub open spec fn unless_same(major: Option<Seq<char>>, minor: Option<Seq<char>>) -> Option<
    Seq<char>,
> {
    if major == minor {
        None
    } else {
        major
    }
}

/// The outcome of a check for updates.
///
/// - While the last check is fresh, nothing is fetched. The remembered
///   tags that are still newer than the running version are announced.
///   Where something is remembered and none of it is newer any more, it
///   is forgotten.
/// - Once the last check is older than the time to live, `fetched` is
///   what listing the releases gave. A failure forgets what was
///   remembered and is handed on. From a list, the newest release of the
///   running major version and the newest of all are chosen; each is
///   announced and remembered if it is newer than the running version,
///   the newest of all only if it is another release than the first.
pub open spec fn is_update_check(
    r: UpdateCheck,
    cache: GdvmCache,
    now: u64,
    current: Seq<char>,
    fetched: Result<&Vec<GithubRelease>, GdvmError>,
) -> bool {
    if !is_stale(now, cache.last_update_check) {
        let minor = if_newer(text_of(cache.new_version), current);
        let major = if_newer(text_of(cache.new_major_version), current);
        let shown_major = if minor is Some && major is Some && strip_v(minor->0) == strip_v(
            major->0,
        ) {
            None
        } else {
            major
        };
        &&& r.failure is None
        &&& notice_names(r.notice, minor, shown_major)
        &&& if minor is None && major is None && (cache.new_version is Some
            || cache.new_major_version is Some) {
            r.save is Some && remembers(r.save->0, now, None, None)
        } else {
            r.save is None
        }
    } else {
        match fetched {
            Err(e) => r.failure == Some(e) && r.notice is Nothing && r.save is Some && remembers(
                r.save->0,
                now,
                None,
                None,
            ),
            Ok(releases) => if semver_parts(current) is None {
                r.failure is Some && r.failure->0 is InvalidVersionString && r.notice is Nothing
                    && r.save is None
            } else {
                let req = caret_of(numbers_of(current).0);
                if selection_fails(releases@, req) {
                    r.failure is Some && is_selection_failure(r.failure->0, req)
                        && r.notice is Nothing && r.save is None
                } else if selection_fails(releases@, "*"@) {
                    r.failure is Some && is_selection_failure(r.failure->0, "*"@)
                        && r.notice is Nothing && r.save is None
                } else {
                    let minor = if_newer(latest_tag(releases@, req), current);
                    let major = unless_same(if_newer(latest_tag(releases@, "*"@), current), minor);
                    &&& r.failure is None
                    &&& notice_names(r.notice, minor, major)
                    &&& r.save is Some
                    &&& remembers(r.save->0, now, minor, major)
                }
            },
        }
    }
}

/// Whether a check for updates has to list the releases: the last check
/// is older than the time to live.
pub fn update_check_due(cache: &GdvmCache, now: u64) -> (r: bool)
    ensures
        r == is_stale(now, cache.last_update_check),
{
    cache_is_stale(now, cache.last_update_check)
}

/// The requirement for the releases of one major version.
pub fn caret_requirement(major: u64) -> (r: String)
    ensures
        r@ == caret_of(major),
{
    let mut out: Vec<char> = Vec::new();
    out.push('^');
    push_decimal(&mut out, major);
    assert(seq!['^'] =~= Seq::<char>::empty().push('^'));
    string_of(out.as_slice())
}

/// The tag, where there is one and it is newer than the version
/// `current`.
fn keep_if_newer(tag: Option<&String>, current: &str) -> (r: Option<String>)
    ensures
        text_of(r) == if_newer(
            match tag {
                Some(t) => Some(t@),
                None => None,
            },
            current@,
        ),
{
    match tag {
        Some(t) => {
            let text = strip_leading_v(t.as_str());
            if version_precedes(current, text.as_str()) {
                Some(t.clone())
            } else {
                None
            }
        },
        None => None,
    }
}

/// The notice for the tags to announce.
fn notice_for(minor: Option<String>, major: Option<String>) -> (r: UpdateNotice)
    ensures
        notice_names(r, text_of(minor), text_of(major)),
{
    match (minor, major) {
        (Some(a), Some(b)) => UpdateNotice::Both { minor: a, major: b },
        (Some(a), None) => UpdateNotice::Minor(a),
        (None, Some(b)) => UpdateNotice::Major(b),
        (None, None) => UpdateNotice::Nothing,
    }
}

/// A copy of an optional string.
fn copy_of(s: &Option<String>) -> (r: Option<String>)
    ensures
        text_of(r) == text_of(*s),
{
    match s {
        Some(t) => Some(t.clone()),
        None => None,
    }
}

/// Checks for updates of the tool: see `is_update_check`.
pub fn check_for_upgrades(
    cache: &GdvmCache,
    now: u64,
    current_version: &str,
    fetched: Result<&Vec<GithubRelease>, GdvmError>,
) -> (r: UpdateCheck)
    ensures
        is_update_check(r, *cache, now, current_version@, fetched),
{
    let forgotten = GdvmCache { last_update_check: now, new_version: None, new_major_version: None };
    if !update_check_due(cache, now) {
        let minor = keep_if_newer(cache.new_version.as_ref(), current_version);
        let major = keep_if_newer(cache.new_major_version.as_ref(), current_version);
        let save = if minor.is_none() && major.is_none() && (cache.new_version.is_some()
            || cache.new_major_version.is_some()) {
            Some(forgotten)
        } else {
            None
        };
        let same = match (&minor, &major) {
            (Some(a), Some(b)) => str_eq(
                strip_leading_v(a.as_str()).as_str(),
                strip_leading_v(b.as_str()).as_str(),
            ),
            _ => false,
        };
        let shown_major = if same {
            None
        } else {
            major
        };
        return UpdateCheck { notice: notice_for(minor, shown_major), save, failure: None };
    }
    let releases = match fetched {
        Ok(releases) => releases,
        Err(e) => {
            return UpdateCheck {
                notice: UpdateNotice::Nothing,
                save: Some(forgotten),
                failure: Some(e),
            };
        },
    };
    let current = match parse_semver(current_version) {
        Some(v) => v,
        None => {
            return UpdateCheck {
                notice: UpdateNotice::Nothing,
                save: None,
                failure: Some(GdvmError::InvalidVersionString),
            };
        },
    };
    let requirement = caret_requirement(current.major);
    let within = match find_latest_stable_release(releases, requirement.as_str()) {
        Ok(tag) => tag,
        Err(e) => {
            return UpdateCheck { notice: UpdateNotice::Nothing, save: None, failure: Some(e) };
        },
    };
    let overall = match find_latest_stable_release(releases, "*") {
        Ok(tag) => tag,
        Err(e) => {
            return UpdateCheck { notice: UpdateNotice::Nothing, save: None, failure: Some(e) };
        },
    };
    let minor = keep_if_newer(within.as_ref(), current_version);
    let newest = keep_if_newer(overall.as_ref(), current_version);
    let same = match (&minor, &newest) {
        (Some(a), Some(b)) => str_eq(a.as_str(), b.as_str()),
        (None, None) => true,
        _ => false,
    };
    let major = if same {
        None
    } else {
        newest
    };
    let save = GdvmCache {
        last_update_check: now,
        new_version: copy_of(&minor),
        new_major_version: copy_of(&major),
    };
    UpdateCheck { notice: notice_for(minor, major), save: Some(save), failure: None }
}

/// The name of the file of a release that holds the tool for a
/// distribution triple: `gdvm-<triple>`, with `.exe` on Windows.
pub open spec fn asset_name_spec(triple: Seq<char>, os: HostOs) -> Seq<char> {
    if os == HostOs::Windows {
        "gdvm-"@ + triple + ".exe"@
    } else {
        "gdvm-"@ + triple
    }
}

/// Where the file `asset` of the release `tag` is downloaded from.
pub open spec fn asset_url_spec(tag: Seq<char>, asset: Seq<char>) -> Seq<char> {
    REPOSITORY_URL@ + "/releases/download/"@ + tag + seq!['/'] + asset
}

/// The SHA-256 digest that an asset publishes for the file `name`, if it
/// is that file and publishes one.
pub open spec fn published_digest(asset: ReleaseAsset, name: Seq<char>) -> Option<Seq<char>> {
    if asset.name is Some && asset.name->0@ == name && asset.digest is Some && has_prefix(
        asset.digest->0@,
        "sha256:"@,
    ) {
        Some(asset.digest->0@.skip("sha256:"@.len() as int))
    } else {
        None
    }
}

/// The first digest that the assets publish for the file `name`.
pub open spec fn first_digest(assets: Seq<ReleaseAsset>, name: Seq<char>) -> Option<Seq<char>>
    decreases assets.len(),
{
    if assets.len() == 0 {
        None
    } else if published_digest(assets[0], name) is Some {
        published_digest(assets[0], name)
    } else {
        first_digest(assets.drop_first(), name)
    }
}

/// The digest published for the file `name` of the release `tag`: that
/// of the first release with this tag, if it publishes one.
pub open spec fn digest_for(releases: Seq<GithubRelease>, tag: Seq<char>, name: Seq<char>)
    -> Option<Seq<char>>
    decreases releases.len(),
{
    if releases.len() == 0 {
        None
    } else if releases[0].tag_name is Some && releases[0].tag_name->0@ == tag {
        first_digest(releases[0].assets@, name)
    } else {
        digest_for(releases.drop_first(), tag, name)
    }
}

/// The requirement of an upgrade: any version where a later major
/// version is allowed, else the versions of the running major version.
pub open spec fn upgrade_requirement(current: Seq<char>, allow_major: bool) -> Seq<char> {
    if allow_major {
        "*"@
    } else {
        caret_of(numbers_of(current).0)
    }
}

/// The plan of an upgrade.
///
/// The newest release that the requirement admits is compared with the
/// running version. Only a newer release is installed: the file for the
/// host's distribution triple is downloaded from the release, and
/// checked against the digest that the release publishes for it, if it
/// publishes one. There must be a release to choose, and the tool must be
/// distributed for the host.
pub open spec fn is_upgrade_plan(
    r: Result<UpgradePlan, GdvmError>,
    releases: Seq<GithubRelease>,
    current: Seq<char>,
    allow_major: bool,
    host: HostPlatform,
) -> bool {
    if semver_parts(current) is None {
        r is Err && r->Err_0 is InvalidVersionString
    } else {
        let req = upgrade_requirement(current, allow_major);
        if selection_fails(releases, req) {
            r is Err && is_selection_failure(r->Err_0, req)
        } else {
            match latest_tag(releases, req) {
                None => r is Err && r->Err_0 is NoStableRelease,
                Some(tag) => if semver_precedes(current, strip_v(tag)) {
                    match target_triple_spec(host) {
                        None => r is Err && r->Err_0 is UnsupportedArch,
                        Some(triple) => {
                            let name = asset_name_spec(triple, host.os);
                            &&& r is Ok
                            &&& r->Ok_0 is Upgrade
                            &&& r->Ok_0->tag@ == tag
                            &&& r->Ok_0->asset_name@ == name
                            &&& r->Ok_0->url@ == asset_url_spec(tag, name)
                            &&& text_of(r->Ok_0->digest) == digest_for(releases, tag, name)
                        },
                    }
                } else if semver_precedes(strip_v(tag), current) {
                    r is Ok && r->Ok_0 is CurrentIsNewer && r->Ok_0->latest@ == tag
                } else {
                    r is Ok && r->Ok_0 is NotNeeded && r->Ok_0->version@ == tag
                },
            }
        }
    }
}

/// The first SHA-256 digest that the assets publish for the file `name`.
fn find_asset_digest(assets: &Vec<ReleaseAsset>, name: &str) -> (r: Option<String>)
    ensures
        text_of(r) == first_digest(assets@, name@),
{
    let marker = chars_of("sha256:");
    proof {
        reveal_strlit("sha256:");
    }
    let mut i: usize = 0;
    assert(assets@.skip(0) == assets@);
    while i < assets.len()
        invariant
            i <= assets.len(),
            marker@ == "sha256:"@,
            marker@.len() == 7,
            first_digest(assets@, name@) == first_digest(assets@.skip(i as int), name@),
        decreases assets.len() - i,
    {
        let asset = &assets[i];
        assert(assets@.skip(i as int)[0] == *asset);
        assert(assets@.skip(i as int).drop_first() == assets@.skip(i + 1));
        let named = match &asset.name {
            Some(n) => str_eq(n.as_str(), name),
            None => false,
        };
        if named {
            match &asset.digest {
                Some(d) => {
                    let chars = chars_of(d.as_str());
                    if starts_with(chars.as_slice(), marker.as_slice()) {
                        assert(chars@.skip(7) == chars@.subrange(7, chars@.len() as int));
                        return Some(string_of(slice_subrange(chars.as_slice(), 7, chars.len())));
                    }
                },
                None => {},
            }
        }
        i = i + 1;
    }
    None
}

/// The digest published for the file `name` of the release `tag`.
pub fn find_digest(releases: &Vec<GithubRelease>, tag: &str, name: &str) -> (r: Option<String>)
    ensures
        text_of(r) == digest_for(releases@, tag@, name@),
{
    let mut i: usize = 0;
    assert(releases@.skip(0) == releases@);
    while i < releases.len()
        invariant
            i <= releases.len(),
            digest_for(releases@, tag@, name@) == digest_for(releases@.skip(i as int), tag@, name@),
        decreases releases.len() - i,
    {
        let release = &releases[i];
        assert(releases@.skip(i as int)[0] == *release);
        assert(releases@.skip(i as int).drop_first() == releases@.skip(i + 1));
        let tagged = match &release.tag_name {
            Some(t) => str_eq(t.as_str(), tag),
            None => false,
        };
        if tagged {
            return find_asset_digest(&release.assets, name);
        }
        i = i + 1;
    }
    None
}

/// The name of the file that holds the tool for a distribution triple.
pub fn asset_name(triple: &str, os: HostOs) -> (r: String)
    ensures
        r@ == asset_name_spec(triple@, os),
{
    let mut out = chars_of("gdvm-");
    push_str(&mut out, triple);
    match os {
        HostOs::Windows => {
            push_str(&mut out, ".exe");
        },
        _ => {},
    }
    string_of(out.as_slice())
}

/// Where the file `asset` of the release `tag` is downloaded from.
pub fn asset_url(tag: &str, asset: &str) -> (r: String)
    ensures
        r@ == asset_url_spec(tag@, asset@),
{
    let mut out = chars_of(REPOSITORY_URL);
    push_str(&mut out, "/releases/download/");
    push_str(&mut out, tag);
    out.push('/');
    push_str(&mut out, asset);
    string_of(out.as_slice())
}

/// Plans an upgrade of the tool from the list of its releases: see
/// `is_upgrade_plan`.
pub fn plan_upgrade(
    releases: &Vec<GithubRelease>,
    current_version: &str,
    allow_major: bool,
    host: HostPlatform,
) -> (r: Result<UpgradePlan, GdvmError>)
    ensures
        is_upgrade_plan(r, releases@, current_version@, allow_major, host),
{
    let current = match parse_semver(current_version) {
        Some(v) => v,
        None => {
            return Err(GdvmError::InvalidVersionString);
        },
    };
    let requirement = if allow_major {
        "*".to_string()
    } else {
        caret_requirement(current.major)
    };
    let tag = match find_latest_stable_release(releases, requirement.as_str()) {
        Err(e) => {
            return Err(e);
        },
        Ok(None) => {
            return Err(GdvmError::NoStableRelease);
        },
        Ok(Some(tag)) => tag,
    };
    let latest = strip_leading_v(tag.as_str());
    if version_precedes(current_version, latest.as_str()) {
        let triple = match host.gdvm_target_triple() {
            Ok(t) => t,
            Err(e) => {
                return Err(GdvmError::UnsupportedArch);
            },
        };
        let name = asset_name(triple, host.os);
        let url = asset_url(tag.as_str(), name.as_str());
        let digest = find_digest(releases, tag.as_str(), name.as_str());
        Ok(UpgradePlan::Upgrade { tag, asset_name: name, url, digest })
    } else if version_precedes(latest.as_str(), current_version) {
        Ok(UpgradePlan::CurrentIsNewer { latest: tag })
    } else {
        Ok(UpgradePlan::NotNeeded { version: tag })
    }
}

/// Checks a downloaded upgrade against the digest published for it.
/// Without a published digest nothing can be checked, and the download is
/// taken as it is, unverified.
pub fn verify_upgrade(data: &[u8], digest: Option<&str>) -> (r: Result<bool, GdvmError>)
    ensures
        match digest {
            None => r == Ok::<bool, GdvmError>(false),
            Some(d) => if has_declared_hash(data@, d@) {
                r == Ok::<bool, GdvmError>(true)
            } else if sha_type_spec(d@) is None {
                r is Err && r->Err_0 is InvalidHashLength
            } else {
                r is Err && r->Err_0 is ChecksumMismatch
            },
        },
{
    match digest {
        None => Ok(false),
        Some(d) => match verify_sha(data, d) {
            Ok(()) => Ok(true),
            Err(e) => Err(e),
        },
    }
}

/// Where the running tool is kept while it is replaced: its path
/// followed by `.bak`.
pub fn backup_path(exe: &str) -> (r: String)
    ensures
        r@ == exe@ + ".bak"@,
{
    let mut out = chars_of(exe);
    push_str(&mut out, ".bak");
    string_of(out.as_slice())
}

/// The failure that an answer of the release host other than status 200
/// stands for: a rate limit where the status is 403 and the message
/// starts with `API rate limit exceeded`, else an error of the host with
/// its message.
pub fn classify_github_error(status: u16, message: Option<&str>) -> (r: GdvmError)
    ensures
        if status == 403 && message is Some && has_prefix(message->0@, "API rate limit exceeded"@) {
            r is RateLimited
        } else {
            r is GithubApi && text_of(r->GithubApi_0) == match message {
                Some(m) => Some(m@),
                None => None,
            }
        },
{
    let limited = status == 403 && match message {
        Some(m) => starts_with(
            chars_of(m).as_slice(),
            chars_of("API rate limit exceeded").as_slice(),
        ),
        None => false,
    };
    if limited {
        GdvmError::RateLimited
    } else {
        GdvmError::GithubApi(
            match message {
                Some(m) => Some(m.to_string()),
                None => None,
            },
        )
    }
}

/// The token to present to the release host: the one of the environment,
/// else the configured one.
pub fn choose_token(from_environment: Option<String>, configured: Option<String>) -> (r: Option<
    String,
>)
    ensures
        r == if from_environment is Some {
            from_environment
        } else {
            configured
        },
{
    match from_environment {
        Some(t) => Some(t),
        None => configured,
    }
}

/// The value of the authorization header for a token: the word `token`,
/// a space, and the token.
pub fn authorization_value(token: &str) -> (r: String)
    ensures
        r@ == "token "@ + token@,
{
    let mut out = chars_of("token ");
    push_str(&mut out, token);
    string_of(out.as_slice())
}

} // verus!
