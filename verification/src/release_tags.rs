//! Release tags as texts: building a tag from its parts, showing an
//! install folder name to the user, ordering tags as semantic versions,
//! and naming the archives of the official builds.

use vstd::prelude::*;
use vstd::slice::slice_subrange;
use crate::host::{HostArch, HostOs, HostPlatform};
use crate::self_update::{parse_semver, semver_parts, ToolVersion};
use crate::text::{
    chars_of, ends_with, find_char, has_suffix, index_of, push_all, push_str, split, split_on,
    string_of, string_views, views,
};
use crate::version_utils::{get_pre_release_priority, priority_spec, GodotVersionDeterminate};

verus! {

/// The branch of a release: the stable one, or a named pre-release.
#[derive(Debug)]
pub enum GodotBranch {
    Stable,
    PreRelease(String),
}

/// The tag of a release: its version, a hyphen, and `stable` or the name
/// of the pre-release.
pub open spec fn release_tag_spec(version: Seq<char>, branch: GodotBranch) -> Seq<char> {
    match branch {
        GodotBranch::Stable => version + "-stable"@,
        GodotBranch::PreRelease(name) => version + seq!['-'] + name@,
    }
}

/// An install folder name as shown to the user: ` (C#)` in place of a
/// final `-csharp`.
pub open spec fn friendly_spec(version: Seq<char>) -> Seq<char> {
    if has_suffix(version, "-csharp"@) {
        version.take(version.len() - "-csharp"@.len()) + " (C#)"@
    } else {
        version
    }
}

/// The release tag for a version and a branch.
pub fn build_release_tag(version: &str, branch: &GodotBranch) -> (r: String)
    ensures
        r@ == release_tag_spec(version@, *branch),
{
    let mut out = chars_of(version);
    match branch {
        GodotBranch::Stable => {
            push_str(&mut out, "-stable");
        },
        GodotBranch::PreRelease(name) => {
            out.push('-');
            push_str(&mut out, name.as_str());
        },
    }
    string_of(out.as_slice())
}

/// An install folder name in the form shown to the user.
pub fn friendly_installed_version(version: &str) -> (r: String)
    ensures
        r@ == friendly_spec(version@),
{
    let chars = chars_of(version);
    let suffix = chars_of("-csharp");
    proof {
        reveal_strlit("-csharp");
    }
    if ends_with(chars.as_slice(), suffix.as_slice()) {
        let mut out = crate::text::copy_range(chars.as_slice(), 0, chars.len() - 7);
        assert(out@ == version@.take(version@.len() - 7));
        push_str(&mut out, " (C#)");
        string_of(out.as_slice())
    } else {
        string_of(chars.as_slice())
    }
}

/// Where the official builds of the engine are published.
pub const BUILDS_URL: &'static str = "https://github.com/godotengine/godot-builds/releases/download";

/// A release tag without a final `-csharp`.
pub open spec fn without_csharp(s: Seq<char>) -> Seq<char> {
    if has_suffix(s, "-csharp"@) {
        s.take(s.len() - "-csharp"@.len())
    } else {
        s
    }
}

/// A release tag rewritten as a semantic version: a final `-csharp` is
/// taken off, and what precedes the first hyphen is brought to three
/// numbers. `M.m-type` becomes `M.m.0-type`, `M.m.p-type` stays, and
/// `M.m.p.s-type` becomes `M.m.p-type.s`. A tag without hyphen stays as
/// it is. A tag with one number or more than four before its hyphen has
/// no such form.
pub open spec fn normalized_text(s: Seq<char>) -> Option<Seq<char>> {
    let tag = without_csharp(s);
    let dash = index_of(tag, '-');
    if !(0 <= dash < tag.len()) {
        Some(tag)
    } else {
        let numbers = tag.take(dash);
        let branch = tag.skip(dash + 1);
        let parts = split_on(numbers, '.');
        if parts.len() == 4 {
            Some(
                parts[0] + seq!['.'] + parts[1] + seq!['.'] + parts[2] + seq!['-'] + branch + seq![
                    '.',
                ] + parts[3],
            )
        } else if parts.len() == 3 {
            Some(tag)
        } else if parts.len() == 2 {
            Some(numbers + ".0-"@ + branch)
        } else {
            None
        }
    }
}

/// The parts of the semantic version that a release tag stands for, where
/// it stands for one.
pub open spec fn normalized_parts(s: Seq<char>) -> Option<(u64, u64, u64, Seq<char>, Seq<char>)> {
    match normalized_text(s) {
        Some(text) => semver_parts(text),
        None => None,
    }
}

/// The release tag rewritten as a semantic version.
pub fn normalize_text(s: &str) -> (r: Option<String>)
    ensures
        match normalized_text(s@) {
            Some(text) => r is Some && r->0@ == text,
            None => r is None,
        },
{
    let chars = chars_of(s);
    let suffix = chars_of("-csharp");
    proof {
        reveal_strlit("-csharp");
    }
    let end: usize = if ends_with(chars.as_slice(), suffix.as_slice()) {
        chars.len() - 7
    } else {
        chars.len()
    };
    let tag = slice_subrange(chars.as_slice(), 0, end);
    assert(tag@ == without_csharp(s@));
    let len = tag.len();
    match find_char(tag, '-') {
        None => Some(string_of(tag)),
        Some(dash) => {
            let numbers = slice_subrange(tag, 0, dash);
            let branch = slice_subrange(tag, dash + 1, len);
            assert(numbers@ == tag@.take(dash as int));
            assert(branch@ == tag@.skip(dash + 1));
            let parts = split(numbers, '.');
            let ghost texts = views(parts@);
            let mut out: Vec<char> = Vec::new();
            if parts.len() == 4 {
                assert(texts[0] == parts@[0]@ && texts[1] == parts@[1]@ && texts[2] == parts@[2]@
                    && texts[3] == parts@[3]@);
                push_all(&mut out, parts[0].as_slice());
                out.push('.');
                push_all(&mut out, parts[1].as_slice());
                out.push('.');
                push_all(&mut out, parts[2].as_slice());
                out.push('-');
                push_all(&mut out, branch);
                out.push('.');
                push_all(&mut out, parts[3].as_slice());
                assert(out@ =~= texts[0] + seq!['.'] + texts[1] + seq!['.'] + texts[2] + seq!['-']
                    + branch@ + seq!['.'] + texts[3]);
                Some(string_of(out.as_slice()))
            } else if parts.len() == 3 {
                Some(string_of(tag))
            } else if parts.len() == 2 {
                push_all(&mut out, numbers);
                push_str(&mut out, ".0-");
                push_all(&mut out, branch);
                assert(out@ =~= numbers@ + ".0-"@ + branch@);
                Some(string_of(out.as_slice()))
            } else {
                None
            }
        },
    }
}

/// Reads a release tag as a semantic version, with the patch number
/// filled in where the tag has none and a fourth number moved behind the
/// branch. Nothing where the tag, so rewritten, is no semantic version.
pub fn normalize_version(s: &str) -> (r: Option<ToolVersion>)
    ensures
        match normalized_parts(s@) {
            Some(parts) => r is Some && r->0.has_parts(parts),
            None => r is None,
        },
{
    match normalize_text(s) {
        Some(text) => parse_semver(text.as_str()),
        None => None,
    }
}

/// The three numbers of a release tag; zeros where it is no version.
pub open spec fn tag_numbers(tag: Seq<char>) -> (u64, u64, u64) {
    match normalized_parts(tag) {
        Some(parts) => (parts.0, parts.1, parts.2),
        None => (0u64, 0u64, 0u64),
    }
}

/// The rank of the branch of a release tag; that of a stable release
/// where it is no version.
pub open spec fn tag_rank(tag: Seq<char>) -> int {
    match normalized_parts(tag) {
        Some(parts) => priority_spec(parts.3),
        None => priority_spec(Seq::empty()),
    }
}

/// The tag `a` is ordered before the tag `b`: its numbers are higher,
/// compared from left to right, or they are the same and its branch
/// ranks higher.
pub open spec fn tag_before(a: Seq<char>, b: Seq<char>) -> bool {
    let x = tag_numbers(a);
    let y = tag_numbers(b);
    if x.0 != y.0 {
        x.0 > y.0
    } else if x.1 != y.1 {
        x.1 > y.1
    } else if x.2 != y.2 {
        x.2 > y.2
    } else {
        tag_rank(a) > tag_rank(b)
    }
}

/// `sorted` with the tag `x` put in before the first tag that `x` is
/// ordered before, or at the end where there is none.
pub open spec fn insert_tag(sorted: Seq<Seq<char>>, x: Seq<char>) -> Seq<Seq<char>>
    decreases sorted.len(),
{
    if sorted.len() == 0 {
        seq![x]
    } else if tag_before(x, sorted[0]) {
        seq![x] + sorted
    } else {
        seq![sorted[0]] + insert_tag(sorted.drop_first(), x)
    }
}

/// The tags newest first; tags of equal rank keep the order they had.
pub open spec fn sort_tags(tags: Seq<Seq<char>>) -> Seq<Seq<char>>
    decreases tags.len(),
{
    if tags.len() == 0 {
        tags
    } else {
        insert_tag(sort_tags(tags.drop_last()), tags.last())
    }
}

/// Where `x` goes: `j` is the first position whose tag `x` is ordered
/// before.
pub proof fn lemma_insert_tag_at(sorted: Seq<Seq<char>>, x: Seq<char>, j: int)
    requires
        0 <= j <= sorted.len(),
        forall|k: int| 0 <= k < j ==> !tag_before(x, #[trigger] sorted[k]),
        j < sorted.len() ==> tag_before(x, sorted[j]),
    ensures
        insert_tag(sorted, x) == sorted.insert(j, x),
    decreases sorted.len(),
{
    if sorted.len() == 0 {
        assert(sorted.insert(0, x) =~= seq![x]);
    } else if j == 0 {
        assert(sorted.insert(0, x) =~= seq![x] + sorted);
    } else {
        let rest = sorted.drop_first();
        assert(!tag_before(x, sorted[0]));
        assert forall|k: int| 0 <= k < j - 1 implies !tag_before(x, #[trigger] rest[k]) by {
            assert(rest[k] == sorted[k + 1]);
        }
        lemma_insert_tag_at(rest, x, j - 1);
        assert(sorted.insert(j, x) =~= seq![sorted[0]] + rest.insert(j - 1, x));
    }
}

/// The numbers and the rank of the branch of a version read from a
/// release tag, or those of a stable `0.0.0` where none was read.
pub fn release_key(version: Option<&ToolVersion>) -> (r: (u64, u64, u64, i32))
    ensures
        match version {
            Some(v) => r == (v.major, v.minor, v.patch, priority_spec(v.pre@) as i32),
            None => r == (0u64, 0u64, 0u64, 4i32),
        },
{
    match version {
        Some(v) => (v.major, v.minor, v.patch, get_pre_release_priority(v.pre.as_str())),
        None => (0, 0, 0, 4),
    }
}

/// The numbers and the rank of a release tag.
fn tag_key(tag: &str) -> (r: (u64, u64, u64, i32))
    ensures
        (r.0, r.1, r.2) == tag_numbers(tag@),
        r.3 == tag_rank(tag@),
{
    let version = normalize_version(tag);
    release_key(version.as_ref())
}

/// Whether the tag `a` is ordered before the tag `b`.
pub fn tag_comes_before(a: &str, b: &str) -> (r: bool)
    ensures
        r == tag_before(a@, b@),
{
    let x = tag_key(a);
    let y = tag_key(b);
    if x.0 != y.0 {
        x.0 > y.0
    } else if x.1 != y.1 {
        x.1 > y.1
    } else if x.2 != y.2 {
        x.2 > y.2
    } else {
        x.3 > y.3
    }
}

/// Orders release tags newest first: higher numbers before lower, and
/// among equal numbers `stable` before `rc`, `beta`, `dev` and the rest.
/// A tag that is no version counts as `0.0.0`. Tags of equal rank keep
/// their order.
pub fn sort_releases(releases: &mut Vec<String>)
    ensures
        string_views(final(releases)@) == sort_tags(string_views(old(releases)@)),
{
    let n = releases.len();
    let ghost before = string_views(releases@);
    let mut i: usize = 0;
    assert(before.take(0) =~= Seq::<Seq<char>>::empty());
    while i < n
        invariant
            i <= n,
            n == releases.len(),
            before.len() == n,
            string_views(releases@).take(i as int) == sort_tags(before.take(i as int)),
            string_views(releases@).skip(i as int) == before.skip(i as int),
        decreases n - i,
    {
        let ghost current = string_views(releases@);
        let x = releases.remove(i);
        let ghost removed = string_views(releases@);
        assert(removed =~= current.remove(i as int));
        assert(x@ == current[i as int]);
        assert(current[i as int] == before.skip(i as int)[0]);
        let mut j: usize = 0;
        while j < i && !tag_comes_before(x.as_str(), releases[j].as_str())
            invariant
                j <= i,
                i < n,
                releases.len() == n - 1,
                removed == string_views(releases@),
                forall|k: int| 0 <= k < j ==> !tag_before(x@, #[trigger] removed[k]),
            decreases i - j,
        {
            j = j + 1;
        }
        let ghost inserted = x@;
        releases.insert(j, x);
        proof {
            let prefix = current.take(i as int);
            assert(prefix =~= removed.take(i as int));
            assert forall|k: int| 0 <= k < j implies !tag_before(inserted, #[trigger] prefix[k]) by {
                assert(prefix[k] == removed[k]);
            }
            if j < i {
                assert(prefix[j as int] == removed[j as int]);
            }
            lemma_insert_tag_at(prefix, inserted, j as int);
            assert(before.take(i + 1).drop_last() =~= before.take(i as int));
            assert(before.take(i + 1).last() == inserted);
            let after = string_views(releases@);
            assert(after =~= removed.insert(j as int, inserted));
            assert(after.take(i + 1) =~= prefix.insert(j as int, inserted));
            let tail = after.skip(i + 1);
            let old_tail = before.skip(i + 1);
            assert forall|k: int| 0 <= k < n - i - 1 implies #[trigger] tail[k] == old_tail[k] by {
                assert(after[k + i + 1] == removed[k + i]);
                assert(removed[k + i] == current[k + i + 1]);
                assert(current[k + i + 1] == current.skip(i as int)[k + 1]);
            }
            assert(tail =~= old_tail);
        }
        i = i + 1;
    }
    assert(string_views(releases@).take(n as int) =~= string_views(releases@));
    assert(before.take(n as int) =~= before);
}

/// How the official builds name the platform of an archive: with a dot
/// before the architecture for the plain engine and an underscore for the
/// C# variant, and `.exe` for the plain engine on Windows.
pub open spec fn archive_platform_spec(host: HostPlatform, is_csharp: bool) -> Seq<char> {
    match (host.os, host.arch) {
        (HostOs::Windows, HostArch::X86_64) => if is_csharp {
            "win64"@
        } else {
            "win64.exe"@
        },
        (HostOs::Windows, HostArch::X86) => if is_csharp {
            "win32"@
        } else {
            "win32.exe"@
        },
        (HostOs::Windows, HostArch::Aarch64) => if is_csharp {
            "windows_arm64"@
        } else {
            "windows_arm64.exe"@
        },
        (HostOs::Macos, _) => "macos.universal"@,
        (HostOs::Linux, HostArch::X86_64) => if is_csharp {
            "linux_x86_64"@
        } else {
            "linux.x86_64"@
        },
        (HostOs::Linux, HostArch::X86) => if is_csharp {
            "linux_x86_32"@
        } else {
            "linux.x86_32"@
        },
        (HostOs::Linux, HostArch::Aarch64) => if is_csharp {
            "linux_arm64"@
        } else {
            "linux.arm64"@
        },
    }
}

/// The name of the archive of an official build:
/// `Godot_v<tag>_<platform>.zip`, with `mono_` before the platform for
/// the C# variant.
pub open spec fn archive_name_spec(tag: Seq<char>, host: HostPlatform, is_csharp: bool) -> Seq<
    char,
> {
    "Godot_v"@ + tag + (if is_csharp {
        "_mono_"@
    } else {
        "_"@
    }) + archive_platform_spec(host, is_csharp) + ".zip"@
}

/// How the official builds name the platform of an archive.
fn archive_platform(host: HostPlatform, is_csharp: bool) -> (r: &'static str)
    ensures
        r@ == archive_platform_spec(host, is_csharp),
{
    match (host.os, host.arch) {
        (HostOs::Windows, HostArch::X86_64) => if is_csharp {
            "win64"
        } else {
            "win64.exe"
        },
        (HostOs::Windows, HostArch::X86) => if is_csharp {
            "win32"
        } else {
            "win32.exe"
        },
        (HostOs::Windows, HostArch::Aarch64) => if is_csharp {
            "windows_arm64"
        } else {
            "windows_arm64.exe"
        },
        (HostOs::Macos, _) => "macos.universal",
        (HostOs::Linux, HostArch::X86_64) => if is_csharp {
            "linux_x86_64"
        } else {
            "linux.x86_64"
        },
        (HostOs::Linux, HostArch::X86) => if is_csharp {
            "linux_x86_32"
        } else {
            "linux.x86_32"
        },
        (HostOs::Linux, HostArch::Aarch64) => if is_csharp {
            "linux_arm64"
        } else {
            "linux.arm64"
        },
    }
}

/// The name of the archive that the official builds publish for a
/// version on a host.
pub fn get_archive_name(version: &GodotVersionDeterminate, host: HostPlatform) -> (r: String)
    ensures
        r@ == archive_name_spec(version@.remote_text(), host, version@.wants_csharp()),
{
    let is_csharp = match version.is_csharp {
        Some(flag) => flag,
        None => false,
    };
    let mut out = chars_of("Godot_v");
    push_str(&mut out, version.to_remote_str().as_str());
    if is_csharp {
        push_str(&mut out, "_mono_");
    } else {
        push_str(&mut out, "_");
    }
    push_str(&mut out, archive_platform(host, is_csharp));
    push_str(&mut out, ".zip");
    string_of(out.as_slice())
}

/// Where the official builds publish an archive of a release:
/// `<builds>/<tag>/<archive>`.
pub fn get_download_url(tag: &str, archive_name: &str) -> (r: String)
    ensures
        r@ == BUILDS_URL@ + seq!['/'] + tag@ + seq!['/'] + archive_name@,
{
    let mut out = chars_of(BUILDS_URL);
    out.push('/');
    push_str(&mut out, tag);
    out.push('/');
    push_str(&mut out, archive_name);
    string_of(out.as_slice())
}

} // verus!
