//! What the command line front end decides before it hands over: where
//! the project may be, whether the tool was called under an engine's
//! name, and what a search shows.

use vstd::prelude::*;
use crate::error::GdvmError;
use crate::host::HostOs;
use crate::text::{
    chars_of, contains, first_where, has_infix, lemma_first_where, str_eq, string_views,
};
use crate::version_utils::{concrete_views, ConcreteVersion, GodotVersionDeterminate};

verus! {

/// Position of the first argument that is the flag `--path`.
pub open spec fn path_flag_position(args: Seq<String>) -> int {
    first_where(args, |a: String| a@ == "--path"@)
}

/// The arguments that do not start with a hyphen, in their order.
pub open spec fn plain_arguments(args: Seq<String>) -> Seq<Seq<char>>
    decreases args.len(),
{
    if args.len() == 0 {
        Seq::empty()
    } else {
        let front = plain_arguments(args.drop_last());
        if args.last()@.len() > 0 && args.last()@[0] == '-' {
            front
        } else {
            front.push(args.last()@)
        }
    }
}

/// Where the project may be, according to the arguments handed to the
/// engine: the value of the first `--path` flag where it has one, else
/// every argument that is no flag.
pub open spec fn possible_paths_spec(args: Seq<String>) -> Seq<Seq<char>> {
    let flag = path_flag_position(args);
    if 0 <= flag && flag + 1 < args.len() {
        seq![args[flag + 1]@]
    } else {
        plain_arguments(args)
    }
}

/// Position of the first argument that is the flag `--path`.
fn find_path_flag(raw_args: &[String]) -> (r: Option<usize>)
    ensures
        match r {
            Some(i) => i < raw_args@.len() && i == path_flag_position(raw_args@),
            None => path_flag_position(raw_args@) == raw_args@.len(),
        },
{
    let mut i: usize = 0;
    while i < raw_args.len()
        invariant
            i <= raw_args.len(),
            forall|j: int| 0 <= j < i ==> (#[trigger] raw_args@[j])@ != "--path"@,
        decreases raw_args.len() - i,
    {
        if str_eq(raw_args[i].as_str(), "--path") {
            proof {
                lemma_first_where(raw_args@, |a: String| a@ == "--path"@, i as int);
            }
            return Some(i);
        }
        i = i + 1;
    }
    proof {
        lemma_first_where(raw_args@, |a: String| a@ == "--path"@, i as int);
    }
    None
}

/// Collects the paths at which the project may be from the arguments
/// handed to the engine.
pub fn collect_possible_paths(raw_args: &[String]) -> (r: Vec<String>)
    ensures
        string_views(r@) == possible_paths_spec(raw_args@),
{
    let mut out: Vec<String> = Vec::new();
    let count = raw_args.len();
    match find_path_flag(raw_args) {
        Some(i) => {
            if i + 1 < count {
                out.push(raw_args[i + 1].clone());
                assert(string_views(out@) =~= seq![raw_args@[i + 1]@]);
                return out;
            }
        },
        None => {},
    }
    let mut k: usize = 0;
    assert(raw_args@.take(0) =~= Seq::<String>::empty());
    assert(string_views(out@) =~= Seq::<Seq<char>>::empty());
    while k < raw_args.len()
        invariant
            k <= raw_args.len(),
            string_views(out@) == plain_arguments(raw_args@.take(k as int)),
        decreases raw_args.len() - k,
    {
        let ghost before = string_views(out@);
        assert(raw_args@.take(k + 1).drop_last() =~= raw_args@.take(k as int));
        assert(raw_args@.take(k + 1).last() == raw_args@[k as int]);
        let chars = chars_of(raw_args[k].as_str());
        if !(chars.len() > 0 && chars[0] == '-') {
            out.push(raw_args[k].clone());
            assert(string_views(out@) =~= before.push(raw_args@[k as int]@));
        }
        k = k + 1;
    }
    assert(raw_args@.take(k as int) =~= raw_args@);
    out
}

/// Whether a call of the tool under the name `alias` is a call of the
/// engine, and if so whether it runs attached to the console: a name that
/// holds `godot` is the engine's; it runs attached everywhere but on
/// Windows, where only a name that also holds `console` does.
pub open spec fn alias_spec(alias: Seq<char>, os: HostOs) -> Option<bool> {
    if has_infix(alias, "godot"@) {
        Some(os != HostOs::Windows || has_infix(alias, "console"@))
    } else {
        None
    }
}

/// Decides whether the tool was called under the engine's name, and how
/// the engine is to run then.
pub fn run_alias(alias: &str, os: HostOs) -> (r: Option<bool>)
    ensures
        r == alias_spec(alias@, os),
{
    let chars = chars_of(alias);
    if contains(chars.as_slice(), chars_of("godot").as_slice()) {
        match os {
            HostOs::Windows => Some(contains(chars.as_slice(), chars_of("console").as_slice())),
            _ => Some(true),
        }
    } else {
        None
    }
}

/// The name of the tool's own executable beside a shim.
pub fn tool_file_name(os: HostOs) -> (r: &'static str)
    ensures
        r@ == if os == HostOs::Windows {
            "gdvm.exe"@
        } else {
            "gdvm"@
        },
{
    match os {
        HostOs::Windows => "gdvm.exe",
        _ => "gdvm",
    }
}

/// The stable releases among `releases`, in their order.
pub open spec fn stable_only(releases: Seq<ConcreteVersion>) -> Seq<ConcreteVersion>
    decreases releases.len(),
{
    if releases.len() == 0 {
        releases
    } else if releases.last().is_stable() {
        stable_only(releases.drop_last()).push(releases.last())
    } else {
        stable_only(releases.drop_last())
    }
}

/// What a search shows of a listing: only stable releases unless
/// pre-releases are asked for, and no more than `limit` of them unless
/// the limit is zero.
pub open spec fn search_results_spec(releases: Seq<ConcreteVersion>, include_pre: bool, limit: usize)
    -> Seq<ConcreteVersion> {
    let kept = if include_pre {
        releases
    } else {
        stable_only(releases)
    };
    if limit != 0 && limit < kept.len() {
        kept.take(limit as int)
    } else {
        kept
    }
}

/// Cuts a listing down to what a search shows.
pub fn search_results(releases: &Vec<GodotVersionDeterminate>, include_pre: bool, limit: usize)
    -> (r: Vec<GodotVersionDeterminate>)
    ensures
        concrete_views(r@) == search_results_spec(concrete_views(releases@), include_pre, limit),
{
    let ghost all = concrete_views(releases@);
    let mut kept: Vec<GodotVersionDeterminate> = Vec::new();
    let mut i: usize = 0;
    assert(all.take(0) =~= Seq::<ConcreteVersion>::empty());
    assert(concrete_views(kept@) =~= Seq::<ConcreteVersion>::empty());
    while i < releases.len()
        invariant
            i <= releases.len(),
            all == concrete_views(releases@),
            concrete_views(kept@) == if include_pre {
                all.take(i as int)
            } else {
                stable_only(all.take(i as int))
            },
        decreases releases.len() - i,
    {
        let ghost before = concrete_views(kept@);
        assert(all.take(i + 1).drop_last() =~= all.take(i as int));
        assert(all.take(i + 1).last() == releases@[i as int]@);
        assert(all.take(i + 1) =~= all.take(i as int).push(releases@[i as int]@));
        if include_pre || releases[i].is_stable() {
            kept.push(releases[i].clone());
            assert(concrete_views(kept@) =~= before.push(releases@[i as int]@));
        }
        i = i + 1;
    }
    assert(all.take(i as int) =~= all);
    if limit != 0 && limit < kept.len() {
        let ghost full = concrete_views(kept@);
        kept.truncate(limit);
        assert(concrete_views(kept@) =~= full.take(limit as int));
    }
    kept
}

/// The one install that a request names among the candidates found for
/// it: with none there is no such version, with several the request is
/// ambiguous.
pub fn single_candidate(candidates: &Vec<GodotVersionDeterminate>) -> (r: Result<
    GodotVersionDeterminate,
    GdvmError,
>)
    ensures
        candidates@.len() == 0 ==> r is Err && r->Err_0 is VersionNotFound,
        candidates@.len() == 1 ==> r is Ok && r->Ok_0@ == candidates@[0]@,
        candidates@.len() > 1 ==> r is Err && r->Err_0 is MultipleVersionsFound,
{
    if candidates.len() == 0 {
        Err(GdvmError::VersionNotFound)
    } else if candidates.len() == 1 {
        Ok(candidates[0].clone())
    } else {
        Err(GdvmError::MultipleVersionsFound)
    }
}

} // verus!
