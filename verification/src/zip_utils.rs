//! Planning the extraction of a release archive: which members go where
//! below the install directory.

use vstd::prelude::*;
use crate::error::GdvmError;
use crate::text::{chars_of, ends_with, has_suffix, seq_eq, split, split_on, string_of, views};

verus! {

/// One member of an archive, as its directory lists it.
#[derive(Debug)]
pub struct ZipEntryInfo {
    /// The member's path with `/` between its parts, if it is a safe
    /// relative path; nothing where it is not.
    pub enclosed_name: Option<String>,
    /// The member is a directory.
    pub is_dir: bool,
    /// The Unix mode bits stored with the member, if any.
    pub unix_mode: Option<u32>,
}

/// One member to extract.
#[derive(Debug)]
pub struct ExtractItem {
    /// The position of the member in the archive.
    pub index: usize,
    /// Where it goes, relative to the install directory. Empty for the
    /// install directory itself.
    pub relative_path: String,
    /// It is a directory to create, not a file to write.
    pub is_dir: bool,
    /// The mode bits to set on Unix.
    pub unix_mode: Option<u32>,
}

/// What to extract, in the order of the archive.
#[derive(Debug)]
pub struct ExtractionPlan {
    /// The top-level directory that is left out of every path, if the
    /// archive has a single one that is no application bundle.
    pub stripped_prefix: Option<String>,
    pub items: Vec<ExtractItem>,
}

/// The mathematical value of an `ExtractItem`.
pub struct ItemView {
    pub index: int,
    pub relative_path: Seq<char>,
    pub is_dir: bool,
    pub unix_mode: Option<u32>,
}

impl View for ExtractItem {
    type V = ItemView;

    open spec fn view(&self) -> ItemView {
        ItemView {
            index: self.index as int,
            relative_path: self.relative_path@,
            is_dir: self.is_dir,
            unix_mode: self.unix_mode,
        }
    }
}

/// The values of the items that a vector holds.
pub open spec fn item_views(items: Seq<ExtractItem>) -> Seq<ItemView> {
    Seq::new(items.len(), |i: int| items[i]@)
}

/// A part of a path that counts: not empty and not `.`.
pub open spec fn is_real_part(part: Seq<char>) -> bool {
    part.len() > 0 && part != seq!['.']
}

/// Those of `parts` that count, in their order.
pub open spec fn real_parts(parts: Seq<Seq<char>>) -> Seq<Seq<char>>
    decreases parts.len(),
{
    if parts.len() == 0 {
        parts
    } else if is_real_part(parts.last()) {
        real_parts(parts.drop_last()).push(parts.last())
    } else {
        real_parts(parts.drop_last())
    }
}

/// The parts of a path: what stands between its slashes, without empty
/// parts and `.`.
pub open spec fn components_of(path: Seq<char>) -> Seq<Seq<char>> {
    real_parts(split_on(path, '/'))
}

/// The parts joined by `/`.
pub open spec fn joined(parts: Seq<Seq<char>>) -> Seq<char>
    decreases parts.len(),
{
    if parts.len() == 0 {
        Seq::empty()
    } else if parts.len() == 1 {
        parts[0]
    } else {
        joined(parts.drop_last()) + seq!['/'] + parts.last()
    }
}

/// The first part of a member's path, if it has a safe path with a part.
pub open spec fn top_of(entry: ZipEntryInfo) -> Option<Seq<char>> {
    match entry.enclosed_name {
        Some(name) => if components_of(name@).len() > 0 {
            Some(components_of(name@)[0])
        } else {
            None
        },
        None => None,
    }
}

/// The member shows that its first part is a directory: it has a path,
/// and it is a directory itself or lies below its first part.
pub open spec fn shows_directory(entry: ZipEntryInfo) -> bool {
    top_of(entry) is Some && (entry.is_dir || components_of(entry.enclosed_name->0@).len() > 1)
}

/// `top` is the single top-level directory of the archive: it is the
/// first part of the path of some member and of every member that has a
/// path, and it is a directory, which some member shows.
pub open spec fn is_single_top(entries: Seq<ZipEntryInfo>, top: Seq<char>) -> bool {
    &&& exists|i: int| 0 <= i < entries.len() && top_of(#[trigger] entries[i]) == Some(top)
    &&& forall|i: int|
        0 <= i < entries.len() && top_of(#[trigger] entries[i]) is Some ==> top_of(entries[i])
            == Some(top)
    &&& exists|i: int| 0 <= i < entries.len() && shows_directory(#[trigger] entries[i])
}

/// `prefix` is what is left out of every path: the single top-level
/// directory, unless its name ends in `.app`; nothing where the archive
/// has no single top-level directory.
pub open spec fn is_stripped_prefix(entries: Seq<ZipEntryInfo>, prefix: Option<Seq<char>>) -> bool {
    match prefix {
        Some(top) => is_single_top(entries, top) && !has_suffix(top, ".app"@),
        None => forall|top: Seq<char>|
            is_single_top(entries, top) ==> has_suffix(top, ".app"@),
    }
}

/// The parts of a member's path below the install directory: all of them,
/// or all but the first where a prefix is stripped.
pub open spec fn kept_parts(name: Seq<char>, stripping: bool) -> Seq<Seq<char>> {
    if stripping {
        components_of(name).skip(1)
    } else {
        components_of(name)
    }
}

/// One of the parts is `..`.
pub open spec fn has_parent_part(parts: Seq<Seq<char>>) -> bool {
    exists|i: int| 0 <= i < parts.len() && #[trigger] parts[i] == seq!['.', '.']
}

/// The member is extracted: it has a path with at least one part.
pub open spec fn is_extracted(entry: ZipEntryInfo) -> bool {
    top_of(entry) is Some
}

/// The member cannot be extracted safely: it has no safe path, or, where
/// a prefix is stripped, what is left of its path holds `..`.
pub open spec fn is_unsafe(entry: ZipEntryInfo, stripping: bool) -> bool {
    entry.enclosed_name is None || (stripping && is_extracted(entry) && has_parent_part(
        kept_parts(entry.enclosed_name->0@, true),
    ))
}

/// One of the members cannot be extracted safely.
pub open spec fn has_unsafe_member(entries: Seq<ZipEntryInfo>, stripping: bool) -> bool {
    exists|i: int| 0 <= i < entries.len() && is_unsafe(#[trigger] entries[i], stripping)
}

/// The items for the first `n` members of the archive: one for each
/// member with a path, in order.
pub open spec fn planned_items(entries: Seq<ZipEntryInfo>, stripping: bool, n: int) -> Seq<ItemView>
    decreases n,
{
    if n <= 0 {
        Seq::empty()
    } else {
        let front = planned_items(entries, stripping, n - 1);
        let entry = entries[n - 1];
        if is_extracted(entry) {
            front.push(
                ItemView {
                    index: n - 1,
                    relative_path: joined(kept_parts(entry.enclosed_name->0@, stripping)),
                    is_dir: entry.is_dir,
                    unix_mode: entry.unix_mode,
                },
            )
        } else {
            front
        }
    }
}

/// The text of an optional string.
pub open spec fn option_view(s: Option<String>) -> Option<Seq<char>> {
    match s {
        Some(p) => Some(p@),
        None => None,
    }
}

/// The parts of a path.
pub fn components(path: &[char]) -> (r: Vec<Vec<char>>)
    ensures
        views(r@) == components_of(path@),
{
    let pieces = split(path, '/');
    let ghost all = views(pieces@);
    let mut out: Vec<Vec<char>> = Vec::new();
    let mut i: usize = 0;
    assert(all.take(0) =~= Seq::<Seq<char>>::empty());
    assert(views(out@) =~= Seq::<Seq<char>>::empty());
    while i < pieces.len()
        invariant
            i <= pieces.len(),
            all == views(pieces@),
            all == split_on(path@, '/'),
            views(out@) == real_parts(all.take(i as int)),
        decreases pieces.len() - i,
    {
        let piece = &pieces[i];
        let ghost before = views(out@);
        assert(all.take(i + 1).drop_last() =~= all.take(i as int));
        assert(all.take(i + 1).last() == piece@);
        let is_dot = piece.len() == 1 && piece[0] == '.';
        assert(is_dot == (piece@ == seq!['.'])) by {
            if is_dot {
                assert(piece@ =~= seq!['.']);
            }
        }
        if piece.len() > 0 && !is_dot {
            out.push(piece.clone());
            assert(views(out@) =~= before.push(piece@));
        }
        i = i + 1;
    }
    assert(all.take(i as int) =~= all);
    out
}

/// Joins the parts from position `from` on with `/`.
pub(crate) fn join_components(parts: &Vec<Vec<char>>, from: usize) -> (r: String)
    requires
        from <= parts@.len(),
    ensures
        r@ == joined(views(parts@).skip(from as int)),
{
    let ghost rest = views(parts@).skip(from as int);
    let mut out: Vec<char> = Vec::new();
    let mut i: usize = from;
    assert(rest.take(0) =~= Seq::<Seq<char>>::empty());
    while i < parts.len()
        invariant
            from <= i <= parts.len(),
            rest == views(parts@).skip(from as int),
            out@ == joined(rest.take(i - from)),
        decreases parts.len() - i,
    {
        assert(rest.take(i - from + 1).drop_last() =~= rest.take(i - from));
        assert(rest.take(i - from + 1).last() == parts@[i as int]@);
        if i > from {
            out.push('/');
        } else {
            assert(rest.take(1)[0] == parts@[i as int]@);
        }
        crate::text::push_all(&mut out, parts[i].as_slice());
        i = i + 1;
    }
    assert(rest.take(i - from) =~= rest);
    string_of(out.as_slice())
}

/// Whether one of the parts from position `from` on is `..`.
fn any_parent_part(parts: &Vec<Vec<char>>, from: usize) -> (r: bool)
    requires
        from <= parts@.len(),
    ensures
        r == has_parent_part(views(parts@).skip(from as int)),
{
    let ghost rest = views(parts@).skip(from as int);
    let mut i: usize = from;
    while i < parts.len()
        invariant
            from <= i <= parts.len(),
            rest == views(parts@).skip(from as int),
            forall|j: int| 0 <= j < i - from ==> #[trigger] rest[j] != seq!['.', '.'],
        decreases parts.len() - i,
    {
        let part = &parts[i];
        if part.len() == 2 && part[0] == '.' && part[1] == '.' {
            assert(part@ =~= seq!['.', '.']);
            assert(rest[i - from] == part@);
            return true;
        }
        assert(rest[i - from] == part@);
        i = i + 1;
    }
    false
}

/// The directory that is left out of every path when the archive is
/// extracted.
pub fn common_prefix(entries: &Vec<ZipEntryInfo>) -> (r: Option<String>)
    ensures
        is_stripped_prefix(entries@, option_view(r)),
{
    let mut top: Option<Vec<char>> = None;
    let mut several = false;
    let mut any_dir = false;
    let mut i: usize = 0;
    while i < entries.len()
        invariant
            i <= entries.len(),
            match top {
                Some(t) => exists|k: int| 0 <= k < i && top_of(#[trigger] entries@[k]) == Some(t@),
                None => forall|k: int| 0 <= k < i ==> top_of(#[trigger] entries@[k]) is None,
            },
            several ==> exists|k: int, m: int|
                0 <= k < i && 0 <= m < i && top_of(#[trigger] entries@[k]) is Some && top_of(
                    #[trigger] entries@[m],
                ) is Some && top_of(entries@[k]) != top_of(entries@[m]),
            !several && top is Some ==> forall|k: int|
                0 <= k < i && top_of(#[trigger] entries@[k]) is Some ==> top_of(entries@[k])
                    == Some(top->0@),
            any_dir == exists|k: int| 0 <= k < i && shows_directory(#[trigger] entries@[k]),
        decreases entries.len() - i,
    {
        let ghost was_dir = any_dir;
        let mut found = false;
        let mut below = false;
        match &entries[i].enclosed_name {
            Some(name) => {
                let parts = components(chars_of(name.as_str()).as_slice());
                if parts.len() > 0 {
                    found = true;
                    below = parts.len() > 1;
                    assert(top_of(entries@[i as int]) == Some(parts@[0]@));
                    match &top {
                        Some(t) => {
                            if !seq_eq(t.as_slice(), parts[0].as_slice()) {
                                several = true;
                            }
                        },
                        None => {
                            top = Some(parts[0].clone());
                        },
                    }
                }
            },
            None => {},
        }
        assert(found == top_of(entries@[i as int]) is Some);
        if found && (entries[i].is_dir || below) {
            any_dir = true;
        }
        proof {
            let now = shows_directory(entries@[i as int]);
            assert(any_dir == (was_dir || now));
            if was_dir {
                let k = choose|k: int| 0 <= k < i && shows_directory(#[trigger] entries@[k]);
                assert(0 <= k < i + 1 && shows_directory(entries@[k]));
            }
        }
        i = i + 1;
    }
    match top {
        Some(t) => {
            let app = chars_of(".app");
            if !several && any_dir && !ends_with(t.as_slice(), app.as_slice()) {
                Some(string_of(t.as_slice()))
            } else {
                proof {
                    assert forall|other: Seq<char>| is_single_top(entries@, other) implies has_suffix(
                        other,
                        ".app"@,
                    ) by {
                        let k = choose|k: int|
                            0 <= k < entries@.len() && top_of(#[trigger] entries@[k]) == Some(t@);
                        assert(top_of(entries@[k]) == Some(other));
                        if several {
                            let (a, b) = choose|a: int, b: int|
                                0 <= a < i && 0 <= b < i && top_of(#[trigger] entries@[a]) is Some
                                    && top_of(#[trigger] entries@[b]) is Some && top_of(entries@[a])
                                    != top_of(entries@[b]);
                            assert(top_of(entries@[a]) == Some(other));
                            assert(top_of(entries@[b]) == Some(other));
                        }
                    }
                }
                None
            }
        },
        None => None,
    }
}

/// Plans the extraction of an archive.
///
/// Where every member lies at or below one top-level directory whose name
/// does not end in `.app`, that directory is left out of every path, so
/// that what it holds lands in the install directory itself. The archive
/// need not list the directory as a member of its own. A member
/// with a path becomes one item, in the order of the archive. A member
/// without a safe path makes the archive invalid, and so does a member
/// whose path, once the prefix is left out, holds `..`.
pub fn plan_extraction(entries: &Vec<ZipEntryInfo>) -> (r: Result<ExtractionPlan, GdvmError>)
    ensures
        match r {
            Ok(plan) => {
                let prefix = option_view(plan.stripped_prefix);
                &&& is_stripped_prefix(entries@, prefix)
                &&& forall|i: int|
                    0 <= i < entries@.len() ==> !is_unsafe(#[trigger] entries@[i], prefix is Some)
                &&& item_views(plan.items@) == planned_items(
                    entries@,
                    prefix is Some,
                    entries@.len() as int,
                )
            },
            Err(e) => e is InvalidArchiveEntry && (has_unsafe_member(entries@, false) || (
            has_unsafe_member(entries@, true) && exists|top: Seq<char>|
                is_stripped_prefix(entries@, Some(top)))),
        },
{
    let mut i: usize = 0;
    while i < entries.len()
        invariant
            i <= entries.len(),
            forall|k: int| 0 <= k < i ==> (#[trigger] entries@[k]).enclosed_name is Some,
        decreases entries.len() - i,
    {
        if entries[i].enclosed_name.is_none() {
            assert(is_unsafe(entries@[i as int], false));
            return Err(GdvmError::InvalidArchiveEntry);
        }
        i = i + 1;
    }
    let stripped_prefix = common_prefix(entries);
    let stripping = stripped_prefix.is_some();
    let ghost prefix = option_view(stripped_prefix);
    let from: usize = if stripping {
        1
    } else {
        0
    };
    let mut items: Vec<ExtractItem> = Vec::new();
    let mut n: usize = 0;
    assert(item_views(items@) =~= Seq::<ItemView>::empty());
    while n < entries.len()
        invariant
            n <= entries.len(),
            from == if stripping {
                1usize
            } else {
                0usize
            },
            forall|k: int| 0 <= k < entries@.len() ==> (#[trigger] entries@[k]).enclosed_name is Some,
            forall|k: int| 0 <= k < n ==> !is_unsafe(#[trigger] entries@[k], stripping),
            item_views(items@) == planned_items(entries@, stripping, n as int),
            stripping ==> is_stripped_prefix(entries@, prefix) && prefix is Some,
        decreases entries.len() - n,
    {
        let entry = &entries[n];
        let ghost before = item_views(items@);
        match &entry.enclosed_name {
            Some(name) => {
                let parts = components(chars_of(name.as_str()).as_slice());
                if parts.len() > 0 {
                    assert(views(parts@).skip(from as int) == kept_parts(name@, stripping));
                    if stripping && any_parent_part(&parts, from) {
                        assert(is_unsafe(entries@[n as int], true));
                        assert(is_stripped_prefix(entries@, Some(prefix->0)));
                        return Err(GdvmError::InvalidArchiveEntry);
                    }
                    let item = ExtractItem {
                        index: n,
                        relative_path: join_components(&parts, from),
                        is_dir: entry.is_dir,
                        unix_mode: entry.unix_mode,
                    };
                    items.push(item);
                    assert(item_views(items@) =~= before.push(item@));
                }
            },
            None => {},
        }
        n = n + 1;
    }
    Ok(ExtractionPlan { stripped_prefix, items })
}

/// An archive has at most one single top-level directory.
pub proof fn lemma_single_top_is_unique(entries: Seq<ZipEntryInfo>, a: Seq<char>, b: Seq<char>)
    requires
        is_single_top(entries, a),
        is_single_top(entries, b),
    ensures
        a == b,
{
    let i = choose|i: int| 0 <= i < entries.len() && top_of(#[trigger] entries[i]) == Some(a);
    assert(top_of(entries[i]) == Some(b));
}

/// An archive whose members all lie at or below one top-level directory
/// is extracted without that directory, so that what the directory holds
/// lands in the install directory itself; unless the directory is an
/// application bundle, which is kept.
pub proof fn lemma_stripped_prefix(entries: Seq<ZipEntryInfo>, top: Seq<char>, prefix: Option<
    Seq<char>,
>)
    requires
        is_single_top(entries, top),
        is_stripped_prefix(entries, prefix),
    ensures
        prefix == if has_suffix(top, ".app"@) {
            None
        } else {
            Some(top)
        },
{
    if prefix is Some {
        lemma_single_top_is_unique(entries, top, prefix->0);
    }
}

/// An archive whose members all lie at or below `top`, one of them below
/// it, has `top` as its single top-level directory, whether or not it
/// lists a directory as a member of its own; so `top` is left out of
/// every path unless it is an application bundle.
pub proof fn lemma_members_below_top(
    entries: Seq<ZipEntryInfo>,
    top: Seq<char>,
    below: int,
    prefix: Option<Seq<char>>,
)
    requires
        forall|k: int| 0 <= k < entries.len() ==> top_of(#[trigger] entries[k]) == Some(top),
        0 <= below < entries.len(),
        components_of(entries[below].enclosed_name->0@).len() > 1,
        is_stripped_prefix(entries, prefix),
    ensures
        is_single_top(entries, top),
        prefix == if has_suffix(top, ".app"@) {
            None
        } else {
            Some(top)
        },
{
    assert(top_of(entries[below]) == Some(top));
    assert(shows_directory(entries[below]));
    lemma_stripped_prefix(entries, top, prefix);
}

/// What a member becomes where the prefix is stripped: every part of its
/// path but the first; and where none is stripped, all of them.
pub proof fn lemma_planned_paths(entries: Seq<ZipEntryInfo>, stripping: bool, n: int, k: int)
    requires
        0 <= n <= entries.len(),
        0 <= k < planned_items(entries, stripping, n).len(),
    ensures
        ({
            let item = planned_items(entries, stripping, n)[k];
            &&& 0 <= item.index < n
            &&& is_extracted(entries[item.index])
            &&& item.relative_path == joined(
                kept_parts(entries[item.index].enclosed_name->0@, stripping),
            )
            &&& item.is_dir == entries[item.index].is_dir
            &&& item.unix_mode == entries[item.index].unix_mode
        }),
    decreases n,
{
    if n > 0 {
        let front = planned_items(entries, stripping, n - 1);
        if k < front.len() {
            lemma_planned_paths(entries, stripping, n - 1, k);
        }
    }
}

} // verus!
