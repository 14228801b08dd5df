//! Linking an installed engine to a place of the user's choice: which
//! paths are involved. Paths are texts with `/` between their parts.

use vstd::prelude::*;
use vstd::slice::slice_subrange;
use crate::error::GdvmError;
use crate::host::HostOs;
use crate::paths::{join_path, join_spec};
use crate::text::{
    chars_of, eq_str, last_index_of, push_all, push_str, rfind_char, string_of,
};

verus! {

/// The directory part of a path: what precedes its last `/`, the root
/// for a path directly below it, and the empty path where there is no
/// `/`.
pub open spec fn parent_spec(path: Seq<char>) -> Seq<char> {
    let slash = last_index_of(path, '/');
    if slash < 0 {
        Seq::empty()
    } else if slash == 0 {
        seq!['/']
    } else {
        path.take(slash)
    }
}

/// The last part of a path: what follows its last `/`.
pub open spec fn file_name_spec(path: Seq<char>) -> Seq<char> {
    path.skip(last_index_of(path, '/') + 1)
}

/// The application bundle that an executable lies in: for a path of the
/// form `<bundle>/Contents/MacOS/<name>`, the bundle.
pub open spec fn bundle_spec(exe: Seq<char>) -> Option<Seq<char>> {
    let macos_dir = parent_spec(exe);
    let contents_dir = parent_spec(macos_dir);
    if file_name_spec(macos_dir) == "MacOS"@ && file_name_spec(contents_dir) == "Contents"@
        && last_index_of(contents_dir, '/') >= 0 {
        Some(parent_spec(contents_dir))
    } else {
        None
    }
}

/// The name of the console link beside a link named `name`: `_console`
/// goes before the extension, which starts at the last dot that is not
/// the first character; a name without extension gets it at its end.
pub open spec fn console_name_spec(name: Seq<char>) -> Seq<char> {
    let dot = last_index_of(name, '.');
    if dot > 0 {
        name.take(dot) + "_console"@ + name.skip(dot)
    } else {
        name + "_console"@
    }
}

/// The path of the console link beside the link `base_link`; none where
/// the link has no name of its own.
pub open spec fn console_link_spec(base_link: Seq<char>) -> Option<Seq<char>> {
    let name = file_name_spec(base_link);
    if name.len() == 0 || name == ".."@ {
        None
    } else {
        Some(base_link.take(base_link.len() - name.len()) + console_name_spec(name))
    }
}

/// The directory part of a path.
pub fn parent_of(path: &str) -> (r: String)
    ensures
        r@ == parent_spec(path@),
{
    let chars = chars_of(path);
    let s = chars.as_slice();
    match rfind_char(s, '/') {
        None => String::new(),
        Some(i) => {
            if i == 0 {
                let mut out: Vec<char> = Vec::new();
                out.push('/');
                assert(out@ =~= seq!['/']);
                string_of(out.as_slice())
            } else {
                assert(s@.take(i as int) == s@.subrange(0, i as int));
                string_of(slice_subrange(s, 0, i))
            }
        },
    }
}

/// The last part of a path.
pub fn file_name_of(path: &str) -> (r: String)
    ensures
        r@ == file_name_spec(path@),
{
    let chars = chars_of(path);
    let s = chars.as_slice();
    let len = s.len();
    let from: usize = match rfind_char(s, '/') {
        Some(i) => i + 1,
        None => 0,
    };
    assert(s@.skip(from as int) == s@.subrange(from as int, s@.len() as int));
    string_of(slice_subrange(s, from, len))
}

/// The application bundle that an executable lies in, if it lies in one.
pub fn macos_bundle_from_executable(exe: &str) -> (r: Option<String>)
    ensures
        match bundle_spec(exe@) {
            Some(b) => r is Some && r->0@ == b,
            None => r is None,
        },
{
    let macos_dir = parent_of(exe);
    let contents_dir = parent_of(macos_dir.as_str());
    let in_macos = eq_str(chars_of(file_name_of(macos_dir.as_str()).as_str()).as_slice(), "MacOS");
    let in_contents = eq_str(
        chars_of(file_name_of(contents_dir.as_str()).as_str()).as_slice(),
        "Contents",
    );
    let has_bundle = rfind_char(chars_of(contents_dir.as_str()).as_slice(), '/').is_some();
    if in_macos && in_contents && has_bundle {
        Some(parent_of(contents_dir.as_str()))
    } else {
        None
    }
}

/// The path of the console link beside a link.
pub fn build_console_link_path(base_link: &str) -> (r: Option<String>)
    ensures
        match console_link_spec(base_link@) {
            Some(p) => r is Some && r->0@ == p,
            None => r is None,
        },
{
    let chars = chars_of(base_link);
    let s = chars.as_slice();
    let name = file_name_of(base_link);
    let n = chars_of(name.as_str());
    if n.len() == 0 || eq_str(n.as_slice(), "..") {
        return None;
    }
    proof {
        crate::text::lemma_last_index_of(base_link@, '/');
    }
    let mut out = crate::text::copy_range(s, 0, s.len() - n.len());
    assert(out@ == base_link@.take(base_link@.len() - name@.len()));
    match rfind_char(n.as_slice(), '.') {
        Some(dot) => {
            if dot > 0 {
                push_all(&mut out, slice_subrange(n.as_slice(), 0, dot));
                push_str(&mut out, "_console");
                push_all(&mut out, slice_subrange(n.as_slice(), dot, n.len()));
                assert(n@.take(dot as int) == n@.subrange(0, dot as int));
                assert(n@.skip(dot as int) == n@.subrange(dot as int, n@.len() as int));
            } else {
                push_all(&mut out, n.as_slice());
                push_str(&mut out, "_console");
            }
        },
        None => {
            push_all(&mut out, n.as_slice());
            push_str(&mut out, "_console");
        },
    }
    Some(string_of(out.as_slice()))
}

/// Where the `GodotSharp` directory of an install may lie, in the order
/// to look: on macOS below `Resources` of the bundle, and everywhere
/// beside the executable.
pub fn godotsharp_candidates(primary_exe: &str, os: HostOs) -> (r: Vec<String>)
    ensures
        os == HostOs::Macos ==> r@.len() == 2 && r@[0]@ == join_spec(
            join_spec(parent_spec(parent_spec(primary_exe@)), "Resources"@),
            "GodotSharp"@,
        ) && r@[1]@ == join_spec(parent_spec(primary_exe@), "GodotSharp"@),
        os != HostOs::Macos ==> r@.len() == 1 && r@[0]@ == join_spec(
            parent_spec(primary_exe@),
            "GodotSharp"@,
        ),
{
    let parent = parent_of(primary_exe);
    let mut out: Vec<String> = Vec::new();
    match os {
        HostOs::Macos => {
            let contents = parent_of(parent.as_str());
            let resources = join_path(contents.as_str(), "Resources");
            out.push(join_path(resources.as_str(), "GodotSharp"));
        },
        _ => {},
    }
    out.push(join_path(parent.as_str(), "GodotSharp"));
    out
}

/// Where the `GodotSharp` directory is linked to: beside the link.
pub fn godotsharp_link_path(link_path: &str) -> (r: String)
    ensures
        r@ == join_spec(parent_spec(link_path@), "GodotSharp"@),
{
    join_path(parent_of(link_path).as_str(), "GodotSharp")
}

/// Whether what is in the place of a link has to be removed before the
/// link is made: nothing is there to remove where the place is free;
/// something there is removed only where the user forces it, and stands
/// in the way otherwise.
pub fn prepare_link_path(occupied: bool, force: bool) -> (r: Result<bool, GdvmError>)
    ensures
        !occupied ==> r == Ok::<bool, GdvmError>(false),
        occupied && force ==> r == Ok::<bool, GdvmError>(true),
        occupied && !force ==> r is Err && r->Err_0 is LinkExists,
{
    if !occupied {
        Ok(false)
    } else if force {
        Ok(true)
    } else {
        Err(GdvmError::LinkExists)
    }
}

/// The directory `dir` and the directories above it, nearest first, up to
/// the root or, for a relative path, the empty path.
pub open spec fn ancestors_spec(dir: Seq<char>) -> Seq<Seq<char>>
    decreases dir.len(),
{
    if dir.len() == 0 || dir == seq!['/'] {
        seq![dir]
    } else {
        proof {
            lemma_parent_is_shorter(dir);
        }
        seq![dir] + ancestors_spec(parent_spec(dir))
    }
}

/// The directory part of a path is shorter than the path, except for the
/// root and the empty path.
pub proof fn lemma_parent_is_shorter(path: Seq<char>)
    requires
        path.len() > 0,
        path != seq!['/'],
    ensures
        parent_spec(path).len() < path.len(),
{
    crate::text::lemma_last_index_of(path, '/');
    if last_index_of(path, '/') == 0 && path.len() == 1 {
        assert(path =~= seq!['/']);
    }
}

/// Where a file named `file_name` is looked for from `start` upward: in
/// the directory to start from and in each directory above it, nearest
/// first. The directory to start from is `start` itself, or the one that
/// holds it where `start` is a file.
pub open spec fn ancestor_files_spec(start: Seq<char>, start_is_file: bool, file_name: Seq<char>)
    -> Seq<Seq<char>> {
    let dirs = ancestors_spec(
        if start_is_file {
            parent_spec(start)
        } else {
            start
        },
    );
    Seq::new(dirs.len(), |i: int| join_spec(dirs[i], file_name))
}

/// The paths at which a file named `file_name` is looked for from
/// `start` upward, nearest first.
pub fn ancestor_files(start: &str, start_is_file: bool, file_name: &str) -> (r: Vec<String>)
    ensures
        crate::text::string_views(r@) == ancestor_files_spec(start@, start_is_file, file_name@),
{
    let mut dir: String = if start_is_file {
        parent_of(start)
    } else {
        start.to_string()
    };
    let ghost first = dir@;
    let ghost all = ancestors_spec(first);
    let mut out: Vec<String> = Vec::new();
    proof {
        lemma_ancestors_nonempty(first);
        assert(all.take(0) + all =~= all);
    }
    loop
        invariant_except_break
            out@.len() < all.len(),
            all == all.take(out@.len() as int) + ancestors_spec(dir@),
        invariant
            all == ancestors_spec(first),
            first == if start_is_file {
                parent_spec(start@)
            } else {
                start@
            },
            forall|i: int| 0 <= i < out@.len() ==> (#[trigger] out@[i])@ == join_spec(all[i], file_name@),
        ensures
            out@.len() == all.len(),
            forall|i: int| 0 <= i < out@.len() ==> (#[trigger] out@[i])@ == join_spec(all[i], file_name@),
        decreases dir@.len(),
    {
        let chars = chars_of(dir.as_str());
        let at_end = chars.len() == 0 || (chars.len() == 1 && chars[0] == '/');
        proof {
            if chars.len() == 1 && chars[0] == '/' {
                assert(dir@ =~= seq!['/']);
            }
            assert(ancestors_spec(dir@)[0] == dir@);
            assert(all[out@.len() as int] == dir@);
        }
        out.push(join_path(dir.as_str(), file_name));
        if at_end {
            proof {
                assert(ancestors_spec(dir@).len() == 1);
            }
            break;
        }
        proof {
            lemma_parent_is_shorter(dir@);
            let rest = ancestors_spec(parent_spec(dir@));
            assert(ancestors_spec(dir@) == seq![dir@] + rest);
            assert(all.take(out@.len() as int) =~= all.take(out@.len() - 1).push(dir@));
            assert(all =~= all.take(out@.len() as int) + rest);
            lemma_ancestors_nonempty(parent_spec(dir@));
        }
        dir = parent_of(dir.as_str());
    }
    assert(crate::text::string_views(out@) =~= ancestor_files_spec(
        start@,
        start_is_file,
        file_name@,
    ));
    out
}

/// A directory has itself among its ancestors.
pub proof fn lemma_ancestors_nonempty(dir: Seq<char>)
    ensures
        ancestors_spec(dir).len() > 0,
        ancestors_spec(dir)[0] == dir,
{
}

/// One link to make, or one copy where the user asks for copies.
#[derive(Debug)]
pub struct LinkItem {
    /// What the link points at.
    pub target: String,
    /// Where the link is made.
    pub link: String,
    /// The target is a directory.
    pub is_dir: bool,
}

/// The mathematical value of a `LinkItem`.
pub struct LinkView {
    pub target: Seq<char>,
    pub link: Seq<char>,
    pub is_dir: bool,
}

impl View for LinkItem {
    type V = LinkView;

    open spec fn view(&self) -> LinkView {
        LinkView { target: self.target@, link: self.link@, is_dir: self.is_dir }
    }
}

/// The values of the items that a vector holds.
pub open spec fn link_views(items: Seq<LinkItem>) -> Seq<LinkView> {
    Seq::new(items.len(), |i: int| items[i]@)
}

/// The links to make for an install at `link_path`.
///
/// On macOS an engine that lies in an application bundle is linked as
/// that bundle, and nothing else. Otherwise the engine's executable is
/// linked; on Windows its console executable, where it is another file,
/// is linked beside it under the console name; and for the C# variant
/// the `GodotSharp` directory, which must have been found, is linked
/// beside the link.
pub open spec fn link_plan_spec(
    os: HostOs,
    primary_exe: Seq<char>,
    console_exe: Seq<char>,
    link_path: Seq<char>,
    is_csharp: bool,
    godotsharp: Option<Seq<char>>,
) -> Result<Seq<LinkView>, ()> {
    if os == HostOs::Macos && bundle_spec(primary_exe) is Some {
        Ok(seq![LinkView { target: bundle_spec(primary_exe)->0, link: link_path, is_dir: true }])
    } else if is_csharp && godotsharp is None {
        Err(())
    } else {
        let first = seq![LinkView { target: primary_exe, link: link_path, is_dir: false }];
        let console_link = console_link_spec(link_path);
        let second = if os == HostOs::Windows && console_exe != primary_exe && console_link
            is Some && console_link->0 != link_path {
            first.push(LinkView { target: console_exe, link: console_link->0, is_dir: false })
        } else {
            first
        };
        Ok(
            if is_csharp {
                second.push(
                    LinkView {
                        target: godotsharp->0,
                        link: join_spec(parent_spec(link_path), "GodotSharp"@),
                        is_dir: true,
                    },
                )
            } else {
                second
            },
        )
    }
}

/// Plans the links for an install. `console_exe` is the console
/// executable of the install, `godotsharp` its `GodotSharp` directory
/// where it has one.
pub fn plan_links(
    os: HostOs,
    primary_exe: &str,
    console_exe: &str,
    link_path: &str,
    is_csharp: bool,
    godotsharp: Option<&str>,
) -> (r: Result<Vec<LinkItem>, GdvmError>)
    ensures
        match link_plan_spec(
            os,
            primary_exe@,
            console_exe@,
            link_path@,
            is_csharp,
            match godotsharp {
                Some(g) => Some(g@),
                None => None,
            },
        ) {
            Ok(items) => r is Ok && link_views(r->Ok_0@) == items,
            Err(_) => r is Err && r->Err_0 is GodotSharpMissing,
        },
{
    let mut out: Vec<LinkItem> = Vec::new();
    let bundle = match os {
        HostOs::Macos => macos_bundle_from_executable(primary_exe),
        _ => None,
    };
    match bundle {
        Some(b) => {
            let item = LinkItem { target: b, link: link_path.to_string(), is_dir: true };
            out.push(item);
            assert(link_views(out@) =~= seq![item@]);
            return Ok(out);
        },
        None => {},
    }
    if is_csharp && godotsharp.is_none() {
        return Err(GdvmError::GodotSharpMissing);
    }
    let first = LinkItem {
        target: primary_exe.to_string(),
        link: link_path.to_string(),
        is_dir: false,
    };
    out.push(first);
    assert(link_views(out@) =~= seq![first@]);
    match os {
        HostOs::Windows => {
            if !crate::text::str_eq(console_exe, primary_exe) {
                match build_console_link_path(link_path) {
                    Some(console_link) => {
                        if !crate::text::str_eq(console_link.as_str(), link_path) {
                            let ghost before = link_views(out@);
                            let item = LinkItem {
                                target: console_exe.to_string(),
                                link: console_link,
                                is_dir: false,
                            };
                            out.push(item);
                            assert(link_views(out@) =~= before.push(item@));
                        }
                    },
                    None => {},
                }
            }
        },
        _ => {},
    }
    if is_csharp {
        let ghost before = link_views(out@);
        let item = LinkItem {
            target: godotsharp.unwrap().to_string(),
            link: godotsharp_link_path(link_path),
            is_dir: true,
        };
        out.push(item);
        assert(link_views(out@) =~= before.push(item@));
    }
    Ok(out)
}

} // verus!
