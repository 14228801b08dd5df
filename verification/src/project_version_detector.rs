//! Reading the engine version that a `project.godot` file asks for.

use vstd::prelude::*;
use vstd::slice::slice_subrange;
use crate::text::{
    all_digits, chars_of, ends_with, eq_str, find_char, has_infix, has_prefix,
    has_suffix, index_of, contains, lines, lines_of, parse_u32, parse_u32_spec, split, split_on,
    starts_with, string_of, string_views, trim, trim_spec, trim_start, trim_start_spec, views,
};
use crate::links::{ancestor_files, ancestor_files_spec};
use crate::version_utils::{GodotVersion, PartialVersion};

verus! {

/// What was read from a `project.godot` file.
pub struct ParsedProject {
    /// The value of the first `config_version` entry, if it is a number.
    pub config_version: Option<u32>,
    /// The first version-like item of `config/features`.
    pub features_version: Option<String>,
    /// Whether the file has a `[dotnet]` section.
    pub has_dotnet: bool,
}

/// The mathematical value of a `ParsedProject`.
pub struct ProjectFacts {
    pub config_version: Option<u32>,
    pub features_version: Option<Seq<char>>,
    pub has_dotnet: bool,
}

impl View for ParsedProject {
    type V = ProjectFacts;

    open spec fn view(&self) -> ProjectFacts {
        ProjectFacts {
            config_version: self.config_version,
            features_version: match self.features_version {
                Some(t) => Some(t@),
                None => None,
            },
            has_dotnet: self.has_dotnet,
        }
    }
}

/// The contents of a project file, held for parsing.
pub struct ProjectVersionProbe {
    pub contents: String,
}

/// The value of the first line of the form `config_version = value`, if it
/// is a numeral; nothing where there is no such line or its value is no
/// numeral.
pub open spec fn config_version_in(lines: Seq<Seq<char>>) -> Option<u32>
    decreases lines.len(),
{
    if lines.len() == 0 {
        None
    } else {
        let line = lines[0];
        let eq = index_of(line, '=');
        if 0 <= eq < line.len() && trim_spec(line.take(eq)) == "config_version"@ {
            parse_u32_spec(trim_spec(line.skip(eq + 1)))
        } else {
            config_version_in(lines.drop_first())
        }
    }
}

/// A line that opens a section: after leading white space it starts with
/// `[` and ends with `]`.
pub open spec fn is_section_header(line: Seq<char>) -> bool {
    let t = trim_start_spec(line);
    t.len() > 0 && t[0] == '[' && t.last() == ']'
}

/// The lines that stand in `[application]` sections, where
/// `in_application` says whether the first line already stands in one.
pub open spec fn application_lines(lines: Seq<Seq<char>>, in_application: bool) -> Seq<Seq<char>>
    decreases lines.len(),
{
    if lines.len() == 0 {
        Seq::empty()
    } else {
        let line = lines[0];
        let rest = lines.drop_first();
        if is_section_header(line) {
            application_lines(rest, trim_start_spec(line) == "[application]"@)
        } else if in_application {
            seq![line] + application_lines(rest, true)
        } else {
            application_lines(rest, false)
        }
    }
}

/// The double-quoted items of `s`, read from a state: inside quotes or not,
/// just after an escaping backslash or not, and the item read so far.
/// A backslash inside quotes escapes the next character; both stay in the
/// item.
pub open spec fn quoted_items(s: Seq<char>, in_quotes: bool, escaped: bool, current: Seq<char>)
    -> Seq<Seq<char>>
    decreases s.len(),
{
    if s.len() == 0 {
        Seq::empty()
    } else {
        let c = s[0];
        let rest = s.drop_first();
        if c == '"' && !escaped {
            if in_quotes {
                seq![current] + quoted_items(rest, false, false, Seq::empty())
            } else {
                quoted_items(rest, true, false, Seq::empty())
            }
        } else if c == '\\' && in_quotes && !escaped {
            quoted_items(rest, in_quotes, true, current.push(c))
        } else if in_quotes {
            quoted_items(rest, in_quotes, false, current.push(c))
        } else {
            quoted_items(rest, in_quotes, false, current)
        }
    }
}

/// Two or three dot-separated runs of one or more digits.
pub open spec fn version_format(s: Seq<char>) -> bool {
    let parts = split_on(s, '.');
    &&& 2 <= parts.len() <= 3
    &&& forall|i: int|
        0 <= i < parts.len() ==> (#[trigger] parts[i]).len() > 0 && all_digits(parts[i])
}

/// The first item that has the form of a version.
pub open spec fn first_version_like(items: Seq<Seq<char>>) -> Option<Seq<char>>
    decreases items.len(),
{
    if items.len() == 0 {
        None
    } else if version_format(items[0]) {
        Some(items[0])
    } else {
        first_version_like(items.drop_first())
    }
}

/// The version that a line `key=PackedStringArray("..", ..)` names: the
/// first quoted item in the form of a version. Nothing where the line has
/// no `=`, the value is not such an array, or no item is version-like.
pub open spec fn packed_array_version(line: Seq<char>) -> Option<Seq<char>> {
    let eq = index_of(line, '=');
    if !(0 <= eq < line.len()) {
        None
    } else {
        let value = trim_spec(line.skip(eq + 1));
        if !has_prefix(value, "PackedStringArray("@) || !has_suffix(value, ")"@) {
            None
        } else {
            let inner = trim_spec(value.subrange("PackedStringArray("@.len() as int, value.len() - 1));
            first_version_like(quoted_items(inner, false, false, Seq::empty()))
        }
    }
}

/// What `x.y` or `x.y.z` denotes: a request with major and minor number
/// and, where written, the patch number.
pub open spec fn version_string_spec(s: Seq<char>) -> Option<PartialVersion> {
    let parts = split_on(s, '.');
    if parts.len() < 2 || parts.len() > 3 {
        None
    } else if parse_u32_spec(parts[0]) is None || parse_u32_spec(parts[1]) is None {
        None
    } else if parts.len() == 3 && parse_u32_spec(parts[2]) is None {
        None
    } else {
        Some(
            PartialVersion {
                major: parse_u32_spec(parts[0]),
                minor: parse_u32_spec(parts[1]),
                patch: if parts.len() == 3 {
                    parse_u32_spec(parts[2])
                } else {
                    None
                },
                ..PartialVersion::any()
            },
        )
    }
}

/// The first line that, after leading white space, starts with
/// `config/features=`.
pub open spec fn features_line(lines: Seq<Seq<char>>) -> Option<Seq<char>>
    decreases lines.len(),
{
    if lines.len() == 0 {
        None
    } else if has_prefix(trim_start_spec(lines[0]), "config/features="@) {
        Some(lines[0])
    } else {
        features_line(lines.drop_first())
    }
}

/// What a project file states.
pub open spec fn project_facts(contents: Seq<char>) -> ProjectFacts {
    ProjectFacts {
        config_version: config_version_in(lines_of(contents)),
        features_version: match features_line(application_lines(lines_of(contents), false)) {
            Some(line) => packed_array_version(line),
            None => None,
        },
        has_dotnet: has_infix(contents, "[dotnet]"@),
    }
}

/// The version that a project asks for. Configuration version 4 marks a
/// project of engine version 3; otherwise the features entry names the
/// version. The variant flag says whether the project has a `[dotnet]`
/// section.
pub open spec fn detected_spec(p: ProjectFacts) -> Option<PartialVersion> {
    if p.config_version == Some(4u32) {
        Some(
            PartialVersion {
                major: Some(3u32),
                is_csharp: Some(p.has_dotnet),
                ..PartialVersion::any()
            },
        )
    } else {
        match p.features_version {
            None => None,
            Some(text) => match version_string_spec(text) {
                None => None,
                Some(v) => Some(PartialVersion { is_csharp: Some(p.has_dotnet), ..v }),
            },
        }
    }
}

/// Reads the configuration version from the lines of a project file.
pub fn parse_config_version(contents: &str) -> (r: Option<u32>)
    ensures
        r == config_version_in(lines_of(contents@)),
{
    let chars = chars_of(contents);
    let all = lines(chars.as_slice());
    config_version_of(&all)
}

/// The configuration version among lines already split.
fn config_version_of(all: &Vec<Vec<char>>) -> (r: Option<u32>)
    ensures
        r == config_version_in(views(all@)),
{
    let ghost texts = views(all@);
    let mut i: usize = 0;
    assert(texts.skip(0) == texts);
    while i < all.len()
        invariant
            i <= all.len(),
            texts == views(all@),
            config_version_in(texts) == config_version_in(texts.skip(i as int)),
        decreases all.len() - i,
    {
        let line = all[i].as_slice();
        let len = line.len();
        assert(texts.skip(i as int)[0] == line@);
        assert(texts.skip(i as int).drop_first() == texts.skip(i + 1));
        match find_char(line, '=') {
            Some(eq) => {
                let key = trim(slice_subrange(line, 0, eq));
                assert(line@.take(eq as int) == line@.subrange(0, eq as int));
                if eq_str(key, "config_version") {
                    let value = trim(slice_subrange(line, eq + 1, len));
                    assert(line@.skip(eq + 1) == line@.subrange(eq + 1, line@.len() as int));
                    return parse_u32(value);
                }
            },
            None => {},
        }
        i = i + 1;
    }
    None
}

/// Whether a line opens a section.
fn section_header(line: &[char]) -> (r: bool)
    ensures
        r == is_section_header(line@),
{
    let t = trim_start(line);
    t.len() > 0 && t[0] == '[' && t[t.len() - 1] == ']'
}

/// The lines of the `[application]` sections among lines already split.
fn application_section_of(all: &Vec<Vec<char>>) -> (r: Vec<String>)
    ensures
        string_views(r@) == application_lines(views(all@), false),
{
    let ghost texts = views(all@);
    let mut out: Vec<String> = Vec::new();
    let mut in_application = false;
    let mut i: usize = 0;
    assert(texts.skip(0) == texts);
    assert(string_views(out@) + application_lines(texts, false) == application_lines(texts, false));
    while i < all.len()
        invariant
            i <= all.len(),
            texts == views(all@),
            application_lines(texts, false) == string_views(out@) + application_lines(
                texts.skip(i as int),
                in_application,
            ),
        decreases all.len() - i,
    {
        let line = all[i].as_slice();
        assert(texts.skip(i as int)[0] == line@);
        assert(texts.skip(i as int).drop_first() == texts.skip(i + 1));
        if section_header(line) {
            in_application = eq_str(trim_start(line), "[application]");
        } else if in_application {
            let ghost before = string_views(out@);
            let ghost rest = application_lines(texts.skip(i + 1), true);
            out.push(string_of(line));
            assert(string_views(out@) == before.push(line@));
            assert(before.push(line@) + rest == before + (seq![line@] + rest));
        }
        i = i + 1;
    }
    assert(string_views(out@) + Seq::<Seq<char>>::empty() == string_views(out@));
    out
}

/// The lines that stand in `[application]` sections of a project file, or
/// nothing where there is no such line.
pub fn extract_application_section(contents: &str) -> (r: Option<Vec<String>>)
    ensures
        match r {
            Some(v) => v@.len() > 0 && string_views(v@) == application_lines(
                lines_of(contents@),
                false,
            ),
            None => application_lines(lines_of(contents@), false).len() == 0,
        },
{
    let chars = chars_of(contents);
    let all = lines(chars.as_slice());
    let section = application_section_of(&all);
    if section.len() == 0 {
        None
    } else {
        Some(section)
    }
}

/// Whether every character of `s` is a decimal digit, and there is one.
fn is_number(s: &[char]) -> (r: bool)
    ensures
        r == (s@.len() > 0 && all_digits(s@)),
{
    if s.len() == 0 {
        return false;
    }
    let mut i: usize = 0;
    while i < s.len()
        invariant
            i <= s.len(),
            forall|j: int| 0 <= j < i ==> crate::text::is_digit(#[trigger] s@[j]),
        decreases s.len() - i,
    {
        let c = s[i];
        if !(c >= '0' && c <= '9') {
            return false;
        }
        i = i + 1;
    }
    true
}

/// Whether the characters have the form `x.y` or `x.y.z`.
fn version_like(s: &[char]) -> (r: bool)
    ensures
        r == version_format(s@),
{
    let parts = split(s, '.');
    if parts.len() < 2 || parts.len() > 3 {
        return false;
    }
    let ghost texts = views(parts@);
    let mut i: usize = 0;
    while i < parts.len()
        invariant
            i <= parts.len(),
            texts == views(parts@),
            texts == split_on(s@, '.'),
            forall|j: int| 0 <= j < i ==> (#[trigger] texts[j]).len() > 0 && all_digits(texts[j]),
        decreases parts.len() - i,
    {
        if !is_number(parts[i].as_slice()) {
            assert(!(texts[i as int].len() > 0 && all_digits(texts[i as int])));
            return false;
        }
        i = i + 1;
    }
    true
}

/// Whether a text has the form `x.y` or `x.y.z`, each part one or more
/// digits.
pub fn is_version_format(s: &str) -> (r: bool)
    ensures
        r == version_format(s@),
{
    let chars = chars_of(s);
    version_like(chars.as_slice())
}

/// The first version-like quoted item among the characters.
fn first_version_item(inner: &[char]) -> (r: Option<String>)
    ensures
        match first_version_like(quoted_items(inner@, false, false, Seq::empty())) {
            Some(t) => r is Some && r->0@ == t,
            None => r is None,
        },
{
    let ghost all = quoted_items(inner@, false, false, Seq::empty());
    let mut in_quotes = false;
    let mut escaped = false;
    let mut current: Vec<char> = Vec::new();
    let mut i: usize = 0;
    assert(inner@.skip(0) == inner@);
    while i < inner.len()
        invariant
            i <= inner.len(),
            all == quoted_items(inner@, false, false, Seq::empty()),
            first_version_like(all) == first_version_like(
                quoted_items(inner@.skip(i as int), in_quotes, escaped, current@),
            ),
        decreases inner.len() - i,
    {
        let c = inner[i];
        assert(inner@.skip(i as int)[0] == c);
        assert(inner@.skip(i as int).drop_first() == inner@.skip(i + 1));
        if c == '"' && !escaped {
            if in_quotes {
                let ghost rest = quoted_items(inner@.skip(i + 1), false, false, Seq::empty());
                let ghost found = quoted_items(inner@.skip(i as int), in_quotes, escaped, current@);
                assert(found == seq![current@] + rest);
                assert(found[0] == current@);
                assert(found.drop_first() == rest);
                assert(first_version_like(found) == if version_format(current@) {
                    Some(current@)
                } else {
                    first_version_like(rest)
                });
                if version_like(current.as_slice()) {
                    return Some(string_of(current.as_slice()));
                }
            }
            in_quotes = !in_quotes;
            current = Vec::new();
            escaped = false;
        } else if c == '\\' && in_quotes && !escaped {
            current.push(c);
            escaped = true;
        } else {
            if in_quotes {
                current.push(c);
            }
            escaped = false;
        }
        i = i + 1;
    }
    None
}

/// Reads the version out of a line such as
/// `config/features=PackedStringArray("4.3", "Forward Plus")`.
pub fn parse_packed_string_array_for_version(line: &str) -> (r: Option<String>)
    ensures
        match packed_array_version(line@) {
            Some(t) => r is Some && r->0@ == t,
            None => r is None,
        },
{
    let chars = chars_of(line);
    let s = chars.as_slice();
    match find_char(s, '=') {
        None => None,
        Some(eq) => {
            let value = trim(slice_subrange(s, eq + 1, s.len()));
            assert(s@.skip(eq + 1) == s@.subrange(eq + 1, s@.len() as int));
            let opening = chars_of("PackedStringArray(");
            let closing = chars_of(")");
            proof {
                reveal_strlit("PackedStringArray(");
                reveal_strlit(")");
            }
            if !starts_with(value, opening.as_slice()) || !ends_with(value, closing.as_slice()) {
                return None;
            }
            assert(value@.len() >= 19) by {
                assert(value@.subrange(0, 18)[17] == '(');
                assert(value@.subrange(value@.len() - 1, value@.len() as int)[0] == ')');
            }
            let inner = trim(slice_subrange(value, 18, value.len() - 1));
            first_version_item(inner)
        },
    }
}

/// Reads `x.y` or `x.y.z` as a request with those numbers.
pub fn parse_version_string(version: &str) -> (r: Option<GodotVersion>)
    ensures
        match version_string_spec(version@) {
            Some(v) => r is Some && r->0@ == v,
            None => r is None,
        },
{
    let chars = chars_of(version);
    let parts = split(chars.as_slice(), '.');
    if parts.len() < 2 || parts.len() > 3 {
        return None;
    }
    let ghost texts = views(parts@);
    assert(texts[0] == parts@[0]@ && texts[1] == parts@[1]@);
    let major = match parse_u32(parts[0].as_slice()) {
        Some(n) => n,
        None => {
            return None;
        },
    };
    let minor = match parse_u32(parts[1].as_slice()) {
        Some(n) => n,
        None => {
            return None;
        },
    };
    let patch = if parts.len() == 3 {
        assert(texts[2] == parts@[2]@);
        match parse_u32(parts[2].as_slice()) {
            Some(n) => Some(n),
            None => {
                return None;
            },
        }
    } else {
        None
    };
    Some(
        GodotVersion {
            major: Some(major),
            minor: Some(minor),
            patch,
            subpatch: None,
            release_type: None,
            is_csharp: None,
        },
    )
}

/// The first line that names the features, among lines of a section.
fn find_features_line(section: &Vec<String>) -> (r: Option<usize>)
    ensures
        match r {
            Some(i) => i < section@.len() && features_line(string_views(section@)) == Some(
                section@[i as int]@,
            ),
            None => features_line(string_views(section@)) is None,
        },
{
    let ghost texts = string_views(section@);
    let key = chars_of("config/features=");
    let mut i: usize = 0;
    assert(texts.skip(0) == texts);
    while i < section.len()
        invariant
            i <= section.len(),
            texts == string_views(section@),
            key@ == "config/features="@,
            features_line(texts) == features_line(texts.skip(i as int)),
        decreases section.len() - i,
    {
        let line = chars_of(section[i].as_str());
        assert(texts.skip(i as int)[0] == line@);
        assert(texts.skip(i as int).drop_first() == texts.skip(i + 1));
        if starts_with(trim_start(line.as_slice()), key.as_slice()) {
            return Some(i);
        }
        i = i + 1;
    }
    None
}

impl ParsedProject {
    /// Reads the contents of a `project.godot` file.
    pub fn parse_str(contents: &str) -> (r: ParsedProject)
        ensures
            r@ == project_facts(contents@),
    {
        let chars = chars_of(contents);
        let all = lines(chars.as_slice());
        let config_version = config_version_of(&all);
        let marker = chars_of("[dotnet]");
        let has_dotnet = contains(chars.as_slice(), marker.as_slice());
        let section = application_section_of(&all);
        let features_version = match find_features_line(&section) {
            Some(i) => parse_packed_string_array_for_version(section[i].as_str()),
            None => None,
        };
        ParsedProject { config_version, features_version, has_dotnet }
    }

    /// The version that the project asks for, if the file names one.
    pub fn detected_version(&self) -> (r: Option<GodotVersion>)
        ensures
            match detected_spec(self@) {
                Some(v) => r is Some && r->0@ == v,
                None => r is None,
            },
    {
        if self.config_version == Some(4) {
            return Some(
                GodotVersion {
                    major: Some(3),
                    minor: None,
                    patch: None,
                    subpatch: None,
                    release_type: None,
                    is_csharp: Some(self.has_dotnet),
                },
            );
        }
        match &self.features_version {
            None => None,
            Some(text) => match parse_version_string(text.as_str()) {
                None => None,
                Some(gv) => {
                    let mut gv = gv;
                    gv.is_csharp = Some(self.has_dotnet);
                    Some(gv)
                },
            },
        }
    }
}

impl ProjectVersionProbe {
    /// A probe over the contents of a project file that was read.
    pub fn new(contents: String) -> (r: ProjectVersionProbe)
        ensures
            r.contents@ == contents@,
    {
        ProjectVersionProbe { contents }
    }

    /// Parses the contents held.
    pub fn parse(&self) -> (r: ParsedProject)
        ensures
            r@ == project_facts(self.contents@),
    {
        ParsedProject::parse_str(self.contents.as_str())
    }
}

/// The version that the contents of a project file ask for.
pub fn detect_version_in_contents(contents: &str) -> (r: Option<GodotVersion>)
    ensures
        match detected_spec(project_facts(contents@)) {
            Some(v) => r is Some && r->0@ == v,
            None => r is None,
        },
{
    ParsedProject::parse_str(contents).detected_version()
}

/// Where the project file is looked for from `start_path`: in the
/// directory to start from, which is the path itself or the one that
/// holds it where it is a file, and in each directory above it, nearest
/// first. The first of these that exists is the project file.
pub fn project_file_candidates(start_path: &str, start_is_file: bool) -> (r: Vec<String>)
    ensures
        string_views(r@) == ancestor_files_spec(start_path@, start_is_file, "project.godot"@),
{
    ancestor_files(start_path, start_is_file, "project.godot")
}

/// Whether the path is one of the paths listed.
fn is_listed(paths: &Vec<String>, path: &str) -> (r: bool)
    ensures
        r == string_views(paths@).contains(path@),
{
    let ghost all = string_views(paths@);
    let mut i: usize = 0;
    while i < paths.len()
        invariant
            i <= paths.len(),
            all == string_views(paths@),
            forall|j: int| 0 <= j < i ==> #[trigger] all[j] != path@,
        decreases paths.len() - i,
    {
        if crate::text::str_eq(paths[i].as_str(), path) {
            assert(all[i as int] == path@);
            return true;
        }
        i = i + 1;
    }
    false
}

/// The project file for `start_path`: the nearest of the candidates (see
/// `project_file_candidates`) that exists, where `existing` lists the
/// paths that do; nothing where none of the candidates exists.
pub fn find_project_file(start_path: &str, start_is_file: bool, existing: &Vec<String>) -> (r:
    Option<String>)
    ensures
        ({
            let candidates = ancestor_files_spec(start_path@, start_is_file, "project.godot"@);
            let present = string_views(existing@);
            match r {
                Some(found) => exists|k: int|
                    0 <= k < candidates.len() && #[trigger] candidates[k] == found@
                        && present.contains(candidates[k]) && forall|j: int|
                        0 <= j < k ==> !present.contains(#[trigger] candidates[j]),
                None => forall|k: int|
                    0 <= k < candidates.len() ==> !present.contains(#[trigger] candidates[k]),
            }
        }),
{
    let candidates = project_file_candidates(start_path, start_is_file);
    let ghost texts = string_views(candidates@);
    let mut k: usize = 0;
    while k < candidates.len()
        invariant
            k <= candidates.len(),
            texts == string_views(candidates@),
            texts == ancestor_files_spec(start_path@, start_is_file, "project.godot"@),
            forall|j: int|
                0 <= j < k ==> !string_views(existing@).contains(#[trigger] texts[j]),
        decreases candidates.len() - k,
    {
        if is_listed(existing, candidates[k].as_str()) {
            assert(texts[k as int] == candidates@[k as int]@);
            return Some(candidates[k].clone());
        }
        assert(texts[k as int] == candidates@[k as int]@);
        k = k + 1;
    }
    None
}

} // verus!
