//! The version model: partial and concrete versions, their three textual
//! forms, matching, and the newest-first order.

use vstd::prelude::*;
use vstd::slice::slice_subrange;
use crate::error::GdvmError;
use crate::text::{
    chars_of, decimal, ends_with, eq_str, has_prefix, has_suffix, last_index_of,
    parse_u32, parse_u32_spec, push_decimal, push_str, rfind_char, split, split_on, starts_with,
    string_of, views,
};

verus! {

/// A version request in which any part may be left open.
#[derive(Debug)]
pub struct GodotVersion {
    pub major: Option<u32>,
    pub minor: Option<u32>,
    pub patch: Option<u32>,
    pub subpatch: Option<u32>,
    pub release_type: Option<String>,
    pub is_csharp: Option<bool>,
}

/// A version with every number and the release type set.
#[derive(Debug)]
pub struct GodotVersionDeterminate {
    pub major: u32,
    pub minor: u32,
    pub patch: u32,
    pub subpatch: u32,
    pub release_type: String,
    pub is_csharp: Option<bool>,
}

/// The mathematical value of a `GodotVersion`.
pub struct PartialVersion {
    pub major: Option<u32>,
    pub minor: Option<u32>,
    pub patch: Option<u32>,
    pub subpatch: Option<u32>,
    pub release_type: Option<Seq<char>>,
    pub is_csharp: Option<bool>,
}

/// The mathematical value of a `GodotVersionDeterminate`.
pub struct ConcreteVersion {
    pub major: u32,
    pub minor: u32,
    pub patch: u32,
    pub subpatch: u32,
    pub release_type: Seq<char>,
    pub is_csharp: Option<bool>,
}

impl View for GodotVersion {
    type V = PartialVersion;

    open spec fn view(&self) -> PartialVersion {
        PartialVersion {
            major: self.major,
            minor: self.minor,
            patch: self.patch,
            subpatch: self.subpatch,
            release_type: match self.release_type {
                Some(t) => Some(t@),
                None => None,
            },
            is_csharp: self.is_csharp,
        }
    }
}

impl View for GodotVersionDeterminate {
    type V = ConcreteVersion;

    open spec fn view(&self) -> ConcreteVersion {
        ConcreteVersion {
            major: self.major,
            minor: self.minor,
            patch: self.patch,
            subpatch: self.subpatch,
            release_type: self.release_type@,
            is_csharp: self.is_csharp,
        }
    }
}

impl Clone for GodotVersion {
    fn clone(&self) -> (r: Self)
        ensures
            r@ == self@,
    {
        GodotVersion {
            major: self.major,
            minor: self.minor,
            patch: self.patch,
            subpatch: self.subpatch,
            release_type: match &self.release_type {
                Some(t) => Some(t.clone()),
                None => None,
            },
            is_csharp: self.is_csharp,
        }
    }
}

impl Clone for GodotVersionDeterminate {
    fn clone(&self) -> (r: Self)
        ensures
            r@ == self@,
    {
        GodotVersionDeterminate {
            major: self.major,
            minor: self.minor,
            patch: self.patch,
            subpatch: self.subpatch,
            release_type: self.release_type.clone(),
            is_csharp: self.is_csharp,
        }
    }
}

impl From<GodotVersionDeterminate> for GodotVersion {
    /// The concrete version as a request with every part but the flag set.
    fn from(gvd: GodotVersionDeterminate) -> (r: Self) {
        GodotVersion {
            major: Some(gvd.major),
            minor: Some(gvd.minor),
            patch: Some(gvd.patch),
            subpatch: Some(gvd.subpatch),
            release_type: Some(gvd.release_type),
            is_csharp: gvd.is_csharp,
        }
    }
}

impl vstd::std_specs::convert::FromSpecImpl<GodotVersionDeterminate> for GodotVersion {
    open spec fn obeys_from_spec() -> bool {
        true
    }

    open spec fn from_spec(gvd: GodotVersionDeterminate) -> GodotVersion {
        GodotVersion {
            major: Some(gvd.major),
            minor: Some(gvd.minor),
            patch: Some(gvd.patch),
            subpatch: Some(gvd.subpatch),
            release_type: Some(gvd.release_type),
            is_csharp: gvd.is_csharp,
        }
    }
}

impl From<GodotVersion> for GodotVersionDeterminate {
    /// The request with zero for each open number and the empty release
    /// type for an open one.
    fn from(gv: GodotVersion) -> (r: Self)
        ensures
            r@ == gv@.to_determinate(),
    {
        gv.to_determinate()
    }
}

impl vstd::std_specs::convert::FromSpecImpl<GodotVersion> for GodotVersionDeterminate {
    /// Nothing is stated through `from_spec`: what `from` returns is stated
    /// by `from` itself, over the values of request and version.
    open spec fn obeys_from_spec() -> bool {
        false
    }

    open spec fn from_spec(gv: GodotVersion) -> GodotVersionDeterminate {
        arbitrary()
    }
}

impl Default for GodotVersion {
    fn default() -> (r: Self)
        ensures
            r@ == PartialVersion::any(),
    {
        GodotVersion {
            major: None,
            minor: None,
            patch: None,
            subpatch: None,
            release_type: None,
            is_csharp: None,
        }
    }
}

impl Default for GodotVersionDeterminate {
    fn default() -> (r: Self)
        ensures
            r@ == (ConcreteVersion {
                major: 0,
                minor: 0,
                patch: 0,
                subpatch: 0,
                release_type: "stable"@,
                is_csharp: None,
            }),
    {
        GodotVersionDeterminate {
            major: 0,
            minor: 0,
            patch: 0,
            subpatch: 0,
            release_type: "stable".to_string(),
            is_csharp: None,
        }
    }
}

/// The `i`-th of the numbers read, if that many were read.
pub open spec fn component(nums: Seq<u32>, i: int) -> Option<u32> {
    if 0 <= i < nums.len() {
        Some(nums[i])
    } else {
        None
    }
}

/// The numbers that dot-separated pieces denote, if each piece is a numeral.
pub open spec fn parse_numbers_spec(pieces: Seq<Seq<char>>) -> Option<Seq<u32>> {
    if forall|i: int| 0 <= i < pieces.len() ==> (#[trigger] parse_u32_spec(pieces[i])) is Some {
        Some(Seq::new(pieces.len(), |i: int| parse_u32_spec(pieces[i])->0))
    } else {
        None
    }
}

/// What a version string denotes.
///
/// In the install form (`remote` false) a final `-csharp` sets the variant
/// flag and is taken off; in the registry form the flag stays open.
/// What follows the last hyphen is the release type, what precedes it, or
/// the whole text where there is no hyphen, is one to four dot-separated
/// numerals.
pub open spec fn parse_version_spec(raw: Seq<char>, remote: bool) -> Option<PartialVersion> {
    let strip = !remote && has_suffix(raw, "-csharp"@);
    let without = if strip {
        raw.take(raw.len() - "-csharp"@.len())
    } else {
        raw
    };
    let dash = last_index_of(without, '-');
    let numbers_text = if dash >= 0 {
        without.take(dash)
    } else {
        without
    };
    let pieces = split_on(numbers_text, '.');
    if pieces.len() > 4 {
        None
    } else {
        match parse_numbers_spec(pieces) {
            None => None,
            Some(nums) => Some(
                PartialVersion {
                    major: component(nums, 0),
                    minor: component(nums, 1),
                    patch: component(nums, 2),
                    subpatch: component(nums, 3),
                    release_type: if dash >= 0 {
                        Some(without.skip(dash + 1))
                    } else {
                        None
                    },
                    is_csharp: if remote {
                        None
                    } else {
                        Some(strip)
                    },
                },
            ),
        }
    }
}

/// What a user-entered shorthand denotes: the word `stable` alone asks for
/// any stable release, anything else is read in the registry form.
pub open spec fn parse_match_spec(s: Seq<char>) -> Option<PartialVersion> {
    if s == "stable"@ {
        Some(PartialVersion { release_type: Some("stable"@), ..PartialVersion::any() })
    } else {
        parse_version_spec(s, true)
    }
}

/// `r` reports `expected`: the version where there is one, else the
/// invalid-version error.
pub open spec fn reports(r: Result<GodotVersion, GdvmError>, expected: Option<PartialVersion>)
    -> bool {
    match expected {
        Some(v) => r is Ok && r->Ok_0@ == v,
        None => r is Err && r->Err_0 is InvalidVersionString,
    }
}

/// Two optional fields do not contradict each other.
pub open spec fn field_agrees<T>(a: Option<T>, b: Option<T>) -> bool {
    a is None || b is None || a == b
}

/// How many of the four numbers the short form of a version shows.
pub open spec fn shown_count(minor_present: bool, patch: u32, subpatch: u32) -> int {
    if subpatch != 0 {
        4
    } else if patch != 0 {
        3
    } else if minor_present {
        2
    } else {
        1
    }
}

/// The first `count` of four numbers, written in decimal and joined by dots.
pub open spec fn dotted(major: u32, minor: u32, patch: u32, subpatch: u32, count: int) -> Seq<
    char,
> {
    let one = decimal(major as nat);
    let two = one + seq!['.'] + decimal(minor as nat);
    let three = two + seq!['.'] + decimal(patch as nat);
    let four = three + seq!['.'] + decimal(subpatch as nat);
    if count <= 1 {
        one
    } else if count == 2 {
        two
    } else if count == 3 {
        three
    } else {
        four
    }
}

/// How release types rank when versions are ordered: `stable` (or none)
/// above `rc`, above `beta`, above `dev`, above anything else.
pub open spec fn priority_spec(release_type: Seq<char>) -> int {
    if release_type.len() == 0 || has_prefix(release_type, "stable"@) {
        4
    } else if has_prefix(release_type, "rc"@) {
        3
    } else if has_prefix(release_type, "beta"@) {
        2
    } else if has_prefix(release_type, "dev"@) {
        1
    } else {
        0
    }
}

impl PartialVersion {
    /// The request that leaves everything open.
    pub open spec fn any() -> PartialVersion {
        PartialVersion {
            major: None,
            minor: None,
            patch: None,
            subpatch: None,
            release_type: None,
            is_csharp: None,
        }
    }

    /// A later number is set only if the one before it is.
    pub open spec fn well_formed(self) -> bool {
        &&& self.subpatch is Some ==> self.patch is Some
        &&& self.patch is Some ==> self.minor is Some
    }

    /// The numbers in their shortest form, where the version has a major
    /// number and no gap among the numbers that are set.
    pub open spec fn numbers_text(self) -> Option<Seq<char>> {
        if self.major is None || !self.well_formed() {
            None
        } else {
            Some(
                dotted(
                    self.major->0,
                    self.minor.unwrap_or(0),
                    self.patch.unwrap_or(0),
                    self.subpatch.unwrap_or(0),
                    shown_count(
                        self.minor is Some,
                        self.patch.unwrap_or(0),
                        self.subpatch.unwrap_or(0),
                    ),
                ),
            )
        }
    }

    /// The registry tag: the numbers, then a hyphen and the release type
    /// where one is set.
    pub open spec fn remote_text(self) -> Option<Seq<char>> {
        match self.numbers_text() {
            None => None,
            Some(n) => Some(
                match self.release_type {
                    Some(t) => n + seq!['-'] + t,
                    None => n,
                },
            ),
        }
    }

    /// The registry tag, marked ` (C#)` for the C# variant.
    pub open spec fn display_text(self) -> Option<Seq<char>> {
        match self.remote_text() {
            None => None,
            Some(t) => Some(
                if self.is_csharp == Some(true) {
                    t + " (C#)"@
                } else {
                    t
                },
            ),
        }
    }

    /// The release type is exactly `stable`.
    pub open spec fn is_stable(self) -> bool {
        self.release_type == Some("stable"@)
    }

    /// Something needed to name one release is missing: the major, minor or
    /// patch number or the release type; for `2.0.4`, the sub-patch number
    /// or the release type.
    pub open spec fn is_incomplete(self) -> bool {
        if self.major == Some(2u32) && self.minor == Some(0u32) && self.patch == Some(4u32) {
            self.subpatch is None || self.release_type is None
        } else {
            self.major is None || self.minor is None || self.patch is None
                || self.release_type is None
        }
    }

    /// The concrete version with zero for each open number and the empty
    /// release type for an open one.
    pub open spec fn to_determinate(self) -> ConcreteVersion {
        ConcreteVersion {
            major: self.major.unwrap_or(0),
            minor: self.minor.unwrap_or(0),
            patch: self.patch.unwrap_or(0),
            subpatch: self.subpatch.unwrap_or(0),
            release_type: match self.release_type {
                Some(t) => t,
                None => Seq::empty(),
            },
            is_csharp: self.is_csharp,
        }
    }

    /// No field that both versions set differs between them.
    pub open spec fn matches(self, other: PartialVersion) -> bool {
        &&& field_agrees(self.major, other.major)
        &&& field_agrees(self.minor, other.minor)
        &&& field_agrees(self.patch, other.patch)
        &&& field_agrees(self.subpatch, other.subpatch)
        &&& field_agrees(self.release_type, other.release_type)
        &&& field_agrees(self.is_csharp, other.is_csharp)
    }

    /// The two requests cannot both be met: a number or the release type
    /// that both set differs, or one of them sets the variant flag and the
    /// flags, an open one counting as "not C#", differ.
    pub open spec fn conflicts_with(self, other: PartialVersion) -> bool {
        ||| !field_agrees(self.major, other.major)
        ||| !field_agrees(self.minor, other.minor)
        ||| !field_agrees(self.patch, other.patch)
        ||| !field_agrees(self.subpatch, other.subpatch)
        ||| !field_agrees(self.release_type, other.release_type)
        ||| ((self.is_csharp is Some || other.is_csharp is Some) && self.is_csharp.unwrap_or(false)
            != other.is_csharp.unwrap_or(false))
    }
}

impl ConcreteVersion {
    /// `M.m`, then `.p` if the patch or sub-patch number is not zero or
    /// `fully_qualified` asks for it, then `.s` if the sub-patch number is
    /// not zero.
    pub open spec fn numbers_text(self, fully_qualified: bool) -> Seq<char> {
        dotted(
            self.major,
            self.minor,
            self.patch,
            self.subpatch,
            if self.subpatch != 0 {
                4
            } else if self.patch != 0 || fully_qualified {
                3
            } else {
                2
            },
        )
    }

    /// The registry tag: numbers, hyphen, release type.
    pub open spec fn remote_text(self) -> Seq<char> {
        self.numbers_text(false) + seq!['-'] + self.release_type
    }

    /// Whether the version asks for the C# variant; an open flag does not.
    pub open spec fn wants_csharp(self) -> bool {
        self.is_csharp == Some(true)
    }

    /// The install folder name: the registry tag, with `-csharp` for the C#
    /// variant.
    pub open spec fn install_text(self) -> Seq<char> {
        if self.wants_csharp() {
            self.remote_text() + "-csharp"@
        } else {
            self.remote_text()
        }
    }

    /// The pin file content: as the install folder name, with the patch
    /// number always written.
    pub open spec fn pinned_text(self) -> Seq<char> {
        let base = self.numbers_text(true) + seq!['-'] + self.release_type;
        if self.wants_csharp() {
            base + "-csharp"@
        } else {
            base
        }
    }

    /// The registry tag, marked ` (C#)` for the C# variant.
    pub open spec fn display_text(self) -> Seq<char> {
        if self.wants_csharp() {
            self.remote_text() + " (C#)"@
        } else {
            self.remote_text()
        }
    }

    /// The release type is exactly `stable`.
    pub open spec fn is_stable(self) -> bool {
        self.release_type == "stable"@
    }

    /// The same version as a request with every field but the flag set.
    pub open spec fn to_indeterminate(self) -> PartialVersion {
        PartialVersion {
            major: Some(self.major),
            minor: Some(self.minor),
            patch: Some(self.patch),
            subpatch: Some(self.subpatch),
            release_type: Some(self.release_type),
            is_csharp: self.is_csharp,
        }
    }

    /// `self` is ordered before `other`, newest first: its numbers are
    /// higher, read as major, minor, patch, sub-patch, or they are the same
    /// and its release type ranks higher.
    pub open spec fn newer_than(self, other: ConcreteVersion) -> bool {
        if self.major != other.major {
            self.major > other.major
        } else if self.minor != other.minor {
            self.minor > other.minor
        } else if self.patch != other.patch {
            self.patch > other.patch
        } else if self.subpatch != other.subpatch {
            self.subpatch > other.subpatch
        } else {
            priority_spec(self.release_type) > priority_spec(other.release_type)
        }
    }
}

/// Reads each dot-separated piece as a numeral.
fn parse_numbers(pieces: &Vec<Vec<char>>) -> (r: Option<Vec<u32>>)
    ensures
        match parse_numbers_spec(views(pieces@)) {
            Some(nums) => r is Some && r->0@ == nums,
            None => r is None,
        },
{
    let ghost texts = views(pieces@);
    let mut nums: Vec<u32> = Vec::new();
    let mut i: usize = 0;
    while i < pieces.len()
        invariant
            i <= pieces.len(),
            texts == views(pieces@),
            nums@.len() == i,
            forall|j: int| 0 <= j < i ==> (#[trigger] parse_u32_spec(texts[j])) == Some(nums@[j]),
        decreases pieces.len() - i,
    {
        match parse_u32(pieces[i].as_slice()) {
            Some(n) => {
                nums.push(n);
            },
            None => {
                assert(parse_u32_spec(texts[i as int]) is None);
                return None;
            },
        }
        i = i + 1;
    }
    assert(nums@ =~= Seq::new(texts.len(), |i: int| parse_u32_spec(texts[i])->0));
    Some(nums)
}

/// The `i`-th number read, if that many were read.
fn nth_number(nums: &Vec<u32>, i: usize) -> (r: Option<u32>)
    ensures
        r == component(nums@, i as int),
{
    if i < nums.len() {
        Some(nums[i])
    } else {
        None
    }
}

impl GodotVersion {
    /// Reads an install folder name, such as `4.1.1-rc1-csharp`.
    pub fn from_install_str(s: &str) -> (r: Result<GodotVersion, GdvmError>)
        ensures
            reports(r, parse_version_spec(s@, false)),
    {
        Self::parse_with_csharp_and_pre_release(s, false)
    }

    /// Reads a registry tag, such as `4.1-stable`; the variant flag is the
    /// one given.
    pub fn from_remote_str(s: &str, is_csharp: Option<bool>) -> (r: Result<
        GodotVersion,
        GdvmError,
    >)
        ensures
            reports(
                r,
                match parse_version_spec(s@, true) {
                    Some(v) => Some(PartialVersion { is_csharp: is_csharp, ..v }),
                    None => None,
                },
            ),
    {
        match Self::parse_with_csharp_and_pre_release(s, true) {
            Ok(gv) => {
                let mut gv = gv;
                gv.is_csharp = is_csharp;
                Ok(gv)
            },
            Err(e) => Err(e),
        }
    }

    /// Reads a version in the install form or, with `remote`, in the
    /// registry form.
    pub fn parse_with_csharp_and_pre_release(raw: &str, remote: bool) -> (r: Result<
        GodotVersion,
        GdvmError,
    >)
        ensures
            reports(r, parse_version_spec(raw@, remote)),
    {
        let chars = chars_of(raw);
        let suffix = chars_of("-csharp");
        proof {
            reveal_strlit("-csharp");
        }
        let strip = !remote && ends_with(chars.as_slice(), suffix.as_slice());
        let end: usize = if strip {
            chars.len() - 7
        } else {
            chars.len()
        };
        let without = slice_subrange(chars.as_slice(), 0, end);
        assert(without@ == if strip {
            raw@.take(raw@.len() - "-csharp"@.len())
        } else {
            raw@
        });
        let is_csharp = if remote {
            None
        } else {
            Some(strip)
        };
        let dash = rfind_char(without, '-');
        let numbers_end: usize = match dash {
            Some(i) => i,
            None => without.len(),
        };
        let release_type: Option<String> = match dash {
            Some(i) => Some(string_of(slice_subrange(without, i + 1, without.len()))),
            None => None,
        };
        let numbers_text = slice_subrange(without, 0, numbers_end);
        assert(numbers_text@ == if last_index_of(without@, '-') >= 0 {
            without@.take(last_index_of(without@, '-'))
        } else {
            without@
        });
        let pieces = split(numbers_text, '.');
        if pieces.len() > 4 {
            return Err(GdvmError::InvalidVersionString);
        }
        match parse_numbers(&pieces) {
            None => Err(GdvmError::InvalidVersionString),
            Some(nums) => Ok(
                GodotVersion {
                    major: nth_number(&nums, 0),
                    minor: nth_number(&nums, 1),
                    patch: nth_number(&nums, 2),
                    subpatch: nth_number(&nums, 3),
                    release_type,
                    is_csharp,
                },
            ),
        }
    }

    /// Reads a user-entered shorthand, such as `stable`, `4` or `3.5-rc1`.
    pub fn from_match_str(s: &str) -> (r: Result<GodotVersion, GdvmError>)
        ensures
            reports(r, parse_match_spec(s@)),
    {
        let chars = chars_of(s);
        if eq_str(chars.as_slice(), "stable") {
            return Ok(
                GodotVersion {
                    major: None,
                    minor: None,
                    patch: None,
                    subpatch: None,
                    release_type: Some("stable".to_string()),
                    is_csharp: None,
                },
            );
        }
        Self::from_remote_str(s, None)
    }
}

/// Appends the first `count` of four numbers, joined by dots.
fn push_dotted(out: &mut Vec<char>, major: u32, minor: u32, patch: u32, subpatch: u32, count: u8)
    ensures
        final(out)@ == old(out)@ + dotted(major, minor, patch, subpatch, count as int),
{
    push_decimal(out, major as u64);
    if count >= 2 {
        out.push('.');
        push_decimal(out, minor as u64);
    }
    if count >= 3 {
        out.push('.');
        push_decimal(out, patch as u64);
    }
    if count >= 4 {
        out.push('.');
        push_decimal(out, subpatch as u64);
    }
    proof {
        let base = old(out)@;
        let one = decimal(major as nat);
        let two = one + seq!['.'] + decimal(minor as nat);
        let three = two + seq!['.'] + decimal(patch as nat);
        let four = three + seq!['.'] + decimal(subpatch as nat);
        assert((base + one).push('.') + decimal(minor as nat) == base + two);
        assert((base + two).push('.') + decimal(patch as nat) == base + three);
        assert((base + three).push('.') + decimal(subpatch as nat) == base + four);
    }
}

/// The value of an optional number, zero where it is open.
fn or_zero(n: Option<u32>) -> (r: u32)
    ensures
        r == n.unwrap_or(0),
{
    match n {
        Some(v) => v,
        None => 0,
    }
}

/// Whether two optional numbers do not contradict each other.
fn numbers_agree(a: Option<u32>, b: Option<u32>) -> (r: bool)
    ensures
        r == field_agrees(a, b),
{
    match (a, b) {
        (Some(x), Some(y)) => x == y,
        _ => true,
    }
}

/// Whether two optional flags do not contradict each other.
fn flags_agree(a: Option<bool>, b: Option<bool>) -> (r: bool)
    ensures
        r == field_agrees(a, b),
{
    match (a, b) {
        (Some(x), Some(y)) => x == y,
        _ => true,
    }
}

/// Whether `release_type` is exactly `stable`.
fn is_stable_text(release_type: &String) -> (r: bool)
    ensures
        r == (release_type@ == "stable"@),
{
    let chars = chars_of(release_type.as_str());
    eq_str(chars.as_slice(), "stable")
}

impl GodotVersion {
    /// The numbers in their shortest form (`4.0.0.0` gives `4.0`), or
    /// nothing where the major number is open or a number is set after an
    /// open one.
    pub fn to_version_string(&self) -> (r: Option<String>)
        ensures
            match self@.numbers_text() {
                Some(t) => r is Some && r->0@ == t,
                None => r is None,
            },
    {
        if self.subpatch.is_some() && self.patch.is_none() {
            return None;
        }
        if self.patch.is_some() && self.minor.is_none() {
            return None;
        }
        match self.major {
            None => None,
            Some(major) => {
                let patch = or_zero(self.patch);
                let subpatch = or_zero(self.subpatch);
                let count: u8 = if subpatch != 0 {
                    4
                } else if patch != 0 {
                    3
                } else if self.minor.is_some() {
                    2
                } else {
                    1
                };
                let mut out: Vec<char> = Vec::new();
                push_dotted(&mut out, major, or_zero(self.minor), patch, subpatch, count);
                assert(Seq::<char>::empty() + self@.numbers_text()->0 == self@.numbers_text()->0);
                Some(string_of(out.as_slice()))
            },
        }
    }

    /// The registry tag, such as `4.1.1-rc1`, where the numbers can be
    /// written.
    pub fn to_remote_str(&self) -> (r: Option<String>)
        ensures
            match self@.remote_text() {
                Some(t) => r is Some && r->0@ == t,
                None => r is None,
            },
    {
        match self.to_version_string() {
            None => None,
            Some(numbers) => {
                let mut out = chars_of(numbers.as_str());
                match &self.release_type {
                    Some(t) => {
                        out.push('-');
                        push_str(&mut out, t.as_str());
                        assert(out@ == numbers@ + seq!['-'] + t@);
                    },
                    None => {},
                }
                Some(string_of(out.as_slice()))
            },
        }
    }

    /// The registry tag, followed by ` (C#)` for the C# variant.
    pub fn to_display_str(&self) -> (r: Option<String>)
        ensures
            match self@.display_text() {
                Some(t) => r is Some && r->0@ == t,
                None => r is None,
            },
    {
        match self.to_remote_str() {
            None => None,
            Some(tag) => {
                let mut out = chars_of(tag.as_str());
                if self.is_csharp == Some(true) {
                    push_str(&mut out, " (C#)");
                }
                Some(string_of(out.as_slice()))
            },
        }
    }

    /// Whether the release type is `stable`.
    pub fn is_stable(&self) -> (r: bool)
        ensures
            r == self@.is_stable(),
    {
        match &self.release_type {
            Some(t) => is_stable_text(t),
            None => false,
        }
    }

    /// Whether something needed to name one release is missing.
    pub fn is_incomplete(&self) -> (r: bool)
        ensures
            r == self@.is_incomplete(),
    {
        if self.major == Some(2) && self.minor == Some(0) && self.patch == Some(4) {
            self.subpatch.is_none() || self.release_type.is_none()
        } else {
            self.major.is_none() || self.minor.is_none() || self.patch.is_none()
                || self.release_type.is_none()
        }
    }

    /// The concrete version with every open part zero-filled.
    pub fn to_determinate(&self) -> (r: GodotVersionDeterminate)
        ensures
            r@ == self@.to_determinate(),
    {
        GodotVersionDeterminate {
            major: or_zero(self.major),
            minor: or_zero(self.minor),
            patch: or_zero(self.patch),
            subpatch: or_zero(self.subpatch),
            release_type: match &self.release_type {
                Some(t) => t.clone(),
                None => String::new(),
            },
            is_csharp: self.is_csharp,
        }
    }

    /// Whether `other` fits this request; open parts on either side fit
    /// anything.
    pub fn matches(&self, other: &GodotVersion) -> (r: bool)
        ensures
            r == self@.matches(other@),
    {
        let types_agree = match (&self.release_type, &other.release_type) {
            (Some(a), Some(b)) => *a == *b,
            _ => true,
        };
        numbers_agree(self.major, other.major) && numbers_agree(self.minor, other.minor)
            && numbers_agree(self.patch, other.patch) && numbers_agree(
            self.subpatch,
            other.subpatch,
        ) && types_agree && flags_agree(self.is_csharp, other.is_csharp)
    }

    /// Whether the concrete version `other` fits this request.
    pub fn matches_determinate(&self, other: &GodotVersionDeterminate) -> (r: bool)
        ensures
            r == self@.matches(other@.to_indeterminate()),
    {
        let types_agree = match &self.release_type {
            Some(a) => *a == other.release_type,
            None => true,
        };
        numbers_agree(self.major, Some(other.major)) && numbers_agree(
            self.minor,
            Some(other.minor),
        ) && numbers_agree(self.patch, Some(other.patch)) && numbers_agree(
            self.subpatch,
            Some(other.subpatch),
        ) && types_agree && flags_agree(self.is_csharp, other.is_csharp)
    }

    /// Whether this request and `other` cannot both be met.
    pub fn conflicts_with(&self, other: &GodotVersion) -> (r: bool)
        ensures
            r == self@.conflicts_with(other@),
    {
        let types_agree = match (&self.release_type, &other.release_type) {
            (Some(a), Some(b)) => *a == *b,
            _ => true,
        };
        let flag_given = self.is_csharp.is_some() || other.is_csharp.is_some();
        let mine = match self.is_csharp {
            Some(b) => b,
            None => false,
        };
        let theirs = match other.is_csharp {
            Some(b) => b,
            None => false,
        };
        !numbers_agree(self.major, other.major) || !numbers_agree(self.minor, other.minor)
            || !numbers_agree(self.patch, other.patch) || !numbers_agree(
            self.subpatch,
            other.subpatch,
        ) || !types_agree || (flag_given && mine != theirs)
    }
}

impl GodotVersionDeterminate {
    /// The numbers: `M.m`, the patch number if it or the sub-patch number
    /// is not zero or `fully_qualified` is set, the sub-patch number if it
    /// is not zero.
    pub fn to_version_string(&self, fully_qualified: bool) -> (r: String)
        ensures
            r@ == self@.numbers_text(fully_qualified),
    {
        let count: u8 = if self.subpatch != 0 {
            4
        } else if self.patch != 0 || fully_qualified {
            3
        } else {
            2
        };
        let mut out: Vec<char> = Vec::new();
        push_dotted(&mut out, self.major, self.minor, self.patch, self.subpatch, count);
        assert(Seq::<char>::empty() + self@.numbers_text(fully_qualified) == self@.numbers_text(
            fully_qualified,
        ));
        string_of(out.as_slice())
    }

    /// The registry tag, such as `4.3-stable`.
    pub fn to_remote_str(&self) -> (r: String)
        ensures
            r@ == self@.remote_text(),
    {
        let numbers = self.to_version_string(false);
        let mut out = chars_of(numbers.as_str());
        out.push('-');
        push_str(&mut out, self.release_type.as_str());
        string_of(out.as_slice())
    }

    /// The install folder name, such as `4.3-stable-csharp`.
    pub fn to_install_str(&self) -> (r: String)
        ensures
            r@ == self@.install_text(),
    {
        let tag = self.to_remote_str();
        let mut out = chars_of(tag.as_str());
        if self.is_csharp == Some(true) {
            push_str(&mut out, "-csharp");
        }
        string_of(out.as_slice())
    }

    /// The pin file content, such as `4.1.0-stable-csharp`.
    pub fn to_pinned_str(&self) -> (r: String)
        ensures
            r@ == self@.pinned_text(),
    {
        let numbers = self.to_version_string(true);
        let mut out = chars_of(numbers.as_str());
        out.push('-');
        push_str(&mut out, self.release_type.as_str());
        if self.is_csharp == Some(true) {
            push_str(&mut out, "-csharp");
        }
        string_of(out.as_slice())
    }

    /// The text shown to the user, such as `4.3-stable (C#)`.
    pub fn to_display_str(&self) -> (r: String)
        ensures
            r@ == self@.display_text(),
    {
        let tag = self.to_remote_str();
        let mut out = chars_of(tag.as_str());
        if self.is_csharp == Some(true) {
            push_str(&mut out, " (C#)");
        }
        string_of(out.as_slice())
    }

    /// Whether the release type is `stable`.
    pub fn is_stable(&self) -> (r: bool)
        ensures
            r == self@.is_stable(),
    {
        is_stable_text(&self.release_type)
    }

    /// The same version as a request.
    pub fn to_indeterminate(&self) -> (r: GodotVersion)
        ensures
            r@ == self@.to_indeterminate(),
    {
        GodotVersion {
            major: Some(self.major),
            minor: Some(self.minor),
            patch: Some(self.patch),
            subpatch: Some(self.subpatch),
            release_type: Some(self.release_type.clone()),
            is_csharp: self.is_csharp,
        }
    }
}

/// The rank of a release type in the newest-first order: 4 for `stable` or
/// none, 3 for `rc`, 2 for `beta`, 1 for `dev`, 0 for anything else.
pub fn get_pre_release_priority(pre_release: &str) -> (r: i32)
    ensures
        r == priority_spec(pre_release@),
{
    let chars = chars_of(pre_release);
    let s = chars.as_slice();
    if s.len() == 0 || starts_with(s, chars_of("stable").as_slice()) {
        4
    } else if starts_with(s, chars_of("rc").as_slice()) {
        3
    } else if starts_with(s, chars_of("beta").as_slice()) {
        2
    } else if starts_with(s, chars_of("dev").as_slice()) {
        1
    } else {
        0
    }
}

/// The values of the versions that a vector holds.
pub open spec fn concrete_views(v: Seq<GodotVersionDeterminate>) -> Seq<ConcreteVersion> {
    Seq::new(v.len(), |i: int| v[i]@)
}

/// `sorted` with `x` put in before the first version that `x` is newer than,
/// or at the end where there is none.
pub open spec fn insert_by_age(sorted: Seq<ConcreteVersion>, x: ConcreteVersion) -> Seq<
    ConcreteVersion,
>
    decreases sorted.len(),
{
    if sorted.len() == 0 {
        seq![x]
    } else if x.newer_than(sorted[0]) {
        seq![x] + sorted
    } else {
        seq![sorted[0]] + insert_by_age(sorted.drop_first(), x)
    }
}

/// The versions of `s` newest first; versions of equal rank keep the order
/// they had in `s`.
pub open spec fn sort_newest_first(s: Seq<ConcreteVersion>) -> Seq<ConcreteVersion>
    decreases s.len(),
{
    if s.len() == 0 {
        s
    } else {
        insert_by_age(sort_newest_first(s.drop_last()), s.last())
    }
}

/// Where `x` goes: `j` is the first position whose version `x` is newer than.
pub proof fn lemma_insert_by_age_at(sorted: Seq<ConcreteVersion>, x: ConcreteVersion, j: int)
    requires
        0 <= j <= sorted.len(),
        forall|k: int| 0 <= k < j ==> !x.newer_than(#[trigger] sorted[k]),
        j < sorted.len() ==> x.newer_than(sorted[j]),
    ensures
        insert_by_age(sorted, x) == sorted.insert(j, x),
    decreases sorted.len(),
{
    if sorted.len() == 0 {
        assert(sorted.insert(0, x) =~= seq![x]);
    } else if j == 0 {
        assert(sorted.insert(0, x) =~= seq![x] + sorted);
    } else {
        let rest = sorted.drop_first();
        assert(!x.newer_than(sorted[0]));
        assert forall|k: int| 0 <= k < j - 1 implies !x.newer_than(#[trigger] rest[k]) by {
            assert(rest[k] == sorted[k + 1]);
        }
        lemma_insert_by_age_at(rest, x, j - 1);
        assert(sorted.insert(j, x) =~= seq![sorted[0]] + rest.insert(j - 1, x));
    }
}

/// Whether `a` comes before `b` in the newest-first order.
pub fn newer_than(a: &GodotVersionDeterminate, b: &GodotVersionDeterminate) -> (r: bool)
    ensures
        r == a@.newer_than(b@),
{
    if a.major != b.major {
        a.major > b.major
    } else if a.minor != b.minor {
        a.minor > b.minor
    } else if a.patch != b.patch {
        a.patch > b.patch
    } else if a.subpatch != b.subpatch {
        a.subpatch > b.subpatch
    } else {
        get_pre_release_priority(a.release_type.as_str()) > get_pre_release_priority(
            b.release_type.as_str(),
        )
    }
}

/// Ordering of a list of concrete versions.
pub trait GodotVersionDeterminateVecExt {
    /// Reorders the list newest first.
    fn sort_by_version(&mut self);
}

impl GodotVersionDeterminateVecExt for Vec<GodotVersionDeterminate> {
    /// Puts the versions newest first: higher numbers before lower, and
    /// among equal numbers `stable` before `rc`, `beta`, `dev` and the
    /// rest. Versions of equal rank keep their order.
    fn sort_by_version(&mut self)
        ensures
            concrete_views(final(self)@) == sort_newest_first(concrete_views(old(self)@)),
    {
        let n = self.len();
        let ghost before = concrete_views(self@);
        let mut i: usize = 0;
        assert(before.take(0) =~= Seq::<ConcreteVersion>::empty());
        while i < n
            invariant
                i <= n,
                n == self.len(),
                before.len() == n,
                concrete_views(self@).take(i as int) == sort_newest_first(before.take(i as int)),
                concrete_views(self@).skip(i as int) == before.skip(i as int),
            decreases n - i,
        {
            let ghost current = concrete_views(self@);
            let x = self.remove(i);
            let ghost removed = concrete_views(self@);
            assert(removed =~= current.remove(i as int));
            assert(x@ == current[i as int]);
            assert(current[i as int] == before.skip(i as int)[0]);
            let mut j: usize = 0;
            while j < i && !newer_than(&x, &self[j])
                invariant
                    j <= i,
                    i < n,
                    self.len() == n - 1,
                    removed == concrete_views(self@),
                    forall|k: int| 0 <= k < j ==> !x@.newer_than(#[trigger] removed[k]),
                decreases i - j,
            {
                j = j + 1;
            }
            self.insert(j, x);
            proof {
                let prefix = current.take(i as int);
                assert(prefix =~= removed.take(i as int));
                assert forall|k: int| 0 <= k < j implies !x@.newer_than(#[trigger] prefix[k]) by {
                    assert(prefix[k] == removed[k]);
                }
                if j < i {
                    assert(prefix[j as int] == removed[j as int]);
                }
                lemma_insert_by_age_at(prefix, x@, j as int);
                assert(before.take(i + 1).drop_last() =~= before.take(i as int));
                assert(before.take(i + 1).last() == x@);
                let after = concrete_views(self@);
                assert(after =~= removed.insert(j as int, x@));
                assert(after.take(i + 1) =~= prefix.insert(j as int, x@));
                let tail = after.skip(i + 1);
                let old_tail = before.skip(i + 1);
                assert forall|k: int| 0 <= k < n - i - 1 implies #[trigger] tail[k]
                    == old_tail[k] by {
                    assert(after[k + i + 1] == removed[k + i]);
                    assert(removed[k + i] == current[k + i + 1]);
                    assert(current[k + i + 1] == current.skip(i as int)[k + 1]);
                }
                assert(tail =~= old_tail);
            }
            i = i + 1;
        }
        assert(concrete_views(self@).take(n as int) =~= concrete_views(self@));
        assert(before.take(n as int) =~= before);
    }
}

/// The pattern of a version given on the command line: one to four
/// dot-separated runs of digits, then optionally a hyphen and letters or
/// digits.
pub const GODOT_VERSION_PATTERN: &'static str = r"^\d+(\.\d+){0,3}(-[A-Za-z0-9]+)?$";

/// Whether `text` has a match of `pattern`, as the `regex` crate compiles
/// and searches it; nothing where the pattern does not compile.
pub uninterp spec fn regex_match(pattern: Seq<char>, text: Seq<char>) -> Option<bool>;

/// `regex::Regex::new` followed by `Regex::is_match`: the answer depends on
/// the pattern and the text alone. A pattern that does not compile gives
/// `None`.
#[verifier::external_body]
fn regex_is_match(pattern: &str, text: &str) -> (r: Option<bool>)
    ensures
        r == regex_match(pattern@, text@),
{
    match regex::Regex::new(pattern) {
        Ok(re) => Some(re.is_match(text)),
        Err(_) => None,
    }
}

/// The verdict on a command-line version, given whether the text matched
/// the pattern: the text itself where it did, else the message key
/// `invalid_key`.
pub fn version_verdict(s: &str, matched: Option<bool>, invalid_key: &str) -> (r: Result<
    String,
    String,
>)
    ensures
        match r {
            Ok(t) => matched == Some(true) && t@ == s@,
            Err(k) => matched != Some(true) && k@ == invalid_key@,
        },
{
    match matched {
        Some(true) => Ok(s.to_string()),
        _ => Err(invalid_key.to_string()),
    }
}

/// Accepts a version argument that has the form of `GODOT_VERSION_PATTERN`
/// and hands it back; refuses any other with the key
/// `error-invalid-godot-version`.
pub fn validate_godot_version(s: &str) -> (r: Result<String, String>)
    ensures
        match r {
            Ok(t) => regex_match(GODOT_VERSION_PATTERN@, s@) == Some(true) && t@ == s@,
            Err(k) => regex_match(GODOT_VERSION_PATTERN@, s@) != Some(true) && k@
                == "error-invalid-godot-version"@,
        },
{
    let matched = regex_is_match(GODOT_VERSION_PATTERN, s);
    version_verdict(s, matched, "error-invalid-godot-version")
}

/// Accepts the word `stable` and whatever `validate_godot_version` accepts;
/// refuses any other argument with the key `error-invalid-remote-version`.
pub fn validate_remote_version(s: &str) -> (r: Result<String, String>)
    ensures
        match r {
            Ok(t) => (s@ == "stable"@ || regex_match(GODOT_VERSION_PATTERN@, s@) == Some(true))
                && t@ == s@,
            Err(k) => s@ != "stable"@ && regex_match(GODOT_VERSION_PATTERN@, s@) != Some(true)
                && k@ == "error-invalid-remote-version"@,
        },
{
    let chars = chars_of(s);
    if eq_str(chars.as_slice(), "stable") {
        return Ok(s.to_string());
    }
    let matched = regex_is_match(GODOT_VERSION_PATTERN, s);
    version_verdict(s, matched, "error-invalid-remote-version")
}

} // verus!
