//! Character-sequence helpers shared by the parsers and formatters.
//!
//! Every executable function here works on a slice of characters and is
//! specified over `Seq<char>`.

use vstd::prelude::*;
use vstd::slice::slice_subrange;

verus! {

/// `String::push` appends exactly one character to the end of the string.
pub assume_specification[ String::push ](s: &mut String, c: char)
    ensures
        final(s)@ == old(s)@.push(c),
;

/// The characters of a string slice, in order.
pub fn chars_of(s: &str) -> (v: Vec<char>)
    ensures
        v@ == s@,
{
    let mut v: Vec<char> = Vec::new();
    for c in it: s.chars()
        invariant
            it.seq() == s@,
            v@ == it.seq().take(it.index() as int),
    {
        v.push(c);
    }
    v
}

/// The string made of the given characters.
pub fn string_of(chars: &[char]) -> (s: String)
    ensures
        s@ == chars@,
{
    let mut s = String::new();
    let mut i: usize = 0;
    while i < chars.len()
        invariant
            i <= chars.len(),
            s@ == chars@.take(i as int),
        decreases chars.len() - i,
    {
        s.push(chars[i]);
        i = i + 1;
    }
    s
}

/// A fresh copy of the characters `s[from..to]`.
pub(crate) fn copy_range(s: &[char], from: usize, to: usize) -> (v: Vec<char>)
    requires
        from <= to <= s@.len(),
    ensures
        v@ == s@.subrange(from as int, to as int),
{
    let mut v: Vec<char> = Vec::new();
    let mut i: usize = from;
    while i < to
        invariant
            from <= i <= to <= s@.len(),
            v@ == s@.subrange(from as int, i as int),
        decreases to - i,
    {
        v.push(s[i]);
        i = i + 1;
    }
    v
}

/// Appends all of `tail` to `out`.
pub fn push_all(out: &mut Vec<char>, tail: &[char])
    ensures
        final(out)@ == old(out)@ + tail@,
{
    let mut i: usize = 0;
    while i < tail.len()
        invariant
            i <= tail.len(),
            out@ == old(out)@ + tail@.take(i as int),
        decreases tail.len() - i,
    {
        out.push(tail[i]);
        i = i + 1;
    }
}

/// Appends the characters of a string slice to `out`.
pub fn push_str(out: &mut Vec<char>, tail: &str)
    ensures
        final(out)@ == old(out)@ + tail@,
{
    let t = chars_of(tail);
    push_all(out, t.as_slice());
}

/// Whether two character slices hold the same characters.
pub fn seq_eq(a: &[char], b: &[char]) -> (r: bool)
    ensures
        r == (a@ == b@),
{
    if a.len() != b.len() {
        return false;
    }
    let mut i: usize = 0;
    while i < a.len()
        invariant
            i <= a.len(),
            a.len() == b.len(),
            a@.take(i as int) == b@.take(i as int),
        decreases a.len() - i,
    {
        if a[i] != b[i] {
            return false;
        }
        assert(a@.take(i + 1) == a@.take(i as int).push(a@[i as int]));
        assert(b@.take(i + 1) == b@.take(i as int).push(b@[i as int]));
        i = i + 1;
    }
    assert(a@.take(a.len() as int) == a@);
    assert(b@.take(b.len() as int) == b@);
    true
}

/// Whether the characters of `a` are exactly those of the string slice `b`.
pub fn eq_str(a: &[char], b: &str) -> (r: bool)
    ensures
        r == (a@ == b@),
{
    let t = chars_of(b);
    seq_eq(a, t.as_slice())
}

/// `p` is a prefix of `s`.
pub open spec fn has_prefix(s: Seq<char>, p: Seq<char>) -> bool {
    p.len() <= s.len() && s.subrange(0, p.len() as int) == p
}

/// `p` is a suffix of `s`.
pub open spec fn has_suffix(s: Seq<char>, p: Seq<char>) -> bool {
    p.len() <= s.len() && s.subrange(s.len() - p.len(), s.len() as int) == p
}

/// `needle` occurs in `s` as a contiguous run.
pub open spec fn has_infix(s: Seq<char>, needle: Seq<char>) -> bool {
    exists|i: int|
        0 <= i && i + needle.len() <= s.len() && #[trigger] s.subrange(i, i + needle.len())
            == needle
}

/// Whether `s` starts with `p`.
pub fn starts_with(s: &[char], p: &[char]) -> (r: bool)
    ensures
        r == has_prefix(s@, p@),
{
    if p.len() > s.len() {
        return false;
    }
    seq_eq(slice_subrange(s, 0, p.len()), p)
}

/// Whether `s` ends with `p`.
pub fn ends_with(s: &[char], p: &[char]) -> (r: bool)
    ensures
        r == has_suffix(s@, p@),
{
    if p.len() > s.len() {
        return false;
    }
    seq_eq(slice_subrange(s, s.len() - p.len(), s.len()), p)
}

/// Whether `needle` occurs somewhere in `s`.
pub fn contains(s: &[char], needle: &[char]) -> (r: bool)
    ensures
        r == has_infix(s@, needle@),
{
    if needle.len() > s.len() {
        return false;
    }
    if needle.len() == 0 {
        assert(s@.subrange(0int, 0int + needle@.len()) == needle@);
        return true;
    }
    let last: usize = s.len() - needle.len();
    let mut i: usize = 0;
    while i <= last
        invariant
            i <= last + 1,
            last == s.len() - needle.len(),
            0 < needle.len() <= s.len(),
            forall|j: int| 0 <= j < i ==> #[trigger] s@.subrange(j, j + needle@.len()) != needle@,
        decreases last + 1 - i,
    {
        if seq_eq(slice_subrange(s, i, i + needle.len()), needle) {
            return true;
        }
        i = i + 1;
    }
    false
}

/// Position of the first `c` in `s`, or `s.len()` where there is none.
pub open spec fn index_of(s: Seq<char>, c: char) -> int
    decreases s.len(),
{
    if s.len() == 0 {
        0
    } else if s[0] == c {
        0
    } else {
        1 + index_of(s.drop_first(), c)
    }
}

/// Position of the last `c` in `s`, or `-1` where there is none.
pub open spec fn last_index_of(s: Seq<char>, c: char) -> int
    decreases s.len(),
{
    if s.len() == 0 {
        -1
    } else if s.last() == c {
        s.len() - 1
    } else {
        last_index_of(s.drop_last(), c)
    }
}

/// `index_of` is the least position that holds `c`.
pub proof fn lemma_index_of(s: Seq<char>, c: char)
    ensures
        0 <= index_of(s, c) <= s.len(),
        forall|j: int| 0 <= j < index_of(s, c) ==> s[j] != c,
        index_of(s, c) < s.len() ==> s[index_of(s, c)] == c,
    decreases s.len(),
{
    if s.len() > 0 && s[0] != c {
        lemma_index_of(s.drop_first(), c);
        assert forall|j: int| 0 <= j < index_of(s, c) implies s[j] != c by {
            if j > 0 {
                assert(s[j] == s.drop_first()[j - 1]);
            }
        }
    }
}

/// Any position with no `c` before it, and `c` or the end at it, is `index_of`.
pub proof fn lemma_index_of_is(s: Seq<char>, c: char, i: int)
    requires
        0 <= i <= s.len(),
        forall|j: int| 0 <= j < i ==> s[j] != c,
        i < s.len() ==> s[i] == c,
    ensures
        index_of(s, c) == i,
{
    lemma_index_of(s, c);
}

/// `last_index_of` is the greatest position that holds `c`.
pub proof fn lemma_last_index_of(s: Seq<char>, c: char)
    ensures
        -1 <= last_index_of(s, c) < s.len(),
        forall|j: int| last_index_of(s, c) < j < s.len() ==> s[j] != c,
        last_index_of(s, c) >= 0 ==> s[last_index_of(s, c)] == c,
    decreases s.len(),
{
    if s.len() > 0 && s.last() != c {
        lemma_last_index_of(s.drop_last(), c);
        assert forall|j: int| last_index_of(s, c) < j < s.len() implies s[j] != c by {
            if j < s.len() - 1 {
                assert(s[j] == s.drop_last()[j]);
            }
        }
    }
}

/// Any position that holds `c` with no `c` after it is `last_index_of`.
pub proof fn lemma_last_index_of_is(s: Seq<char>, c: char, i: int)
    requires
        -1 <= i < s.len(),
        forall|j: int| i < j < s.len() ==> s[j] != c,
        i >= 0 ==> s[i] == c,
    ensures
        last_index_of(s, c) == i,
{
    lemma_last_index_of(s, c);
}

/// First position of `c` in `s`.
pub fn find_char(s: &[char], c: char) -> (r: Option<usize>)
    ensures
        match r {
            Some(i) => i < s@.len() && i < usize::MAX && i == index_of(s@, c),
            None => index_of(s@, c) == s@.len(),
        },
{
    let mut i: usize = 0;
    while i < s.len()
        invariant
            i <= s.len(),
            forall|j: int| 0 <= j < i ==> s@[j] != c,
        decreases s.len() - i,
    {
        if s[i] == c {
            proof {
                lemma_index_of_is(s@, c, i as int);
            }
            return Some(i);
        }
        i = i + 1;
    }
    proof {
        lemma_index_of_is(s@, c, s@.len() as int);
    }
    None
}

/// Last position of `c` in `s`.
pub fn rfind_char(s: &[char], c: char) -> (r: Option<usize>)
    ensures
        match r {
            Some(i) => i < s@.len() && i < usize::MAX && i == last_index_of(s@, c),
            None => last_index_of(s@, c) == -1,
        },
{
    let mut i: usize = s.len();
    while i > 0
        invariant
            i <= s.len(),
            forall|j: int| i <= j < s@.len() ==> s@[j] != c,
        decreases i,
    {
        i = i - 1;
        if s[i] == c {
            proof {
                lemma_last_index_of_is(s@, c, i as int);
            }
            return Some(i);
        }
    }
    proof {
        lemma_last_index_of_is(s@, c, -1);
    }
    None
}

/// The pieces of `s` between occurrences of `sep`; always at least one piece.
pub open spec fn split_on(s: Seq<char>, sep: char) -> Seq<Seq<char>>
    decreases s.len(),
{
    let i = index_of(s, sep);
    if 0 <= i < s.len() {
        seq![s.take(i)] + split_on(s.skip(i + 1), sep)
    } else {
        seq![s]
    }
}

/// The character sequences that a vector of character vectors holds.
pub open spec fn views(v: Seq<Vec<char>>) -> Seq<Seq<char>> {
    Seq::new(v.len(), |i: int| v[i]@)
}

/// The character sequences that a vector of strings holds.
pub open spec fn string_views(v: Seq<String>) -> Seq<Seq<char>> {
    Seq::new(v.len(), |i: int| v[i]@)
}

/// Splits `s` at every `sep`.
pub fn split(s: &[char], sep: char) -> (r: Vec<Vec<char>>)
    ensures
        views(r@) == split_on(s@, sep),
{
    let mut out: Vec<Vec<char>> = Vec::new();
    let mut start: usize = 0;
    let mut i: usize = 0;
    assert(s@.skip(0) == s@);
    assert(views(out@) + split_on(s@, sep) == split_on(s@, sep));
    while i < s.len()
        invariant
            start <= i <= s.len(),
            forall|j: int| start <= j < i ==> s@[j] != sep,
            split_on(s@, sep) == views(out@) + split_on(s@.skip(start as int), sep),
        decreases s.len() - i,
    {
        if s[i] == sep {
            let piece = copy_range(s, start, i);
            let ghost before = views(out@);
            out.push(piece);
            proof {
                let rest = s@.skip(start as int);
                lemma_index_of_is(rest, sep, i - start);
                assert(rest.take(i - start) == s@.subrange(start as int, i as int));
                assert(rest.skip(i - start + 1) == s@.skip(i + 1));
                assert(views(out@) == before.push(piece@));
                assert(before.push(piece@) + split_on(s@.skip(i + 1), sep) == before + (seq![
                    piece@,
                ] + split_on(s@.skip(i + 1), sep)));
            }
            start = i + 1;
        }
        i = i + 1;
    }
    let piece = copy_range(s, start, s.len());
    let ghost before = views(out@);
    out.push(piece);
    proof {
        let rest = s@.skip(start as int);
        lemma_index_of_is(rest, sep, rest.len() as int);
        assert(rest == s@.subrange(start as int, s@.len() as int));
        assert(views(out@) == before.push(piece@));
        assert(before.push(piece@) == before + seq![piece@]);
    }
    out
}

/// An ASCII decimal digit.
pub open spec fn is_digit(c: char) -> bool {
    '0' <= c && c <= '9'
}

/// Every character of `s` is an ASCII decimal digit.
pub open spec fn all_digits(s: Seq<char>) -> bool {
    forall|i: int| 0 <= i < s.len() ==> is_digit(#[trigger] s[i])
}

/// The number that a run of decimal digits denotes.
pub open spec fn digits_value(s: Seq<char>) -> nat
    decreases s.len(),
{
    if s.len() == 0 {
        0
    } else {
        (digits_value(s.drop_last()) * 10 + (s.last() as int - '0' as int)) as nat
    }
}

/// What remains of `s` after one leading plus sign, if it has one.
pub open spec fn unsigned_body(s: Seq<char>) -> Seq<char> {
    if s.len() > 0 && s[0] == '+' {
        s.skip(1)
    } else {
        s
    }
}

/// The value of a decimal numeral that fits in 32 bits: an optional plus
/// sign, then one or more digits. Anything else has no value.
pub open spec fn parse_u32_spec(s: Seq<char>) -> Option<u32> {
    let body = unsigned_body(s);
    if body.len() > 0 && all_digits(body) && digits_value(body) <= u32::MAX {
        Some(digits_value(body) as u32)
    } else {
        None
    }
}

/// A longer run of digits never denotes less than its prefix.
pub proof fn lemma_digits_value_grows(s: Seq<char>, k: int)
    requires
        all_digits(s),
        0 <= k <= s.len(),
    ensures
        digits_value(s.take(k)) <= digits_value(s),
    decreases s.len(),
{
    if k < s.len() {
        lemma_digits_value_grows(s.drop_last(), k);
        assert(s.drop_last().take(k) == s.take(k));
        assert(is_digit(s.last()));
    } else {
        assert(s.take(k) == s);
    }
}

/// Reads a decimal numeral into 32 bits.
pub fn parse_u32(s: &[char]) -> (r: Option<u32>)
    ensures
        r == parse_u32_spec(s@),
{
    let start: usize = if s.len() > 0 && s[0] == '+' {
        1
    } else {
        0
    };
    let ghost body = unsigned_body(s@);
    assert(body == s@.skip(start as int));
    if start == s.len() {
        return None;
    }
    let mut acc: u64 = 0;
    let mut i: usize = start;
    while i < s.len()
        invariant
            start <= i <= s.len(),
            body == s@.skip(start as int),
            body == unsigned_body(s@),
            body.len() > 0,
            all_digits(body.take(i - start)),
            acc == digits_value(body.take(i - start)),
            acc <= u32::MAX,
        decreases s.len() - i,
    {
        let c = s[i];
        if !(c >= '0' && c <= '9') {
            assert(body[i - start] == c);
            assert(!is_digit(body[i - start]));
            return None;
        }
        let d: u64 = (c as u32 - '0' as u32) as u64;
        let next: u64 = acc * 10 + d;
        proof {
            let p = body.take(i - start + 1);
            assert(p.drop_last() == body.take(i - start));
            assert(p.last() == c);
            assert(next == digits_value(p));
            assert forall|j: int| 0 <= j < p.len() implies is_digit(#[trigger] p[j]) by {
                if j < p.len() - 1 {
                    assert(p[j] == body.take(i - start)[j]);
                }
            }
        }
        if next > 0xFFFF_FFFFu64 {
            proof {
                if all_digits(body) {
                    lemma_digits_value_grows(body, i - start + 1);
                }
            }
            return None;
        }
        acc = next;
        i = i + 1;
    }
    assert(body.take(i - start) == body);
    Some(acc as u32)
}

/// The decimal numeral of `n`, without sign or leading zeros.
pub open spec fn decimal(n: nat) -> Seq<char>
    decreases n,
{
    if n < 10 {
        seq![('0' as int + n) as char]
    } else {
        decimal(n / 10).push(('0' as int + n % 10) as char)
    }
}

/// A decimal numeral is a non-empty run of digits that denotes its number.
pub proof fn lemma_decimal(n: nat)
    ensures
        decimal(n).len() > 0,
        all_digits(decimal(n)),
        digits_value(decimal(n)) == n,
        n > 0 ==> decimal(n)[0] != '0',
    decreases n,
{
    if n < 10 {
        let s = decimal(n);
        assert(s.drop_last().len() == 0);
        assert(digits_value(s.drop_last()) == 0);
        assert(s.last() == ('0' as int + n) as char);
        assert(s.last() as int - '0' as int == n);
    } else {
        lemma_decimal(n / 10);
        let p = decimal(n / 10);
        let s = decimal(n);
        assert(s.drop_last() == p);
        assert(s[0] == p[0]);
        assert(s.last() == ('0' as int + n % 10) as char);
        assert(s.last() as int - '0' as int == n % 10);
        assert(digits_value(s) == digits_value(p) * 10 + n % 10);
        assert forall|j: int| 0 <= j < s.len() implies is_digit(#[trigger] s[j]) by {
            if j < p.len() {
                assert(s[j] == p[j]);
            }
        }
    }
}

/// Reading back a decimal numeral gives the number it was written from.
pub proof fn lemma_parse_decimal(n: u32)
    ensures
        parse_u32_spec(decimal(n as nat)) == Some(n),
{
    lemma_decimal(n as nat);
    assert(is_digit(decimal(n as nat)[0]));
}

/// Appends the decimal numeral of `n` to `out`.
pub fn push_decimal(out: &mut Vec<char>, n: u64)
    ensures
        final(out)@ == old(out)@ + decimal(n as nat),
    decreases n,
{
    if n >= 10 {
        push_decimal(out, n / 10);
    }
    let d: u8 = (n % 10) as u8;
    let c: char = (48u8 + d) as char;
    out.push(c);
    proof {
        assert(c == ('0' as int + (n as nat) % 10) as char);
        if n >= 10 {
            assert(old(out)@ + decimal(n as nat / 10).push(c) == (old(out)@ + decimal(
                n as nat / 10,
            )).push(c));
        } else {
            assert(old(out)@ + seq![c] == old(out)@.push(c));
        }
    }
}

/// White space as Unicode defines it.
pub open spec fn is_space(c: char) -> bool {
    let n = c as u32;
    ||| 0x09 <= n <= 0x0D
    ||| n == 0x20
    ||| n == 0x85
    ||| n == 0xA0
    ||| n == 0x1680
    ||| 0x2000 <= n <= 0x200A
    ||| n == 0x2028
    ||| n == 0x2029
    ||| n == 0x202F
    ||| n == 0x205F
    ||| n == 0x3000
}

/// Whether `c` is white space.
pub fn is_whitespace(c: char) -> (r: bool)
    ensures
        r == is_space(c),
{
    let n: u32 = c as u32;
    (0x09 <= n && n <= 0x0D) || n == 0x20 || n == 0x85 || n == 0xA0 || n == 0x1680 || (0x2000
        <= n && n <= 0x200A) || n == 0x2028 || n == 0x2029 || n == 0x202F || n == 0x205F || n
        == 0x3000
}

/// `s` without its leading white space.
pub open spec fn trim_start_spec(s: Seq<char>) -> Seq<char>
    decreases s.len(),
{
    if s.len() > 0 && is_space(s[0]) {
        trim_start_spec(s.drop_first())
    } else {
        s
    }
}

/// `s` without its trailing white space.
pub open spec fn trim_end_spec(s: Seq<char>) -> Seq<char>
    decreases s.len(),
{
    if s.len() > 0 && is_space(s.last()) {
        trim_end_spec(s.drop_last())
    } else {
        s
    }
}

/// `s` without leading and trailing white space.
pub open spec fn trim_spec(s: Seq<char>) -> Seq<char> {
    trim_end_spec(trim_start_spec(s))
}

/// The part of `s` that follows its leading white space.
pub fn trim_start(s: &[char]) -> (r: &[char])
    ensures
        r@ == trim_start_spec(s@),
{
    let mut i: usize = 0;
    assert(s@.skip(0) == s@);
    while i < s.len() && is_whitespace(s[i])
        invariant
            i <= s.len(),
            trim_start_spec(s@) == trim_start_spec(s@.skip(i as int)),
        decreases s.len() - i,
    {
        assert(s@.skip(i as int).drop_first() == s@.skip(i + 1));
        i = i + 1;
    }
    assert(s@.skip(i as int) == s@.subrange(i as int, s@.len() as int));
    slice_subrange(s, i, s.len())
}

/// The part of `s` that precedes its trailing white space.
pub fn trim_end(s: &[char]) -> (r: &[char])
    ensures
        r@ == trim_end_spec(s@),
{
    let mut i: usize = s.len();
    assert(s@.take(i as int) == s@);
    while i > 0 && is_whitespace(s[i - 1])
        invariant
            i <= s.len(),
            trim_end_spec(s@) == trim_end_spec(s@.take(i as int)),
        decreases i,
    {
        assert(s@.take(i as int).drop_last() == s@.take(i - 1));
        i = i - 1;
    }
    assert(s@.take(i as int) == s@.subrange(0, i as int));
    slice_subrange(s, 0, i)
}

/// The part of `s` between its leading and its trailing white space.
pub fn trim(s: &[char]) -> (r: &[char])
    ensures
        r@ == trim_spec(s@),
{
    trim_end(trim_start(s))
}

/// `s` without one final carriage return.
pub open spec fn strip_cr(s: Seq<char>) -> Seq<char> {
    if s.len() > 0 && s.last() == '\r' {
        s.drop_last()
    } else {
        s
    }
}

/// The lines of a text. A line ends at a line feed, which is dropped
/// together with a carriage return before it; what follows the last line
/// feed is a line of its own unless it is empty.
pub open spec fn lines_of(s: Seq<char>) -> Seq<Seq<char>>
    decreases s.len(),
{
    if s.len() == 0 {
        Seq::empty()
    } else {
        let i = index_of(s, '\n');
        if 0 <= i < s.len() {
            seq![strip_cr(s.take(i))] + lines_of(s.skip(i + 1))
        } else {
            seq![s]
        }
    }
}

/// Splits a text into its lines.
pub fn lines(s: &[char]) -> (r: Vec<Vec<char>>)
    ensures
        views(r@) == lines_of(s@),
{
    let mut out: Vec<Vec<char>> = Vec::new();
    let mut start: usize = 0;
    let mut i: usize = 0;
    assert(s@.skip(0) == s@);
    assert(views(out@) + lines_of(s@) == lines_of(s@));
    while i < s.len()
        invariant
            start <= i <= s.len(),
            forall|j: int| start <= j < i ==> s@[j] != '\n',
            lines_of(s@) == views(out@) + lines_of(s@.skip(start as int)),
        decreases s.len() - i,
    {
        if s[i] == '\n' {
            let end: usize = if i > start && s[i - 1] == '\r' {
                (i - 1) as usize
            } else {
                i
            };
            let piece = copy_range(s, start, end);
            let ghost before = views(out@);
            out.push(piece);
            proof {
                let rest = s@.skip(start as int);
                lemma_index_of_is(rest, '\n', i - start);
                assert(rest.take(i - start) == s@.subrange(start as int, i as int));
                assert(strip_cr(rest.take(i - start)) == piece@);
                assert(rest.skip(i - start + 1) == s@.skip(i + 1));
                assert(views(out@) == before.push(piece@));
                assert(before.push(piece@) + lines_of(s@.skip(i + 1)) == before + (seq![
                    piece@,
                ] + lines_of(s@.skip(i + 1))));
            }
            start = i + 1;
        }
        i = i + 1;
    }
    if start < s.len() {
        let piece = copy_range(s, start, s.len());
        let ghost before = views(out@);
        out.push(piece);
        proof {
            let rest = s@.skip(start as int);
            lemma_index_of_is(rest, '\n', rest.len() as int);
            assert(rest == s@.subrange(start as int, s@.len() as int));
            assert(views(out@) == before.push(piece@));
            assert(before.push(piece@) == before + seq![piece@]);
        }
    } else {
        assert(s@.skip(start as int).len() == 0);
        assert(views(out@) + Seq::<Seq<char>>::empty() == views(out@));
    }
    out
}

/// `a` comes before `b` in the dictionary order of their characters.
pub open spec fn lex_less(a: Seq<char>, b: Seq<char>) -> bool
    decreases a.len(),
{
    if b.len() == 0 {
        false
    } else if a.len() == 0 {
        true
    } else if a[0] != b[0] {
        a[0] < b[0]
    } else {
        lex_less(a.drop_first(), b.drop_first())
    }
}

/// Of two texts, one comes before the other or they are the same, and
/// never both come before each other.
pub proof fn lemma_lex_total(a: Seq<char>, b: Seq<char>)
    ensures
        lex_less(a, b) || lex_less(b, a) || a == b,
        !(lex_less(a, b) && lex_less(b, a)),
        !lex_less(a, a),
    decreases a.len(),
{
    if a.len() > 0 && b.len() > 0 && a[0] == b[0] {
        lemma_lex_total(a.drop_first(), b.drop_first());
        if a.drop_first() == b.drop_first() {
            assert(a =~= seq![a[0]] + a.drop_first());
            assert(b =~= seq![b[0]] + b.drop_first());
        }
    } else if a.len() == 0 && b.len() == 0 {
        assert(a =~= b);
    }
    if a.len() > 0 {
        lemma_lex_irreflexive(a);
    }
}

/// No text comes before itself.
pub proof fn lemma_lex_irreflexive(a: Seq<char>)
    ensures
        !lex_less(a, a),
    decreases a.len(),
{
    if a.len() > 0 {
        lemma_lex_irreflexive(a.drop_first());
    }
}

/// The dictionary order is transitive.
pub proof fn lemma_lex_transitive(a: Seq<char>, b: Seq<char>, c: Seq<char>)
    requires
        lex_less(a, b),
        lex_less(b, c),
    ensures
        lex_less(a, c),
    decreases a.len(),
{
    if a.len() > 0 && b.len() > 0 && c.len() > 0 && a[0] == b[0] && b[0] == c[0] {
        lemma_lex_transitive(a.drop_first(), b.drop_first(), c.drop_first());
    }
}

/// Whether `a` comes before `b` in dictionary order.
pub fn less(a: &[char], b: &[char]) -> (r: bool)
    ensures
        r == lex_less(a@, b@),
{
    let mut i: usize = 0;
    assert(a@.skip(0) == a@ && b@.skip(0) == b@);
    while i < a.len() && i < b.len()
        invariant
            i <= a.len(),
            i <= b.len(),
            lex_less(a@, b@) == lex_less(a@.skip(i as int), b@.skip(i as int)),
        decreases a.len() - i,
    {
        assert(a@.skip(i as int)[0] == a@[i as int]);
        assert(b@.skip(i as int)[0] == b@[i as int]);
        if a[i] != b[i] {
            return a[i] < b[i];
        }
        assert(a@.skip(i as int).drop_first() == a@.skip(i + 1));
        assert(b@.skip(i as int).drop_first() == b@.skip(i + 1));
        i = i + 1;
    }
    i < b.len()
}

/// Every text of `s` comes before each text after it.
pub open spec fn strictly_increasing(s: Seq<Seq<char>>) -> bool {
    forall|i: int, j: int| 0 <= i < j < s.len() ==> lex_less(#[trigger] s[i], #[trigger] s[j])
}

/// The texts of `names` in dictionary order, each once.
pub fn sorted_unique(names: &Vec<Vec<char>>) -> (r: Vec<String>)
    ensures
        strictly_increasing(string_views(r@)),
        forall|x: Seq<char>| string_views(r@).contains(x) <==> views(names@).contains(x),
{
    let ghost all = views(names@);
    let mut out: Vec<String> = Vec::new();
    let mut k: usize = 0;
    while k < names.len()
        invariant
            k <= names.len(),
            all == views(names@),
            strictly_increasing(string_views(out@)),
            forall|x: Seq<char>|
                string_views(out@).contains(x) <==> all.take(k as int).contains(x),
        decreases names.len() - k,
    {
        let name = names[k].as_slice();
        let ghost sorted = string_views(out@);
        let mut j: usize = 0;
        while j < out.len() && less(chars_of(out[j].as_str()).as_slice(), name)
            invariant
                j <= out.len(),
                sorted == string_views(out@),
                forall|m: int| 0 <= m < j ==> lex_less(#[trigger] sorted[m], name@),
            decreases out.len() - j,
        {
            j = j + 1;
        }
        let present = j < out.len() && seq_eq(chars_of(out[j].as_str()).as_slice(), name);
        proof {
            assert(all.take(k + 1) =~= all.take(k as int).push(name@));
            assert forall|x: Seq<char>| all.take(k + 1).contains(x) <==> (all.take(
                k as int,
            ).contains(x) || x == name@) by {
                if all.take(k as int).contains(x) {
                    let m = choose|m: int| 0 <= m < k && all.take(k as int)[m] == x;
                    assert(all.take(k + 1)[m] == x);
                }
                if x == name@ {
                    assert(all.take(k + 1)[k as int] == x);
                }
            }
        }
        if present {
            assert(sorted[j as int] == name@);
            assert(sorted.contains(name@));
        } else {
            out.insert(j, string_of(name));
            proof {
                let after = string_views(out@);
                assert(after =~= sorted.insert(j as int, name@));
                if j < sorted.len() {
                    lemma_lex_total(sorted[j as int], name@);
                }
                assert forall|a: int, b: int| 0 <= a < b < after.len() implies lex_less(
                    #[trigger] after[a],
                    #[trigger] after[b],
                ) by {
                    if b < j {
                        assert(after[a] == sorted[a] && after[b] == sorted[b]);
                    } else if b == j {
                        assert(after[a] == sorted[a]);
                    } else if a == j {
                        assert(after[b] == sorted[b - 1]);
                        if b - 1 > j {
                            assert(lex_less(sorted[j as int], sorted[b - 1]));
                            lemma_lex_transitive(name@, sorted[j as int], sorted[b - 1]);
                        }
                    } else if a < j {
                        assert(after[a] == sorted[a] && after[b] == sorted[b - 1]);
                    } else {
                        assert(after[a] == sorted[a - 1] && after[b] == sorted[b - 1]);
                    }
                }
                assert forall|x: Seq<char>| after.contains(x) <==> (sorted.contains(x) || x
                    == name@) by {
                    if after.contains(x) {
                        let m = choose|m: int| 0 <= m < after.len() && after[m] == x;
                        if m < j {
                            assert(sorted[m] == x);
                        } else if m > j {
                            assert(sorted[m - 1] == x);
                        }
                    }
                    if sorted.contains(x) {
                        let m = choose|m: int| 0 <= m < sorted.len() && sorted[m] == x;
                        if m < j {
                            assert(after[m] == x);
                        } else {
                            assert(after[m + 1] == x);
                        }
                    }
                    if x == name@ {
                        assert(after[j as int] == x);
                    }
                }
            }
        }
        proof {
            let now = string_views(out@);
            let grown = all.take(k + 1);
            assert forall|x: Seq<char>| now.contains(x) <==> grown.contains(x) by {
                assert(sorted.contains(x) <==> all.take(k as int).contains(x));
                assert(grown.contains(x) <==> (all.take(k as int).contains(x) || x == name@));
                if present {
                    assert(now == sorted);
                } else {
                    assert(now.contains(x) <==> (sorted.contains(x) || x == name@));
                }
            }
        }
        k = k + 1;
    }
    assert(all.take(k as int) =~= all);
    out
}

/// Whether two string slices hold the same characters.
pub fn str_eq(a: &str, b: &str) -> (r: bool)
    ensures
        r == (a@ == b@),
{
    let x = chars_of(a);
    let y = chars_of(b);
    seq_eq(x.as_slice(), y.as_slice())
}

/// Position of the first element of `s` that satisfies `p`, or the length
/// of `s` where none does.
pub open spec fn first_where<T>(s: Seq<T>, p: spec_fn(T) -> bool) -> int
    decreases s.len(),
{
    if s.len() == 0 {
        0
    } else if p(s[0]) {
        0
    } else {
        1 + first_where(s.drop_first(), p)
    }
}

/// A position with no satisfying element before it, and a satisfying
/// element or the end at it, is `first_where`.
pub proof fn lemma_first_where<T>(s: Seq<T>, p: spec_fn(T) -> bool, i: int)
    requires
        0 <= i <= s.len(),
        forall|j: int| 0 <= j < i ==> !p(#[trigger] s[j]),
        i < s.len() ==> p(s[i]),
    ensures
        first_where(s, p) == i,
    decreases s.len(),
{
    if s.len() > 0 && i > 0 {
        assert(!p(s[0]));
        let rest = s.drop_first();
        assert forall|j: int| 0 <= j < i - 1 implies !p(#[trigger] rest[j]) by {
            assert(rest[j] == s[j + 1]);
        }
        lemma_first_where(rest, p, i - 1);
    }
}

} // verus!
