//! Laws of the version model: reading back what was written, what a match
//! means, and what the newest-first order guarantees.

use vstd::prelude::*;
use crate::text::{
    decimal, has_suffix, is_digit, last_index_of, lemma_decimal, lemma_index_of_is,
    lemma_last_index_of, lemma_last_index_of_is, lemma_parse_decimal, parse_u32_spec, split_on,
};
use crate::version_utils::{
    component, dotted, insert_by_age, parse_numbers_spec, parse_version_spec,
    sort_newest_first, ConcreteVersion, PartialVersion,
};

verus! {

/// A text without the separator is its own single piece.
pub proof fn lemma_split_single(s: Seq<char>, sep: char)
    requires
        forall|i: int| 0 <= i < s.len() ==> s[i] != sep,
    ensures
        split_on(s, sep) == seq![s],
{
    lemma_index_of_is(s, sep, s.len() as int);
}

/// A text that starts with a separator-free piece splits into that piece
/// and the pieces of what follows the first separator.
pub proof fn lemma_split_first(a: Seq<char>, rest: Seq<char>, sep: char)
    requires
        forall|i: int| 0 <= i < a.len() ==> a[i] != sep,
    ensures
        split_on(a + seq![sep] + rest, sep) == seq![a] + split_on(rest, sep),
{
    let whole = a + seq![sep] + rest;
    assert forall|j: int| 0 <= j < a.len() implies whole[j] != sep by {
        assert(whole[j] == a[j]);
    }
    assert(whole[a.len() as int] == sep);
    lemma_index_of_is(whole, sep, a.len() as int);
    assert(whole.take(a.len() as int) =~= a);
    assert(whole.skip(a.len() as int + 1) =~= rest);
}

/// A decimal numeral holds neither a dot nor a hyphen.
pub proof fn lemma_decimal_plain(n: nat)
    ensures
        forall|i: int| 0 <= i < decimal(n).len() ==> decimal(n)[i] != '.' && decimal(n)[i] != '-',
{
    lemma_decimal(n);
    assert forall|i: int| 0 <= i < decimal(n).len() implies decimal(n)[i] != '.' && decimal(
        n,
    )[i] != '-' by {
        assert(is_digit(decimal(n)[i]));
    }
}

/// The first `count` of four numbers.
pub open spec fn leading_numbers(major: u32, minor: u32, patch: u32, subpatch: u32, count: int)
    -> Seq<u32> {
    seq![major, minor, patch, subpatch].take(count)
}

/// Dotted numbers hold no hyphen, and split at the dots into numerals that
/// read back as the numbers written.
pub proof fn lemma_dotted(major: u32, minor: u32, patch: u32, subpatch: u32, count: int)
    requires
        1 <= count <= 4,
    ensures
        forall|i: int|
            0 <= i < dotted(major, minor, patch, subpatch, count).len() ==> dotted(
                major,
                minor,
                patch,
                subpatch,
                count,
            )[i] != '-',
        split_on(dotted(major, minor, patch, subpatch, count), '.').len() == count,
        parse_numbers_spec(split_on(dotted(major, minor, patch, subpatch, count), '.')) == Some(
            leading_numbers(major, minor, patch, subpatch, count),
        ),
{
    let a = decimal(major as nat);
    let b = decimal(minor as nat);
    let c = decimal(patch as nat);
    let d = decimal(subpatch as nat);
    lemma_decimal_plain(major as nat);
    lemma_decimal_plain(minor as nat);
    lemma_decimal_plain(patch as nat);
    lemma_decimal_plain(subpatch as nat);
    lemma_parse_decimal(major);
    lemma_parse_decimal(minor);
    lemma_parse_decimal(patch);
    lemma_parse_decimal(subpatch);
    let text = dotted(major, minor, patch, subpatch, count);
    let dot = seq!['.'];
    let pieces = split_on(text, '.');
    let expected = leading_numbers(major, minor, patch, subpatch, count);
    if count == 1 {
        lemma_split_single(a, '.');
        assert(pieces == seq![a]);
    } else if count == 2 {
        lemma_split_single(b, '.');
        lemma_split_first(a, b, '.');
        assert(pieces =~= seq![a, b]);
    } else if count == 3 {
        lemma_split_single(c, '.');
        lemma_split_first(b, c, '.');
        assert(text =~= a + dot + (b + dot + c));
        lemma_split_first(a, b + dot + c, '.');
        assert(pieces =~= seq![a, b, c]);
    } else {
        lemma_split_single(d, '.');
        lemma_split_first(c, d, '.');
        lemma_split_first(b, c + dot + d, '.');
        assert(text =~= a + dot + (b + dot + (c + dot + d)));
        lemma_split_first(a, b + dot + (c + dot + d), '.');
        assert(pieces =~= seq![a, b, c, d]);
    }
    assert forall|i: int| 0 <= i < pieces.len() implies (#[trigger] parse_u32_spec(pieces[i]))
        == Some(expected[i]) by {}
    assert(Seq::new(pieces.len(), |i: int| parse_u32_spec(pieces[i])->0) =~= expected);
    assert forall|i: int| 0 <= i < text.len() implies text[i] != '-' by {
        if i < a.len() {
        } else if i == a.len() {
        } else if i < a.len() + 1 + b.len() {
            assert(text[i] == b[i - a.len() - 1]);
        } else if i == a.len() + 1 + b.len() {
        } else if i < a.len() + 1 + b.len() + 1 + c.len() {
            assert(text[i] == c[i - a.len() - b.len() - 2]);
        } else if i == a.len() + 1 + b.len() + 1 + c.len() {
        } else {
            assert(text[i] == d[i - a.len() - b.len() - c.len() - 3]);
        }
    }
}

/// What reading `numbers-type`, with or without a final `-csharp`, gives:
/// the numbers written, the release type, and the flag that the form sets.
pub proof fn lemma_parse_written(
    major: u32,
    minor: u32,
    patch: u32,
    subpatch: u32,
    count: int,
    release_type: Seq<char>,
    csharp: bool,
    remote: bool,
)
    requires
        1 <= count <= 4,
        forall|i: int| 0 <= i < release_type.len() ==> release_type[i] != '-',
        remote ==> !csharp,
        !remote && !csharp ==> release_type != "csharp"@,
    ensures
        ({
            let tag = dotted(major, minor, patch, subpatch, count) + seq!['-'] + release_type;
            let text = if csharp {
                tag + "-csharp"@
            } else {
                tag
            };
            let nums = leading_numbers(major, minor, patch, subpatch, count);
            parse_version_spec(text, remote) == Some(
                PartialVersion {
                    major: component(nums, 0),
                    minor: component(nums, 1),
                    patch: component(nums, 2),
                    subpatch: component(nums, 3),
                    release_type: Some(release_type),
                    is_csharp: if remote {
                        None
                    } else {
                        Some(csharp)
                    },
                },
            )
        }),
{
    reveal_strlit("-csharp");
    reveal_strlit("csharp");
    let suffix = "-csharp"@;
    let numbers = dotted(major, minor, patch, subpatch, count);
    let tag = numbers + seq!['-'] + release_type;
    let text = if csharp {
        tag + suffix
    } else {
        tag
    };
    lemma_dotted(major, minor, patch, subpatch, count);
    let strip = !remote && has_suffix(text, suffix);
    if csharp {
        assert(text.subrange(text.len() - 7, text.len() as int) =~= suffix);
        assert(strip);
        assert(text.take(text.len() - 7) =~= tag);
    } else if !remote {
        if has_suffix(tag, suffix) {
            let at = tag.len() - 7;
            let tail = tag.subrange(at, tag.len() as int);
            assert(tail[0] == '-');
            assert(tag[at] == '-');
            if at < numbers.len() {
                assert(tag[at] == numbers[at]);
            } else if at > numbers.len() {
                assert(tag[at] == release_type[at - numbers.len() - 1]);
            }
            assert(at == numbers.len());
            assert(release_type.len() == 6);
            assert forall|k: int| 0 <= k < 6 implies release_type[k] == "csharp"@[k] by {
                assert(release_type[k] == tag[numbers.len() + 1 + k]);
                assert(tag[numbers.len() + 1 + k] == tail[k + 1]);
            }
            assert(release_type =~= "csharp"@);
        }
        assert(!strip);
    }
    let without = if strip {
        text.take(text.len() - suffix.len())
    } else {
        text
    };
    assert(without == tag);
    assert forall|j: int| numbers.len() < j < tag.len() implies tag[j] != '-' by {
        assert(tag[j] == release_type[j - numbers.len() - 1]);
    }
    assert(tag[numbers.len() as int] == '-');
    lemma_last_index_of_is(tag, '-', numbers.len() as int);
    assert(tag.take(numbers.len() as int) =~= numbers);
    assert(tag.skip(numbers.len() as int + 1) =~= release_type);
}

/// Reading an install folder name gives back the version that it names:
/// for every concrete version whose release type holds no hyphen and is not
/// the word `csharp` (unless the version is the C# variant), the name
/// parses, the parsed version zero-filled is the version itself with its
/// flag made explicit, and writing that version gives the same name again.
pub proof fn lemma_install_round_trip(v: ConcreteVersion)
    requires
        forall|i: int| 0 <= i < v.release_type.len() ==> v.release_type[i] != '-',
        !v.wants_csharp() ==> v.release_type != "csharp"@,
    ensures
        parse_version_spec(v.install_text(), false) is Some,
        parse_version_spec(v.install_text(), false)->0.to_determinate() == (ConcreteVersion {
            is_csharp: Some(v.wants_csharp()),
            ..v
        }),
        parse_version_spec(v.install_text(), false)->0.to_determinate().install_text()
            == v.install_text(),
{
    let count: int = if v.subpatch != 0 {
        4
    } else if v.patch != 0 {
        3
    } else {
        2
    };
    lemma_parse_written(
        v.major,
        v.minor,
        v.patch,
        v.subpatch,
        count,
        v.release_type,
        v.wants_csharp(),
        false,
    );
}

/// Reading the content of a pin file gives back the version that was
/// pinned: for every concrete version whose release type holds no hyphen
/// and is not the word `csharp` (unless the version is the C# variant),
/// the pin text parses in the install form, and the parsed version
/// zero-filled is the version itself with its flag made explicit.
pub proof fn lemma_pinned_round_trip(v: ConcreteVersion)
    requires
        forall|i: int| 0 <= i < v.release_type.len() ==> v.release_type[i] != '-',
        !v.wants_csharp() ==> v.release_type != "csharp"@,
    ensures
        parse_version_spec(v.pinned_text(), false) is Some,
        parse_version_spec(v.pinned_text(), false)->0.to_determinate() == (ConcreteVersion {
            is_csharp: Some(v.wants_csharp()),
            ..v
        }),
{
    let count: int = if v.subpatch != 0 {
        4
    } else {
        3
    };
    lemma_parse_written(
        v.major,
        v.minor,
        v.patch,
        v.subpatch,
        count,
        v.release_type,
        v.wants_csharp(),
        false,
    );
}

/// Reading a registry tag gives back the version that it names: for every
/// concrete version whose release type holds no hyphen, the tag parses and
/// the parsed version, given the version's flag and zero-filled, is the
/// version itself.
pub proof fn lemma_remote_round_trip(v: ConcreteVersion)
    requires
        forall|i: int| 0 <= i < v.release_type.len() ==> v.release_type[i] != '-',
    ensures
        parse_version_spec(v.remote_text(), true) is Some,
        (PartialVersion {
            is_csharp: v.is_csharp,
            ..parse_version_spec(v.remote_text(), true)->0
        }).to_determinate() == v,
{
    let count: int = if v.subpatch != 0 {
        4
    } else if v.patch != 0 {
        3
    } else {
        2
    };
    lemma_parse_written(v.major, v.minor, v.patch, v.subpatch, count, v.release_type, false, true);
}

/// Where all four numbers are written, reading a registry tag gives
/// exactly the version as a request: for every concrete version with a
/// sub-patch number other than zero and a release type without hyphen.
pub proof fn lemma_remote_round_trip_exact(v: ConcreteVersion)
    requires
        forall|i: int| 0 <= i < v.release_type.len() ==> v.release_type[i] != '-',
        v.subpatch != 0,
    ensures
        parse_version_spec(v.remote_text(), true) == Some(
            PartialVersion { is_csharp: None, ..v.to_indeterminate() },
        ),
{
    lemma_parse_written(v.major, v.minor, v.patch, v.subpatch, 4, v.release_type, false, true);
}

/// What was read from a text sets a later number only if it sets the one
/// before it, and its release type holds no hyphen. A version read in the
/// install form has the release type `csharp` only as the C# variant.
pub proof fn lemma_parsed_is_well_formed(raw: Seq<char>, remote: bool)
    requires
        parse_version_spec(raw, remote) is Some,
    ensures
        ({
            let p = parse_version_spec(raw, remote)->0;
            &&& p.well_formed()
            &&& p.major is Some
            &&& p.release_type is Some ==> forall|i: int|
                0 <= i < p.release_type->0.len() ==> p.release_type->0[i] != '-'
            &&& !remote ==> p.is_csharp is Some
            &&& !remote && p.release_type == Some("csharp"@) ==> p.is_csharp == Some(true)
        }),
{
    reveal_strlit("-csharp");
    reveal_strlit("csharp");
    let suffix = "-csharp"@;
    let strip = !remote && has_suffix(raw, suffix);
    let without = if strip {
        raw.take(raw.len() - suffix.len())
    } else {
        raw
    };
    let dash = last_index_of(without, '-');
    lemma_last_index_of(without, '-');
    let p = parse_version_spec(raw, remote)->0;
    if dash >= 0 {
        let release = without.skip(dash + 1);
        assert forall|i: int| 0 <= i < release.len() implies release[i] != '-' by {
            assert(release[i] == without[dash + 1 + i]);
        }
        if !remote && !strip && release == "csharp"@ {
            assert("csharp"@.len() == 6);
            assert(release.len() == without.len() - (dash + 1));
            assert(without.len() == dash + 7);
            let tail = raw.subrange(raw.len() - 7, raw.len() as int);
            assert forall|k: int| 0 <= k < 7 implies tail[k] == suffix[k] by {
                if k > 0 {
                    assert(tail[k] == release[k - 1]);
                }
            }
            assert(tail =~= suffix);
        }
    }
    let pieces = split_on(
        if dash >= 0 {
            without.take(dash)
        } else {
            without
        },
        '.',
    );
    assert(pieces.len() >= 1) by {
        crate::text::lemma_index_of(
            if dash >= 0 {
                without.take(dash)
            } else {
                without
            },
            '.',
        );
    }
}

/// Every text that reads as a version in the install form has a normal
/// form, the install folder name of the version read, and the normal form
/// reads as the same version and is written back unchanged.
pub proof fn lemma_install_name_normalises(s: Seq<char>)
    requires
        parse_version_spec(s, false) is Some,
    ensures
        ({
            let v = parse_version_spec(s, false)->0.to_determinate();
            let name = v.install_text();
            &&& parse_version_spec(name, false) is Some
            &&& parse_version_spec(name, false)->0.to_determinate() == v
            &&& parse_version_spec(name, false)->0.to_determinate().install_text() == name
        }),
{
    lemma_parsed_is_well_formed(s, false);
    let p = parse_version_spec(s, false)->0;
    let v = p.to_determinate();
    reveal_strlit("csharp");
    if p.release_type is None {
        assert(v.release_type.len() == 0);
    }
    lemma_install_round_trip(v);
}

/// A request fits a concrete version exactly when every number and the
/// release type that the request sets equal the version's, and the variant
/// flags are equal where both are set.
pub proof fn lemma_matches_concrete(p: PartialVersion, c: ConcreteVersion)
    ensures
        p.matches(c.to_indeterminate()) <==> {
            &&& p.major is Some ==> p.major->0 == c.major
            &&& p.minor is Some ==> p.minor->0 == c.minor
            &&& p.patch is Some ==> p.patch->0 == c.patch
            &&& p.subpatch is Some ==> p.subpatch->0 == c.subpatch
            &&& p.release_type is Some ==> p.release_type->0 == c.release_type
            &&& p.is_csharp is Some && c.is_csharp is Some ==> p.is_csharp == c.is_csharp
        },
{
}

/// A request that sets nothing fits every version, and a version seen as
/// a request fits itself.
pub proof fn lemma_matches_trivial(c: ConcreteVersion)
    ensures
        PartialVersion::any().matches(c.to_indeterminate()),
        c.to_indeterminate().matches(c.to_indeterminate()),
{
}

/// No version of `s` is newer than one that stands before it.
pub open spec fn newest_first(s: Seq<ConcreteVersion>) -> bool {
    forall|i: int, j: int| 0 <= i < j < s.len() ==> !(#[trigger] s[j]).newer_than(#[trigger] s[i])
}

/// Putting a version into a newest-first list keeps it newest first and
/// adds exactly that version.
pub proof fn lemma_insert_by_age(sorted: Seq<ConcreteVersion>, x: ConcreteVersion)
    requires
        newest_first(sorted),
    ensures
        newest_first(insert_by_age(sorted, x)),
        insert_by_age(sorted, x).len() == sorted.len() + 1,
        insert_by_age(sorted, x).to_multiset() == sorted.to_multiset().insert(x),
    decreases sorted.len(),
{
    broadcast use vstd::seq_lib::group_to_multiset_ensures;

    let r = insert_by_age(sorted, x);
    if sorted.len() == 0 {
        assert(r =~= sorted.push(x));
    } else if x.newer_than(sorted[0]) {
        assert(r =~= seq![x] + sorted);
        assert forall|i: int, j: int| 0 <= i < j < r.len() implies !(#[trigger] r[j]).newer_than(
            #[trigger] r[i],
        ) by {
            if i == 0 {
                assert(r[j] == sorted[j - 1]);
                assert(!sorted[j - 1].newer_than(sorted[0]) || j == 1);
            } else {
                assert(r[i] == sorted[i - 1] && r[j] == sorted[j - 1]);
            }
        }
        assert(r.remove(0) =~= sorted);
        assert(r[0] == x);
        assert(r.contains(x));
    } else {
        let rest = sorted.drop_first();
        assert forall|i: int, j: int| 0 <= i < j < rest.len() implies !(
        #[trigger] rest[j]).newer_than(#[trigger] rest[i]) by {
            assert(rest[i] == sorted[i + 1] && rest[j] == sorted[j + 1]);
        }
        lemma_insert_by_age(rest, x);
        let tail = insert_by_age(rest, x);
        assert(r =~= seq![sorted[0]] + tail);
        assert forall|k: int| 0 <= k < tail.len() implies !(#[trigger] tail[k]).newer_than(
            sorted[0],
        ) by {
            assert(tail.to_multiset().count(tail[k]) > 0) by {
                assert(tail.contains(tail[k]));
            }
            if tail[k] != x {
                assert(rest.to_multiset().count(tail[k]) > 0);
                assert(rest.contains(tail[k]));
                let m = choose|m: int| 0 <= m < rest.len() && rest[m] == tail[k];
                assert(rest[m] == sorted[m + 1]);
            }
        }
        assert forall|i: int, j: int| 0 <= i < j < r.len() implies !(#[trigger] r[j]).newer_than(
            #[trigger] r[i],
        ) by {
            if i == 0 {
                assert(r[j] == tail[j - 1]);
            } else {
                assert(r[i] == tail[i - 1] && r[j] == tail[j - 1]);
            }
        }
        assert(r.remove(0) =~= tail);
        assert(r[0] == sorted[0]);
        assert(r.contains(sorted[0]));
        assert(sorted.remove(0) =~= rest);
        assert(sorted.contains(sorted[0]));
        assert(tail.to_multiset() == r.to_multiset().remove(sorted[0]));
        assert(rest.to_multiset() == sorted.to_multiset().remove(sorted[0]));
        assert(r.to_multiset().count(sorted[0]) > 0);
        assert(sorted.to_multiset().count(sorted[0]) > 0);
        assert forall|y: ConcreteVersion|
            r.to_multiset().count(y) == sorted.to_multiset().insert(x).count(y) by {
            assert(tail.to_multiset().count(y) == rest.to_multiset().insert(x).count(y));
        }
        assert(r.to_multiset() =~= sorted.to_multiset().insert(x));
    }
}

/// The newest-first order of a list holds the same versions as the list,
/// each as often, and none of them stands behind an older one: higher
/// numbers come first, and among equal numbers `stable` comes before `rc`,
/// `rc` before `beta`, `beta` before `dev`, `dev` before anything else.
pub proof fn lemma_sort_newest_first(s: Seq<ConcreteVersion>)
    ensures
        newest_first(sort_newest_first(s)),
        sort_newest_first(s).len() == s.len(),
        sort_newest_first(s).to_multiset() == s.to_multiset(),
    decreases s.len(),
{
    broadcast use vstd::seq_lib::group_to_multiset_ensures;

    if s.len() > 0 {
        lemma_sort_newest_first(s.drop_last());
        lemma_insert_by_age(sort_newest_first(s.drop_last()), s.last());
        assert(s.drop_last().push(s.last()) =~= s);
    }
}

} // verus!
