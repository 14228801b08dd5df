//! Checking a download against its declared hash.

use vstd::prelude::*;
use crate::error::GdvmError;
use crate::text::chars_of;

verus! {

/// The hash function that a declared hash was made with.
#[derive(Debug, Clone, Copy, PartialEq, Eq, Structural)]
pub enum ShaType {
    Sha256,
    Sha512,
}

/// The SHA-256 digest of `data`, as the `sha2` crate computes it.
pub uninterp spec fn sha256_digest(data: Seq<u8>) -> Seq<u8>;

/// The SHA-512 digest of `data`, as the `sha2` crate computes it.
pub uninterp spec fn sha512_digest(data: Seq<u8>) -> Seq<u8>;

/// `sha2::Sha256::digest`: the digest is a function of the data alone.
#[verifier::external_body]
fn sha256_of(data: &[u8]) -> (r: Vec<u8>)
    ensures
        r@ == sha256_digest(data@),
{
    <sha2::Sha256 as sha2::Digest>::digest(data).to_vec()
}

/// `sha2::Sha512::digest`: the digest is a function of the data alone.
#[verifier::external_body]
fn sha512_of(data: &[u8]) -> (r: Vec<u8>)
    ensures
        r@ == sha512_digest(data@),
{
    <sha2::Sha512 as sha2::Digest>::digest(data).to_vec()
}

/// The lower-case hexadecimal digit for a value below 16.
pub open spec fn hex_digit(n: int) -> char {
    if n < 10 {
        ('0' as int + n) as char
    } else {
        ('a' as int + n - 10) as char
    }
}

/// The bytes written as lower-case hexadecimal, two digits each.
pub open spec fn hex_of(bytes: Seq<u8>) -> Seq<char>
    decreases bytes.len(),
{
    if bytes.len() == 0 {
        Seq::empty()
    } else {
        hex_of(bytes.drop_last()).push(hex_digit(bytes.last() as int / 16)).push(
            hex_digit(bytes.last() as int % 16),
        )
    }
}

/// An ASCII capital letter as its small letter; any other character as
/// it is.
pub open spec fn ascii_lower(c: char) -> char {
    if 'A' <= c && c <= 'Z' {
        (c as int + 32) as char
    } else {
        c
    }
}

/// The text with its ASCII capital letters made small.
pub open spec fn lowered(s: Seq<char>) -> Seq<char> {
    Seq::new(s.len(), |i: int| ascii_lower(s[i]))
}

/// The hash function for a declared hash: SHA-256 for 64 characters,
/// SHA-512 for 128, none for any other length.
pub open spec fn sha_type_spec(hash: Seq<char>) -> Option<ShaType> {
    if hash.len() == 64 {
        Some(ShaType::Sha256)
    } else if hash.len() == 128 {
        Some(ShaType::Sha512)
    } else {
        None
    }
}

/// The digest of `data` under the given hash function, in hexadecimal.
pub open spec fn digest_hex(kind: ShaType, data: Seq<u8>) -> Seq<char> {
    match kind {
        ShaType::Sha256 => hex_of(sha256_digest(data)),
        ShaType::Sha512 => hex_of(sha512_digest(data)),
    }
}

/// `data` has the declared hash `expected`: the hash has the length of a
/// known hash function, and the digest of the data in hexadecimal is the
/// hash, letter case aside.
pub open spec fn has_declared_hash(data: Seq<u8>, expected: Seq<char>) -> bool {
    match sha_type_spec(expected) {
        Some(kind) => digest_hex(kind, data) == lowered(expected),
        None => false,
    }
}

impl ShaType {
    /// The hash function that a declared hash of this length was made
    /// with.
    pub fn from_hash_length(hash: &str) -> (r: Option<ShaType>)
        ensures
            r == sha_type_spec(hash@),
    {
        let n = chars_of(hash).len();
        if n == 64 {
            Some(ShaType::Sha256)
        } else if n == 128 {
            Some(ShaType::Sha512)
        } else {
            None
        }
    }
}

/// The lower-case hexadecimal digit for a value below 16.
fn hex_char(n: u8) -> (r: char)
    requires
        n < 16,
    ensures
        r == hex_digit(n as int),
{
    if n < 10 {
        (48u8 + n) as char
    } else {
        (87u8 + n) as char
    }
}

/// Writes bytes as lower-case hexadecimal.
pub fn to_hex(bytes: &[u8]) -> (r: Vec<char>)
    ensures
        r@ == hex_of(bytes@),
{
    let mut out: Vec<char> = Vec::new();
    let mut i: usize = 0;
    assert(bytes@.take(0) =~= Seq::<u8>::empty());
    while i < bytes.len()
        invariant
            i <= bytes.len(),
            out@ == hex_of(bytes@.take(i as int)),
        decreases bytes.len() - i,
    {
        let b = bytes[i];
        assert(bytes@.take(i + 1).drop_last() =~= bytes@.take(i as int));
        assert(bytes@.take(i + 1).last() == b);
        out.push(hex_char(b / 16));
        out.push(hex_char(b % 16));
        i = i + 1;
    }
    assert(bytes@.take(i as int) =~= bytes@);
    out
}

/// Whether a digest in hexadecimal is the declared hash, letter case of
/// the declared hash aside.
pub fn digest_matches(computed: &[char], expected: &[char]) -> (r: bool)
    ensures
        r == (computed@ == lowered(expected@)),
{
    if computed.len() != expected.len() {
        return false;
    }
    let mut i: usize = 0;
    while i < computed.len()
        invariant
            i <= computed.len(),
            computed.len() == expected.len(),
            forall|j: int| 0 <= j < i ==> computed@[j] == ascii_lower(expected@[j]),
        decreases computed.len() - i,
    {
        let e = expected[i];
        let low: char = if e >= 'A' && e <= 'Z' {
            ((e as u8) + 32u8) as char
        } else {
            e
        };
        if computed[i] != low {
            assert(lowered(expected@)[i as int] != computed@[i as int]);
            return false;
        }
        i = i + 1;
    }
    assert(computed@ =~= lowered(expected@));
    true
}

/// The verdict on data whose digest, in hexadecimal, is `computed`: fine
/// where the digest is the declared hash, a checksum mismatch otherwise.
pub fn check_digest(computed: &[char], expected: &str) -> (r: Result<(), GdvmError>)
    ensures
        computed@ == lowered(expected@) ==> r is Ok,
        computed@ != lowered(expected@) ==> r is Err && r->Err_0 is ChecksumMismatch,
{
    let e = chars_of(expected);
    if digest_matches(computed, e.as_slice()) {
        Ok(())
    } else {
        Err(GdvmError::ChecksumMismatch)
    }
}

/// Checks data against its declared hash. A hash of 64 characters is
/// taken as SHA-256, one of 128 as SHA-512; any other length is refused
/// as invalid. Data whose digest differs from the hash is a checksum
/// mismatch.
pub fn verify_sha(data: &[u8], expected: &str) -> (r: Result<(), GdvmError>)
    ensures
        match sha_type_spec(expected@) {
            None => r is Err && r->Err_0 is InvalidHashLength,
            Some(kind) => if digest_hex(kind, data@) == lowered(expected@) {
                r is Ok
            } else {
                r is Err && r->Err_0 is ChecksumMismatch
            },
        },
        r is Ok <==> has_declared_hash(data@, expected@),
{
    match ShaType::from_hash_length(expected) {
        None => Err(GdvmError::InvalidHashLength),
        Some(ShaType::Sha256) => {
            let digest = sha256_of(data);
            let hex = to_hex(digest.as_slice());
            check_digest(hex.as_slice(), expected)
        },
        Some(ShaType::Sha512) => {
            let digest = sha512_of(data);
            let hex = to_hex(digest.as_slice());
            check_digest(hex.as_slice(), expected)
        },
    }
}

} // verus!
