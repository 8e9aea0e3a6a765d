//! Digests and their text encodings: SHA-256 (sha2) and BLAKE3 (blake3)
//! digests rendered as lower-case hex, with the labelled forms stored
//! beside policy text and evaluation snapshots.

use vstd::prelude::*;
use vstd::string::{StringExecFns, StringSliceAdditionalSpecFns};
use crate::text::string_of;

verus! {

/// The SHA-256 digest of `data`.
pub uninterp spec fn spec_sha256(data: Seq<u8>) -> Seq<u8>;

/// The BLAKE3 digest (32-byte output) of `data`.
pub uninterp spec fn spec_blake3(data: Seq<u8>) -> Seq<u8>;

/// `sha2::Sha256::digest`: the 32-byte SHA-256 digest of `data`.
#[verifier::external_body]
fn sha256_digest(data: &[u8]) -> (d: [u8; 32])
    ensures
        d@ == spec_sha256(data@),
{
    <sha2::Sha256 as sha2::Digest>::digest(data).into()
}

/// `blake3::hash`: the 32-byte BLAKE3 digest of `data`.
#[verifier::external_body]
fn blake3_digest(data: &[u8]) -> (d: [u8; 32])
    ensures
        d@ == spec_blake3(data@),
{
    *blake3::hash(data).as_bytes()
}

/// Lower-case hex digit for `n < 16`.
pub open spec fn hex_digit(n: u8) -> char {
    if n < 10 {
        (('0' as u8) + n) as char
    } else {
        (('a' as u8) + (n - 10)) as char
    }
}

/// Lower-case hex encoding: two digits per byte, high nibble first.
pub open spec fn hex(bytes: Seq<u8>) -> Seq<char>
    decreases bytes.len(),
{
    if bytes.len() == 0 {
        Seq::empty()
    } else {
        let b = bytes.last();
        hex(bytes.drop_last()).push(hex_digit(b / 16)).push(hex_digit(b % 16))
    }
}

fn hex_digit_exec(n: u8) -> (c: char)
    requires
        n < 16,
    ensures
        c == hex_digit(n),
{
    if n < 10 {
        (48u8 + n) as char
    } else {
        (97u8 + (n - 10)) as char
    }
}

/// Lower-case hex encoding of `bytes`.
pub fn to_hex(bytes: &[u8]) -> (s: String)
    ensures
        s@ == hex(bytes@),
{
    let mut out: Vec<char> = Vec::new();
    let mut i: usize = 0;
    while i < bytes.len()
        invariant
            i <= bytes.len(),
            out@ == hex(bytes@.take(i as int)),
        decreases bytes.len() - i,
    {
        let b = bytes[i];
        assert(bytes@.take(i + 1).drop_last() =~= bytes@.take(i as int));
        out.push(hex_digit_exec(b / 16));
        out.push(hex_digit_exec(b % 16));
        i = i + 1;
    }
    assert(bytes@.take(bytes.len() as int) =~= bytes@);
    string_of(&out)
}

/// The SHA-256 digest of `bytes` as 64 lower-case hex digits.
pub fn sha256_hex(bytes: &[u8]) -> (s: String)
    ensures
        s@ == hex(spec_sha256(bytes@)),
{
    let d = sha256_digest(bytes);
    to_hex(&d)
}

/// The SHA-256 digest of a token's UTF-8 bytes.
pub fn hash_plaintext(plaintext: &str) -> (d: [u8; 32])
    ensures
        d@ == spec_sha256(plaintext.spec_bytes()),
{
    sha256_digest(plaintext.as_bytes())
}

/// Content hash of policy text: `sha256:v1:` followed by the hex digest of
/// its UTF-8 bytes.
pub fn hash_text(value: &str) -> (s: String)
    ensures
        s@ == "sha256:v1:"@ + hex(spec_sha256(value.spec_bytes())),
{
    let digest = sha256_hex(value.as_bytes());
    let mut s = "sha256:v1:".to_owned();
    s.append(digest.as_str());
    s
}

/// Content hash of serialized bytes: `blake3:v1:` followed by the hex
/// BLAKE3 digest.
pub fn blake3_label(bytes: &[u8]) -> (s: String)
    ensures
        s@ == "blake3:v1:"@ + hex(spec_blake3(bytes@)),
{
    let d = blake3_digest(bytes);
    let digest = to_hex(&d);
    let mut s = "blake3:v1:".to_owned();
    s.append(digest.as_str());
    s
}

/// The hex encoding has two digits per byte.
pub proof fn law_hex_length(bytes: Seq<u8>)
    ensures
        hex(bytes).len() == 2 * bytes.len(),
    decreases bytes.len(),
{
    if bytes.len() > 0 {
        law_hex_length(bytes.drop_last());
    }
}

} // verus!
