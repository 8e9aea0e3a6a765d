//! Workspace API keys: the shape of a generated key, built from 32 random
//! bytes, and the SHA-256 hash under which it is stored.

use vstd::prelude::*;
use vstd::string::StringExecFns;
use vstd::utf8::encode_utf8;
use crate::crypto::{hash_plaintext, spec_sha256};
use crate::text::{chars_of, string_of};

verus! {

/// The character of a sextet in the URL-safe base64 alphabet
/// (`A`-`Z`, `a`-`z`, `0`-`9`, `-`, `_`).
pub open spec fn url_safe_char(v: int) -> char {
    if v < 26 {
        (65 + v) as char
    } else if v < 52 {
        (97 + v - 26) as char
    } else if v < 62 {
        (48 + v - 52) as char
    } else if v == 62 {
        '-'
    } else {
        '_'
    }
}

/// The sextet a URL-safe base64 character stands for.
pub open spec fn url_safe_value(c: char) -> int {
    if 'A' <= c <= 'Z' {
        c as int - 65
    } else if 'a' <= c <= 'z' {
        c as int - 97 + 26
    } else if '0' <= c <= '9' {
        c as int - 48 + 52
    } else if c == '-' {
        62
    } else {
        63
    }
}

/// The unpadded URL-safe base64 encoding of `bytes`: each group of three
/// bytes becomes four characters, a final group of one or two bytes two or
/// three characters, with no `=` padding.
pub open spec fn spec_base64_url_no_pad(bytes: Seq<u8>) -> Seq<char>
    decreases bytes.len(),
{
    let b = |i: int| bytes[i] as int;
    if bytes.len() == 0 {
        Seq::empty()
    } else if bytes.len() == 1 {
        seq![url_safe_char(b(0) / 4), url_safe_char((b(0) % 4) * 16)]
    } else if bytes.len() == 2 {
        seq![
            url_safe_char(b(0) / 4),
            url_safe_char((b(0) % 4) * 16 + b(1) / 16),
            url_safe_char((b(1) % 16) * 4),
        ]
    } else {
        seq![
            url_safe_char(b(0) / 4),
            url_safe_char((b(0) % 4) * 16 + b(1) / 16),
            url_safe_char((b(1) % 16) * 4 + b(2) / 64),
            url_safe_char(b(2) % 64),
        ] + spec_base64_url_no_pad(bytes.skip(3))
    }
}

/// Decoding of unpadded URL-safe base64 text, group by group.
pub open spec fn base64_url_decode(text: Seq<char>) -> Seq<u8>
    decreases text.len(),
{
    let v = |i: int| url_safe_value(text[i]);
    if text.len() < 2 {
        Seq::empty()
    } else if text.len() == 2 {
        seq![(v(0) * 4 + v(1) / 16) as u8]
    } else if text.len() == 3 {
        seq![(v(0) * 4 + v(1) / 16) as u8, ((v(1) % 16) * 16 + v(2) / 4) as u8]
    } else {
        seq![
            (v(0) * 4 + v(1) / 16) as u8,
            ((v(1) % 16) * 16 + v(2) / 4) as u8,
            ((v(2) % 4) * 64 + v(3)) as u8,
        ] + base64_url_decode(text.skip(4))
    }
}

proof fn lemma_url_safe_char_value(v: int)
    requires
        0 <= v < 64,
    ensures
        url_safe_value(url_safe_char(v)) == v,
{
}

proof fn lemma_sextets(b0: int, b1: int, b2: int)
    requires
        0 <= b0 < 256,
        0 <= b1 < 256,
        0 <= b2 < 256,
    ensures
        0 <= b0 / 4 < 64,
        0 <= (b0 % 4) * 16 + b1 / 16 < 64,
        0 <= (b1 % 16) * 4 + b2 / 64 < 64,
        0 <= b2 % 64 < 64,
        0 <= (b0 % 4) * 16 < 64,
        0 <= (b1 % 16) * 4 < 64,
        (b0 / 4) * 4 + ((b0 % 4) * 16 + b1 / 16) / 16 == b0,
        (((b0 % 4) * 16 + b1 / 16) % 16) * 16 + ((b1 % 16) * 4 + b2 / 64) / 4 == b1,
        (((b1 % 16) * 4 + b2 / 64) % 4) * 64 + b2 % 64 == b2,
        (b0 / 4) * 4 + ((b0 % 4) * 16) / 16 == b0,
        (((b0 % 4) * 16 + b1 / 16) % 16) * 16 + ((b1 % 16) * 4) / 4 == b1,
{
}

/// Decoding gives back the encoded bytes.
pub proof fn lemma_base64_url_roundtrip(bytes: Seq<u8>)
    ensures
        base64_url_decode(spec_base64_url_no_pad(bytes)) == bytes,
    decreases bytes.len(),
{
    let e = spec_base64_url_no_pad(bytes);
    if bytes.len() == 1 {
        lemma_sextets(bytes[0] as int, 0, 0);
        lemma_url_safe_char_value((bytes[0] as int) / 4);
        lemma_url_safe_char_value(((bytes[0] as int) % 4) * 16);
        assert(base64_url_decode(e) =~= bytes);
    } else if bytes.len() == 2 {
        lemma_sextets(bytes[0] as int, bytes[1] as int, 0);
        lemma_url_safe_char_value((bytes[0] as int) / 4);
        lemma_url_safe_char_value(((bytes[0] as int) % 4) * 16 + (bytes[1] as int) / 16);
        lemma_url_safe_char_value(((bytes[1] as int) % 16) * 4);
        assert(base64_url_decode(e) =~= bytes);
    } else if bytes.len() >= 3 {
        let rest = bytes.skip(3);
        lemma_base64_url_roundtrip(rest);
        lemma_sextets(bytes[0] as int, bytes[1] as int, bytes[2] as int);
        lemma_url_safe_char_value((bytes[0] as int) / 4);
        lemma_url_safe_char_value(((bytes[0] as int) % 4) * 16 + (bytes[1] as int) / 16);
        lemma_url_safe_char_value(((bytes[1] as int) % 16) * 4 + (bytes[2] as int) / 64);
        lemma_url_safe_char_value((bytes[2] as int) % 64);
        assert(e.skip(4) =~= spec_base64_url_no_pad(rest));
        assert(bytes =~= seq![bytes[0], bytes[1], bytes[2]] + rest);
        assert(base64_url_decode(e) =~= bytes);
    } else {
        assert(base64_url_decode(e) =~= bytes);
    }
}

/// The encoded length: four characters per full group of three bytes, and
/// one more than the bytes of a final partial group.
pub proof fn lemma_base64_url_len(bytes: Seq<u8>)
    ensures
        spec_base64_url_no_pad(bytes).len() == 4 * (bytes.len() / 3) + if bytes.len() % 3 == 0 {
            0
        } else {
            bytes.len() % 3 + 1
        },
    decreases bytes.len(),
{
    if bytes.len() >= 3 {
        lemma_base64_url_len(bytes.skip(3));
    }
}

/// `base64::engine::general_purpose::URL_SAFE_NO_PAD.encode`: the unpadded
/// URL-safe base64 text of the bytes.
#[verifier::external_body]
fn base64_url_no_pad(bytes: &[u8; 32]) -> (r: String)
    ensures
        r@ == spec_base64_url_no_pad(bytes@),
{
    base64::Engine::encode(&base64::engine::general_purpose::URL_SAFE_NO_PAD, bytes)
}

/// `rand::RngCore::fill_bytes` on the thread-local generator: 32 random
/// bytes. Nothing is promised of their values.
#[verifier::external_body]
fn random_key_bytes() -> (r: [u8; 32]) {
    let mut random = [0u8; 32];
    rand::RngCore::fill_bytes(&mut rand::thread_rng(), &mut random);
    random
}

/// Length of the visible key prefix.
pub const KEY_PREFIX_CHARS: usize = 5;

/// A key made from `encoded`, the base64 text of its random bytes:
/// `tlg_`, the first five characters, `_`, then the whole text.
pub open spec fn key_text(encoded: Seq<char>) -> Seq<char> {
    "tlg_"@ + encoded.take(5) + "_"@ + encoded
}

/// A generated key: the plaintext, its visible prefix, and the SHA-256
/// hash of the plaintext.
#[derive(Debug, Clone, PartialEq, Eq)]
pub struct GeneratedKey {
    pub plaintext: String,
    pub prefix: String,
    pub hash: [u8; 32],
}

/// The key built from given random bytes.
pub fn key_from_random(random: &[u8; 32]) -> (r: GeneratedKey)
    ensures
        r.prefix@ == spec_base64_url_no_pad(random@).take(5),
        r.prefix@.len() == 5,
        r.plaintext@ == key_text(spec_base64_url_no_pad(random@)),
        r.hash@ == spec_sha256(encode_utf8(r.plaintext@)),
{
    let encoded = base64_url_no_pad(random);
    proof {
        lemma_base64_url_len(random@);
    }
    let chars = chars_of(encoded.as_str());
    let mut prefix_chars: Vec<char> = Vec::new();
    let mut i: usize = 0;
    while i < KEY_PREFIX_CHARS
        invariant
            i <= 5,
            chars@.len() == 43,
            prefix_chars@ == chars@.take(i as int),
        decreases 5 - i,
    {
        prefix_chars.push(chars[i]);
        i = i + 1;
    }
    let prefix = string_of(&prefix_chars);
    let mut plaintext = "tlg_".to_owned();
    plaintext.append(prefix.as_str());
    plaintext.append("_");
    plaintext.append(encoded.as_str());
    let hash = hash_plaintext(plaintext.as_str());
    GeneratedKey { plaintext, prefix, hash }
}

/// A fresh key from 32 random bytes.
pub fn generate_key() -> (r: GeneratedKey)
    ensures
        exists|random: Seq<u8>|
            random.len() == 32 && r.plaintext@ == key_text(#[trigger] spec_base64_url_no_pad(random))
                && r.prefix@ == spec_base64_url_no_pad(random).take(5),
        r.prefix@.len() == 5,
        r.hash@ == spec_sha256(encode_utf8(r.plaintext@)),
{
    let random = random_key_bytes();
    key_from_random(&random)
}

/// Keys made from different random bytes differ: the plaintext of a key
/// determines the 32 bytes it was made from.
pub proof fn law_keys_differ_with_their_bytes(a: Seq<u8>, b: Seq<u8>)
    requires
        a.len() == 32,
        b.len() == 32,
        a != b,
    ensures
        key_text(spec_base64_url_no_pad(a)) != key_text(spec_base64_url_no_pad(b)),
{
    let ea = spec_base64_url_no_pad(a);
    let eb = spec_base64_url_no_pad(b);
    lemma_base64_url_roundtrip(a);
    lemma_base64_url_roundtrip(b);
    lemma_base64_url_len(a);
    lemma_base64_url_len(b);
    if key_text(ea) == key_text(eb) {
        reveal_strlit("tlg_");
        reveal_strlit("_");
        assert(key_text(ea).skip(10) =~= ea);
        assert(key_text(eb).skip(10) =~= eb);
        assert(false);
    }
}

} // verus!
