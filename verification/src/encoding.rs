//! Digests, hexadecimal and base64 text, and point identifiers.
use base64::engine::general_purpose::STANDARD;
use base64::Engine;
use sha2::{Digest, Sha256};
use uuid::Uuid;
use vstd::prelude::*;

use crate::text::{digit, digit_char};

verus! {

/// Each byte as two lower-case hexadecimal digits, the high one first.
pub open spec fn hex_seq(bytes: Seq<u8>) -> Seq<char> {
    Seq::new(
        bytes.len() * 2,
        |i: int|
            if i % 2 == 0 {
                digit_char(bytes[i / 2] as int / 16)
            } else {
                digit_char(bytes[i / 2] as int % 16)
            },
    )
}

/// The character of value `v` in the standard base64 alphabet.
pub open spec fn base64_char(v: int) -> char {
    if v < 26 {
        ('A' as int + v) as char
    } else if v < 52 {
        ('a' as int + (v - 26)) as char
    } else if v < 62 {
        ('0' as int + (v - 52)) as char
    } else if v == 62 {
        '+'
    } else {
        '/'
    }
}

/// `bytes` in standard base64: four characters for each three bytes, the last
/// group filled up with `=`.
pub open spec fn base64_seq(bytes: Seq<u8>) -> Seq<char>
    decreases bytes.len(),
{
    if bytes.len() == 0 {
        Seq::empty()
    } else {
        let b0 = bytes[0] as int;
        let b1 = if bytes.len() > 1 { bytes[1] as int } else { 0 };
        let b2 = if bytes.len() > 2 { bytes[2] as int } else { 0 };
        seq![
            base64_char(b0 / 4),
            base64_char(b0 % 4 * 16 + b1 / 16),
            if bytes.len() > 1 { base64_char(b1 % 16 * 4 + b2 / 64) } else { '=' },
            if bytes.len() > 2 { base64_char(b2 % 64) } else { '=' },
        ] + (if bytes.len() > 3 { base64_seq(bytes.skip(3)) } else { Seq::empty() })
    }
}

/// A lower-case hexadecimal digit.
pub open spec fn is_hex_digit(c: char) -> bool {
    ('0' <= c && c <= '9') || ('a' <= c && c <= 'f')
}

/// The character at place `i` of a UUID: a hyphen between two groups, else a digit.
pub open spec fn uuid_char(i: int, c: char) -> bool {
    if i == 8 || i == 13 || i == 18 || i == 23 {
        c == '-'
    } else {
        is_hex_digit(c)
    }
}

/// A UUID in hyphenated form, of this version and of the standard variant.
pub open spec fn is_uuid(s: Seq<char>, version: char) -> bool {
    &&& s.len() == 36
    &&& forall|i: int| 0 <= i < 36 ==> uuid_char(i, #[trigger] s[i])
    &&& s[14] == version
    &&& s[19] == '8' || s[19] == '9' || s[19] == 'a' || s[19] == 'b'
}

/// The SHA-256 digest of `bytes`.
pub uninterp spec fn sha256_digest(bytes: Seq<u8>) -> Seq<u8>;

/// The version 5 UUID of `name` in the DNS namespace, in hyphenated form.
pub uninterp spec fn dns_uuid(name: Seq<u8>) -> Seq<char>;

/// `sha2::Sha256::digest`: the digest of the whole input, 32 bytes long. Which
/// bytes they are is left to the name `sha256_digest`.
#[verifier::external_body]
pub(crate) fn sha256(bytes: &[u8]) -> (r: Vec<u8>)
    ensures
        r@ == sha256_digest(bytes@),
        r@.len() == 32,
{
    Sha256::digest(bytes).to_vec()
}

/// `base64::Engine::encode` of the engine `STANDARD`: the standard alphabet with
/// padding. The bound keeps the encoded text within what can be allocated.
#[verifier::external_body]
pub(crate) fn base64_encode(bytes: &[u8]) -> (r: String)
    requires
        bytes@.len() <= usize::MAX / 4,
    ensures
        r@ == base64_seq(bytes@),
{
    STANDARD.encode(bytes)
}

/// `uuid::Uuid::new_v5` in the namespace `NAMESPACE_DNS`, rendered: a function
/// of the name alone, and a UUID of version 5. Which one it is is left to the name
/// `dns_uuid`.
#[verifier::external_body]
pub(crate) fn uuid_v5_dns(name: &[u8]) -> (r: String)
    ensures
        r@ == dns_uuid(name@),
        is_uuid(r@, '5'),
{
    Uuid::new_v5(&Uuid::NAMESPACE_DNS, name).to_string()
}

/// `uuid::Uuid::new_v4`, rendered: a random identifier. Whatever was drawn, its
/// text is that of a UUID of version 4; that it is drawn anew each time is left
/// unsaid.
#[verifier::external_body]
pub(crate) fn uuid_v4() -> (r: String)
    ensures
        is_uuid(r@, '4'),
{
    Uuid::new_v4().to_string()
}

/// The SHA-256 digest of `bytes` in hexadecimal.
pub fn sha256_hex(bytes: &[u8]) -> (r: String)
    ensures
        r@ == hex_seq(sha256_digest(bytes@)),
        r@.len() == 64,
{
    let digest = sha256(bytes);
    hex_lower(digest.as_slice())
}

/// Renders `bytes` in lower-case hexadecimal.
pub fn hex_lower(bytes: &[u8]) -> (r: String)
    requires
        bytes@.len() <= usize::MAX / 2,
    ensures
        r@ == hex_seq(bytes@),
{
    let mut s = String::new();
    for i in 0..bytes.len()
        invariant
            s@ =~= hex_seq(bytes@).take(i * 2),
    {
        let b: u64 = bytes[i] as u64;
        s.push(digit(b / 16));
        s.push(digit(b % 16));
    }
    assert(hex_seq(bytes@).take(bytes@.len() as int * 2) =~= hex_seq(bytes@));
    s
}

/// The value of a hexadecimal digit.
pub open spec fn hex_value(c: char) -> int {
    if '0' <= c && c <= '9' {
        c as int - '0' as int
    } else {
        c as int - 'a' as int + 10
    }
}

/// Bytes are read back from their hexadecimal digits, two for each.
pub proof fn law_hex_is_read_back(bytes: Seq<u8>, i: int)
    requires
        0 <= i < bytes.len(),
    ensures
        hex_seq(bytes).len() == 2 * bytes.len(),
        16 * hex_value(hex_seq(bytes)[2 * i]) + hex_value(hex_seq(bytes)[2 * i + 1]) == bytes[i],
        is_hex_digit(hex_seq(bytes)[2 * i]) && is_hex_digit(hex_seq(bytes)[2 * i + 1]),
{
    assert((2 * i) % 2 == 0 && (2 * i) / 2 == i);
    assert((2 * i + 1) % 2 == 1 && (2 * i + 1) / 2 == i);
    let b = bytes[i] as int;
    assert(hex_seq(bytes)[2 * i] == digit_char(b / 16));
    assert(hex_seq(bytes)[2 * i + 1] == digit_char(b % 16));
    assert(0 <= b / 16 < 16 && 0 <= b % 16 < 16 && 16 * (b / 16) + b % 16 == b);
}

} // verus!
