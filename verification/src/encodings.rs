//! Trusted wrappers around deterministic outside encoders: SHA-256, base64,
//! percent-encoding, UUID rendering and RFC 3339 timestamp rendering.
//!
//! Each deterministic result that has no short closed form is given an
//! uninterpreted name (`sha256_of`, `b64url_of`, ...); the wrappers promise
//! that the call returns exactly that name applied to its argument, plus the
//! few facts the outside crate's documentation states plainly (lengths,
//! canonicity of decoding, pass-through of unreserved characters).

use base64::Engine;
use sha2::Digest;
use vstd::prelude::*;

verus! {

/// The SHA-256 digest (32 bytes) of the UTF-8 encoding of `s`.
pub uninterp spec fn sha256_of(s: Seq<char>) -> Seq<u8>;

/// Relies on `sha2::Sha256`: digest of the string's UTF-8 bytes, a function
/// of the characters alone, always 32 bytes.
#[verifier::external_body]
pub fn sha256_str(s: &str) -> (r: Vec<u8>)
    ensures
        r@ == sha256_of(s@),
        r@.len() == 32,
{
    let mut hasher = sha2::Sha256::new();
    hasher.update(s.as_bytes());
    hasher.finalize().to_vec()
}

/// The URL-safe unpadded base64 rendering of `b`.
pub uninterp spec fn b64url_of(b: Seq<u8>) -> Seq<char>;

/// Relies on `base64`'s `URL_SAFE_NO_PAD` engine: encoding is a function of
/// the bytes alone, of length `ceil(4n/3)`.
#[verifier::external_body]
pub fn b64url_encode(b: &[u8]) -> (r: String)
    ensures
        r@ == b64url_of(b@),
        r@.len() == (b@.len() * 4 + 2) / 3,
{
    base64::engine::general_purpose::URL_SAFE_NO_PAD.encode(b)
}

/// The standard padded base64 rendering of `b`.
pub uninterp spec fn b64std_of(b: Seq<u8>) -> Seq<char>;

/// Relies on `base64`'s `STANDARD` engine: encoding is a function of the
/// bytes alone, of length `4 * ceil(n/3)`.
#[verifier::external_body]
pub fn b64std_encode(b: &[u8]) -> (r: String)
    ensures
        r@ == b64std_of(b@),
        r@.len() == 4 * ((b@.len() + 2) / 3),
{
    base64::engine::general_purpose::STANDARD.encode(b)
}

/// Relies on `base64`'s `STANDARD` engine in its default configuration, which
/// requires canonical padding and rejects non-zero trailing bits: decoding
/// succeeds exactly on canonical encodings and inverts `b64std_of`.
#[verifier::external_body]
pub fn b64std_decode(s: &str) -> (r: Option<Vec<u8>>)
    ensures
        match r {
            Some(d) => b64std_of(d@) == s@ && (forall|d2: Seq<u8>|
                b64std_of(d2) == s@ ==> d2 == d@),
            None => forall|d2: Seq<u8>| b64std_of(d2) != s@,
        },
{
    base64::engine::general_purpose::STANDARD.decode(s).ok()
}

/// The percent-encoding of `s` (UTF-8 bytes, every byte escaped except
/// ASCII alphanumerics and `-`, `_`, `.`, `~`).
pub uninterp spec fn pct_encoded_of(s: Seq<char>) -> Seq<char>;

/// `c` passes through percent-encoding unchanged.
pub open spec fn is_unreserved_char(c: char) -> bool {
    ('a' <= c && c <= 'z') || ('A' <= c && c <= 'Z') || ('0' <= c && c <= '9') || c == '-' || c
        == '_' || c == '.' || c == '~'
}

/// Relies on `urlencoding::encode`: a function of the characters alone; a
/// string made only of unreserved characters is returned unchanged.
#[verifier::external_body]
pub fn percent_encode(s: &str) -> (r: String)
    ensures
        r@ == pct_encoded_of(s@),
        (forall|i: int| 0 <= i < s@.len() ==> is_unreserved_char(s@[i])) ==> r@ == s@,
{
    urlencoding::encode(s).into_owned()
}

/// Relies on `uuid::Uuid::new_v4` and its `Display` rendering: a fresh random
/// identifier, always 36 characters in hyphenated form.  The value itself is
/// random and nothing more is promised of it.
#[verifier::external_body]
pub fn new_random_id() -> (r: String)
    ensures
        r@.len() == 36,
{
    uuid::Uuid::new_v4().to_string()
}

/// The RFC 3339 rendering of the Unix timestamp `secs` in UTC.
pub uninterp spec fn rfc3339_utc_of(secs: u64) -> Seq<char>;

/// Relies on `chrono::DateTime::from_timestamp` and `to_rfc3339`: for
/// timestamps up to the year 9999 the rendering is defined and a function of
/// the timestamp alone.
#[verifier::external_body]
pub fn rfc3339_utc(secs: u64) -> (r: String)
    requires
        secs < 253402300800,
    ensures
        r@ == rfc3339_utc_of(secs),
{
    chrono::DateTime::<chrono::Utc>::from_timestamp(secs as i64, 0).map(|t| t.to_rfc3339()).unwrap_or_else(
        String::new,
    )
}

} // verus!
