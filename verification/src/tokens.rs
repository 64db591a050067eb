//! Login and session tokens. Only a token's hash is ever stored, so a
//! database leak does not hand over usable login links or sessions.
use vstd::prelude::*;
use vstd::string::*;
use base64::Engine;
use rand::RngCore;
use sha2::Digest;

verus! {

/// The bytes of a random token.
pub const TOKEN_BYTES: usize = 32;

/// Calls `RngCore::try_fill_bytes` on `rand::rngs::OsRng`, the operating
/// system's random source, which reports a failure of that source instead of
/// panicking. `true` exactly when the call succeeded; nothing is claimed of
/// the bytes, which are random.
#[verifier::external_body]
fn fill_from_os(bytes: &mut [u8; 32]) -> (filled: bool) {
    rand::rngs::OsRng.try_fill_bytes(bytes).is_ok()
}

/// The URL-safe Base64 alphabet encoding of `bytes` without padding (RFC 4648 §5).
pub uninterp spec fn base64_url_unpadded(bytes: Seq<u8>) -> Seq<char>;

/// A character of the URL-safe Base64 alphabet: `A–Z`, `a–z`, `0–9`, `-`, `_`.
/// None of them needs escaping in a URL.
pub open spec fn is_url_safe_char(c: char) -> bool {
    ('A' <= c && c <= 'Z') || ('a' <= c && c <= 'z') || ('0' <= c && c <= '9') || c == '-' || c
        == '_'
}

/// The length of the unpadded encoding of 32 bytes: ten full groups of three
/// bytes give four characters each, and the two bytes left over give three.
pub const TOKEN_CHARS: usize = 43;

/// Calls `base64::engine::general_purpose::URL_SAFE_NO_PAD.encode`; the
/// contract claims that the text is the named encoding of the bytes and, as
/// the engine's alphabet (`alphabet::URL_SAFE`) and its unpadded length rule
/// (`encoded_len`) give, 43 characters all from the URL-safe alphabet.
#[verifier::external_body]
fn encode_url_safe(bytes: &[u8; 32]) -> (r: String)
    ensures
        r@ == base64_url_unpadded(bytes@),
        r@.len() == TOKEN_CHARS,
        forall|i: int| 0 <= i < r@.len() ==> is_url_safe_char(#[trigger] r@[i]),
{
    base64::engine::general_purpose::URL_SAFE_NO_PAD.encode(bytes)
}

/// The SHA-256 digest of `bytes` (FIPS 180-4).
pub uninterp spec fn sha256_digest(bytes: Seq<u8>) -> Seq<u8>;

/// Calls `sha2::Sha256::digest`; the contract claims that the result is the
/// named digest of the bytes and, as the hash's output size says, 32 bytes long.
#[verifier::external_body]
fn sha256(bytes: &[u8]) -> (r: Vec<u8>)
    ensures
        r@ == sha256_digest(bytes@),
        r@.len() == 32,
{
    sha2::Sha256::digest(bytes).to_vec()
}

/// The text of a token made of `bytes`: their unpadded URL-safe Base64
/// encoding, 43 characters, each from the URL-safe alphabet.
pub fn encode_token(bytes: &[u8; 32]) -> (r: String)
    ensures
        r@ == base64_url_unpadded(bytes@),
        r@.len() == TOKEN_CHARS,
        forall|i: int| 0 <= i < r@.len() ==> is_url_safe_char(#[trigger] r@[i]),
{
    encode_url_safe(bytes)
}

/// A 256-bit cryptographically random token, safe to place in a URL: 43
/// characters, each from the URL-safe Base64 alphabet. `None` when the
/// operating system's random source fails, which no input can prevent.
pub fn generate_token() -> (r: Option<String>)
    ensures
        r matches Some(t) ==> {
            &&& exists|b: Seq<u8>| b.len() == TOKEN_BYTES && t@ == base64_url_unpadded(b)
            &&& t@.len() == TOKEN_CHARS
            &&& forall|i: int| 0 <= i < t@.len() ==> is_url_safe_char(#[trigger] t@[i])
        },
{
    let mut bytes = [0u8; 32];
    if !fill_from_os(&mut bytes) {
        return None;
    }
    let r = encode_token(&bytes);
    assert(bytes@.len() == TOKEN_BYTES);
    Some(r)
}

/// SHA-256 of the token's UTF-8 bytes. A password KDF would be the wrong
/// tool here: the input is already 256 bits of entropy, so there is nothing
/// to brute-force and nothing for key stretching to protect.
pub fn hash_token(token: &str) -> (r: Vec<u8>)
    ensures
        r@ == sha256_digest(token.spec_bytes()),
        r@.len() == 32,
{
    sha256(token.as_bytes())
}

} // verus!
