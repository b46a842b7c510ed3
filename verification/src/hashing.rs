//! Trusted wrappers around the outside hashing and base64 crates.
//!
//! Everything the library states about these calls is stated here, over
//! uninterpreted names for their results; the rest of the crate is verified
//! against these contracts.

use vstd::prelude::*;
use base64::Engine;

verus! {

/// The bytes of the BLAKE2b digest of `data` with an output length of
/// `length` bytes.  The digest is a pure function of its input: the name
/// stands for whatever `blake2b_simd` computes.
pub uninterp spec fn blake2b_spec(data: Seq<u8>, length: int) -> Seq<u8>;

/// The unpadded base64url text over `data`, as a sequence of characters.
pub uninterp spec fn b64_chars(data: Seq<u8>) -> Seq<char>;

/// Relies on `blake2b_simd::Params::hash`: an unkeyed BLAKE2b digest whose
/// output length is set by `hash_length`; the result is `length` bytes and
/// depends on `data` and `length` alone.  `hash_length` asserts that the
/// length is between 1 and `blake2b_simd::OUTBYTES` (64), so smaller or
/// larger lengths are kept out by `requires`.
#[verifier::external_body]
pub(crate) fn blake2b_digest(data: &[u8], length: usize) -> (r: Vec<u8>)
    requires
        1 <= length <= 64,
    ensures
        r@ == blake2b_spec(data@, length as int),
        r@.len() == length,
{
    blake2b_simd::Params::new()
        .hash_length(length)
        .hash(data)
        .as_bytes()
        .to_vec()
}

/// Relies on `base64::engine::general_purpose::URL_SAFE_NO_PAD.encode`:
/// unpadded base64url text, a pure function of the input bytes, of the
/// documented length (four characters for every three bytes, plus two or
/// three for a one- or two-byte remainder).
#[verifier::external_body]
pub(crate) fn b64_encode(data: &[u8]) -> (r: String)
    ensures
        r@ == b64_chars(data@),
        r@.len() == b64_text_len(data@.len() as int),
{
    base64::engine::general_purpose::URL_SAFE_NO_PAD.encode(data)
}

/// Relies on `base64::engine::general_purpose::URL_SAFE_NO_PAD.decode`:
/// its config requires that no padding is present and rejects non-zero
/// trailing bits, so it succeeds on exactly the strings that `encode`
/// produces, and inverts it.
#[verifier::external_body]
pub(crate) fn b64_decode(s: &str) -> (r: Option<Vec<u8>>)
    ensures
        r is Some ==> b64_chars(r.unwrap()@) == s@,
        forall|b: Seq<u8>| #[trigger] b64_chars(b) == s@ ==> r is Some && r.unwrap()@ == b,
{
    match base64::engine::general_purpose::URL_SAFE_NO_PAD.decode(s) {
        Ok(v) => Some(v),
        Err(_) => None,
    }
}

/// The length of the unpadded base64 text over `n` bytes.
pub open spec fn b64_text_len(n: int) -> int {
    4 * (n / 3) + if n % 3 == 0 {
        0int
    } else {
        n % 3 + 1
    }
}

} // verus!
