//! Base64, as the `base64` crate's standard engine writes and reads it.
//!
//! The two texts are not spelled out here: [`base64_encoded`] and
//! [`base64_decoded`] are names for what the engine gives, and the two calls
//! into it are taken on trust.

use vstd::prelude::*;

verus! {

/// The standard base64 text, with padding, of a run of bytes.
pub uninterp spec fn base64_encoded(bytes: Seq<u8>) -> Seq<char>;

/// The bytes that a standard base64 text with padding stands for; `None`
/// for a text that is no such encoding.
pub uninterp spec fn base64_decoded(text: Seq<char>) -> Option<Seq<u8>>;

/// The length of `len` bytes in base64 fits the machine's word.
pub open spec fn encodable_len(len: nat) -> bool {
    len / 3 * 4 + 4 <= usize::MAX
}

/// `Engine::encode` of `base64::engine::general_purpose::STANDARD`: the
/// base64 text of the bytes. The engine panics where the length of that
/// text overflows `usize`, which the precondition rules out.
#[verifier::external_body]
pub(crate) fn encode(bytes: &[u8]) -> (r: String)
    requires
        encodable_len(bytes@.len()),
    ensures
        r@ == base64_encoded(bytes@),
{
    base64::Engine::encode(&base64::engine::general_purpose::STANDARD, bytes)
}

/// `Engine::decode` of `base64::engine::general_purpose::STANDARD`: the
/// bytes that the text stands for, or `None` where the engine reports a
/// decoding error.
#[verifier::external_body]
pub(crate) fn decode(text: &str) -> (r: Option<Vec<u8>>)
    ensures
        match r {
            Some(bytes) => base64_decoded(text@) == Some(bytes@),
            None => base64_decoded(text@) is None,
        },
{
    base64::Engine::decode(&base64::engine::general_purpose::STANDARD, text).ok()
}

/// Whether `len` bytes can be written as base64.
pub fn can_encode(len: usize) -> (r: bool)
    ensures
        r == encodable_len(len as nat),
{
    len / 3 <= (usize::MAX - 4) / 4
}

} // verus!
