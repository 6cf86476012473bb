//! Base64, the form in which payloads carry bytes as text.
//!
//! The coding itself is the `base64` crate's, in its standard alphabet with
//! padding. What it gives is named here, not spelled out.

use base64::Engine;
use vstd::prelude::*;

verus! {

/// The bytes that a text decodes to, or nothing where the text is not base64.
pub uninterp spec fn base64_decoded(text: Seq<char>) -> Option<Seq<u8>>;

/// The text that bytes are encoded as.
pub uninterp spec fn base64_encoded(bytes: Seq<u8>) -> Seq<char>;

/// `decode` of `base64::engine::general_purpose::STANDARD`. Not proved: that
/// the outcome depends on the text alone, which is what naming it says.
#[verifier::external_body]
pub(crate) fn standard_decode(text: &str) -> (r: Option<Vec<u8>>)
    ensures
        match r {
            Some(bytes) => base64_decoded(text@) == Some(bytes@),
            None => base64_decoded(text@) is None,
        },
{
    base64::engine::general_purpose::STANDARD.decode(text).ok()
}

/// `encode` of `base64::engine::general_purpose::STANDARD`. Not proved: that
/// the text depends on the bytes alone, and that decoding it gives the bytes
/// back, as the crate shows for its engines.
#[verifier::external_body]
pub(crate) fn standard_encode(bytes: &[u8]) -> (r: String)
    ensures
        r@ == base64_encoded(bytes@),
        base64_decoded(r@) == Some(bytes@),
{
    base64::engine::general_purpose::STANDARD.encode(bytes)
}

} // verus!
