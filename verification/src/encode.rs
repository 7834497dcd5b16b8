//! The transcoder: standard base64 text for a retrieved body.
//!
//! The body is treated as an opaque byte stream; the encoded text carries
//! it inside a text-based reply payload without modification, wrapping or
//! content sniffing.

use vstd::prelude::*;

verus! {

/// The standard padded base64 text of a byte sequence, as the base64
/// engine produces it: a pure function of the bytes.
pub uninterp spec fn b64_of(bytes: Seq<u8>) -> Seq<char>;

/// Relies on base64's `Engine::encode` with the `STANDARD` engine: the
/// result is the padded base64 text of the input, a function of the bytes
/// alone, four output characters for every three input bytes (the last
/// group padded). `encode` panics when that length overflows `usize`, so
/// such inputs are excluded.
#[verifier::external_body]
pub(crate) fn base64_encode(bytes: &Vec<u8>) -> (r: String)
    requires
        4 * ((bytes@.len() + 2) / 3) <= usize::MAX,
    ensures
        r@ == b64_of(bytes@),
        r@.len() == 4 * ((bytes@.len() + 2) / 3),
{
    base64::Engine::encode(&base64::engine::general_purpose::STANDARD, bytes.as_slice())
}

} // verus!
