//! Bytes as text.

use vstd::prelude::*;
use vstd::string::*;
use vstd::utf8::{decode_utf8, encode_utf8_decode_utf8, valid_utf8};

verus! {

/// `std::str::from_utf8`: hands the bytes back as text where they are
/// well-formed UTF-8, and nothing where they are not. The text is the same
/// bytes, so it encodes to them.
#[verifier::external_body]
pub(crate) fn utf8_text(bytes: &[u8]) -> (out: Option<&str>)
    ensures
        out is Some <==> valid_utf8(bytes@),
        out matches Some(text) ==> text.spec_bytes() == bytes@,
{
    std::str::from_utf8(bytes).ok()
}

/// Reads bytes as text: the characters that they encode, where they are
/// well-formed UTF-8.
pub fn read_text(bytes: &[u8]) -> (out: Option<&str>)
    ensures
        out is Some <==> valid_utf8(bytes@),
        out matches Some(text) ==> text@ == decode_utf8(bytes@),
{
    let out = utf8_text(bytes);
    proof {
        if let Some(text) = out {
            encode_utf8_decode_utf8(text@);
        }
    }
    out
}

} // verus!
