//! Showing a payload as text. A payload is bytes; whether they are text is
//! the caller's business, and bytes that are not UTF-8 are no error.

use vstd::prelude::*;
use vstd::utf8::{decode_utf8, valid_utf8};

verus! {

/// `String::from_utf8`: the text that the bytes encode where they are
/// well-formed UTF-8, `None` where they are not. Not proved.
#[verifier::external_body]
fn text_from_utf8(bytes: Vec<u8>) -> (res: Option<String>)
    ensures
        res is Some <==> valid_utf8(bytes@),
        res matches Some(text) ==> text@ == decode_utf8(bytes@),
{
    match String::from_utf8(bytes) {
        Ok(text) => Some(text),
        Err(_) => None,
    }
}

/// The text that stands for `bytes`: the characters they encode, or the
/// marker `Not UTF8`.
pub open spec fn spec_render_text(bytes: Seq<u8>) -> Seq<char> {
    if valid_utf8(bytes) {
        decode_utf8(bytes)
    } else {
        "Not UTF8"@
    }
}

/// Renders a payload as text, with the marker `Not UTF8` in place of bytes
/// that are not text.
pub fn render_text(bytes: Vec<u8>) -> (text: String)
    ensures
        text@ == spec_render_text(bytes@),
{
    match text_from_utf8(bytes) {
        Some(text) => text,
        None => "Not UTF8".to_owned(),
    }
}

} // verus!
