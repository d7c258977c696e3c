//! Calls into `base64` and into parts of the standard library that have no
//! specification of their own. What each contract here says is taken on trust.

use vstd::prelude::*;
use vstd::utf8::{decode_utf8, valid_utf8};

verus! {

/// The contents of bytes, or of the message that stands in their place.
pub open spec fn bytes_result_view(r: Result<Vec<u8>, String>) -> Result<Seq<u8>, Seq<char>> {
    match r {
        Ok(bytes) => Ok(bytes@),
        Err(message) => Err(message@),
    }
}

/// The contents of a text, or of the message that stands in its place.
pub open spec fn text_result_view(r: Result<String, String>) -> Result<Seq<char>, Seq<char>> {
    match r {
        Ok(text) => Ok(text@),
        Err(message) => Err(message@),
    }
}

/// What `base64::decode` makes of a text: the bytes, or the error in words.
pub uninterp spec fn base64_decoded(text: Seq<char>) -> Result<Seq<u8>, Seq<char>>;

/// What `String::from_utf8` says, in words, of bytes that are no UTF-8.
pub uninterp spec fn utf8_error_text(bytes: Seq<u8>) -> Seq<char>;

/// What `String::from_utf8_lossy` makes of bytes.
pub uninterp spec fn utf8_lossy(bytes: Seq<u8>) -> Seq<char>;

/// What `str::to_lowercase` makes of a text.
pub uninterp spec fn lowercase(text: Seq<char>) -> Seq<char>;

/// Calls `base64::decode`, which decodes with the standard alphabet and padding.
/// The result depends on the text alone; an error is handed on as its message.
#[verifier::external_body]
#[allow(deprecated)]
pub(crate) fn decode_base64(text: &str) -> (r: Result<Vec<u8>, String>)
    ensures
        bytes_result_view(r) == base64_decoded(text@),
{
    base64::decode(text).map_err(|e| format!("{}", e))
}

/// Calls `String::from_utf8`: it succeeds exactly on UTF-8, with the text that the
/// bytes encode. The message of an error depends on the bytes alone.
#[verifier::external_body]
pub(crate) fn decode_text(bytes: Vec<u8>) -> (r: Result<String, String>)
    ensures
        text_result_view(r) == if valid_utf8(bytes@) {
            Ok::<Seq<char>, Seq<char>>(decode_utf8(bytes@))
        } else {
            Err::<Seq<char>, Seq<char>>(utf8_error_text(bytes@))
        },
{
    String::from_utf8(bytes).map_err(|e| format!("{}", e))
}

/// Calls `String::from_utf8_lossy`: the text that the bytes encode where they are
/// UTF-8. What else they give, with replacement characters in it, depends on the
/// bytes alone.
#[verifier::external_body]
pub(crate) fn decode_lossy(bytes: &[u8]) -> (r: String)
    ensures
        r@ == utf8_lossy(bytes@),
        valid_utf8(bytes@) ==> r@ == decode_utf8(bytes@),
{
    String::from_utf8_lossy(bytes).into_owned()
}

/// Calls `str::to_lowercase`. The result depends on the text alone.
#[verifier::external_body]
pub(crate) fn to_lowercase(text: &str) -> (r: String)
    ensures
        r@ == lowercase(text@),
{
    text.to_lowercase()
}

} // verus!
