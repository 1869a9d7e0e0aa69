use vstd::prelude::*;
use vstd::utf8::{decode_utf8, valid_utf8};
use crate::error::BridgeError;

verus! {

/// The text that a byte sequence decodes to as UTF-8, or `None` where the
/// bytes are not valid UTF-8.
pub open spec fn utf8_decoded(b: Seq<u8>) -> Option<Seq<char>> {
    if valid_utf8(b) {
        Some(decode_utf8(b))
    } else {
        None
    }
}

/// Relies on String::from_utf8: it succeeds exactly on valid UTF-8 and then
/// holds the decoded text.
#[verifier::external_body]
pub(crate) fn decode_utf8_bytes(b: Vec<u8>) -> (r: Option<String>)
    ensures
        match r {
            Some(s) => utf8_decoded(b@) == Some(s@),
            None => utf8_decoded(b@) is None,
        },
{
    String::from_utf8(b).ok()
}

/// The text of a decoding result, or an `Encoding` error where there is none.
pub fn text_or_encoding_error(decoded: Option<String>) -> (r: Result<String, BridgeError>)
    ensures
        match decoded {
            Some(s) => r matches Ok(t) && t@ == s@,
            None => r matches Err(BridgeError::Encoding),
        },
{
    match decoded {
        Some(s) => Ok(s),
        None => Err(BridgeError::Encoding),
    }
}

/// Decodes bytes read from a file or a process as UTF-8 text.
pub fn utf8_text(b: Vec<u8>) -> (r: Result<String, BridgeError>)
    ensures
        match utf8_decoded(b@) {
            Some(s) => r matches Ok(t) && t@ == s,
            None => r matches Err(BridgeError::Encoding),
        },
{
    text_or_encoding_error(decode_utf8_bytes(b))
}

} // verus!
