use vstd::prelude::*;
use crate::error::BridgeError;
use crate::text::{decode_utf8_bytes, text_or_encoding_error, utf8_decoded};

verus! {

/// The result of a finished command whose standard output has already been
/// decoded: a failed exit reports its code and drops the output; a
/// successful one yields the decoded text.
pub fn classify_decoded(success: bool, code: Option<i32>, decoded: Option<String>) -> (r: Result<
    String,
    BridgeError,
>)
    ensures
        !success ==> r == Err::<String, BridgeError>(BridgeError::CommandFailed(code)),
        success && decoded is None ==> r matches Err(BridgeError::Encoding),
        success && decoded is Some ==> (r matches Ok(t) && t@ == decoded->0@),
{
    if !success {
        Err(BridgeError::CommandFailed(code))
    } else {
        text_or_encoding_error(decoded)
    }
}

/// The result of a finished command, from its exit status and its raw
/// standard output. Standard error is not part of the result.
pub fn command_result(success: bool, code: Option<i32>, stdout: Vec<u8>) -> (r: Result<
    String,
    BridgeError,
>)
    ensures
        !success ==> r == Err::<String, BridgeError>(BridgeError::CommandFailed(code)),
        success && utf8_decoded(stdout@) is None ==> r matches Err(BridgeError::Encoding),
        success && utf8_decoded(stdout@) is Some ==> (r matches Ok(t) && t@ == utf8_decoded(
            stdout@,
        )->0),
{
    let decoded = if success {
        decode_utf8_bytes(stdout)
    } else {
        None
    };
    classify_decoded(success, code, decoded)
}

} // verus!
