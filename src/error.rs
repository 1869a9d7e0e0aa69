use vstd::prelude::*;

verus! {

/// The failures that handlers report to their caller.
#[derive(Debug, Clone, PartialEq, Eq)]
pub enum BridgeError {
    /// A filesystem or device failure, with its description.
    Io(String),
    /// A path that does not exist.
    NotFound(String),
    /// Bytes that are not valid UTF-8.
    Encoding,
    /// A command that exited unsuccessfully, with its exit code where the
    /// process had one.
    CommandFailed(Option<i32>),
    /// A settings or credentials document that could not be parsed.
    Parse(String),
    /// A request or stream that failed.
    NetworkFailure(String),
}

} // verus!
