//! The failure channel shared by every fallible parsing operation.

use vstd::prelude::*;

verus! {

/// The kind of a failure: a malformed piece of text, an unrecognized method
/// token, or a bad numeric status code (reserved; nothing here produces it).
#[derive(Debug, Clone, PartialEq, Eq, Structural)]
pub enum ErrorType {
    ParserError,
    InvalidMethod,
    InvalidCode,
}

/// A failure: its kind together with a human-readable message. Created at the
/// point of failure and handed to the caller unchanged.
#[derive(Debug, Clone, PartialEq)]
pub struct Error {
    pub err_type: ErrorType,
    pub msg: String,
}

} // verus!
