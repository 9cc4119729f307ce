//! The uniform error envelope every handler failure maps to: an HTTP
//! status, a short machine-readable code, and a human-readable message.

use vstd::prelude::*;

verus! {

/// A handler-level failure, rendered over HTTP as
/// `{error: <code>, message: <message>}` with the given status.
#[derive(Debug)]
pub struct ApiError {
    pub status: u16,
    pub code: String,
    pub message: String,
}

impl ApiError {
    /// Builds an error envelope with exactly the given parts.
    pub fn new(status: u16, code: &str, message: String) -> (r: ApiError)
        ensures
            r.status == status,
            r.code@ == code@,
            r.message == message,
    {
        ApiError { status, code: String::from_str(code), message }
    }
}

} // verus!
