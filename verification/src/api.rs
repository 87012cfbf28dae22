//! The error a route answers: an HTTP status and a message.

use vstd::prelude::*;

verus! {

/// An error answered to the client: a status and a message.
pub struct ApiError {
    pub status: u16,
    pub message: String,
}

/// An error with the given status and message.
pub fn api_error(status: u16, message: &str) -> (e: ApiError)
    ensures
        e.status == status,
        e.message@ == message@,
{
    ApiError { status, message: message.to_string() }
}

} // verus!
