//! The error answer of a request: an HTTP status and a message.
use vstd::prelude::*;
use crate::text::string_of;

verus! {

pub const BAD_REQUEST: u16 = 400;
pub const UNAUTHORIZED: u16 = 401;
pub const FORBIDDEN: u16 = 403;
pub const NOT_FOUND: u16 = 404;
pub const CONFLICT: u16 = 409;
pub const INTERNAL_SERVER_ERROR: u16 = 500;

/// The body of an error answer.
#[derive(Debug)]
pub struct ErrorResponse {
    pub error: String,
}

/// An error answer: its status and body.
#[derive(Debug)]
pub struct ApiError {
    pub status: u16,
    pub body: ErrorResponse,
}

/// `e` answers with `status` and the message `msg`.
pub open spec fn is_error(e: ApiError, status: u16, msg: Seq<char>) -> bool {
    e.status == status && e.body.error@ == msg
}

/// The error answer with `status` and `msg`.
pub fn err(status: u16, msg: &str) -> (e: ApiError)
    ensures
        is_error(e, status, msg@),
{
    ApiError { status, body: ErrorResponse { error: string_of(msg) } }
}

} // verus!
