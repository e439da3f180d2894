//! What a failed request handler answers: a status code and a client-facing
//! message.  Internal details stay out of the reply.
use vstd::prelude::*;

verus! {

/// The status and client-facing message of a handler error.
#[derive(Debug)]
pub struct ErrorReply {
    pub status: u16,
    pub message: String,
}

/// 500 Internal Server Error.
pub const INTERNAL_SERVER_ERROR: u16 = 500;

/// 404 Not Found.
pub const NOT_FOUND: u16 = 404;

/// The reply for an error that is not expected: 500 and a generic message.
pub fn internal_error_reply() -> (r: ErrorReply)
    ensures
        r.status == INTERNAL_SERVER_ERROR,
        r.message@ == "internal server error"@,
{
    ErrorReply { status: INTERNAL_SERVER_ERROR, message: String::from_str("internal server error") }
}

/// The reply for an expected error with an explicit status and message.
pub fn status_reply(status: u16, message: &str) -> (r: ErrorReply)
    ensures
        r.status == status,
        r.message@ == message@,
{
    ErrorReply { status, message: String::from_str(message) }
}

/// The reply when something looked up is missing: 404, with `message` or
/// else `"not found"`.
pub fn not_found_reply(message: Option<&str>) -> (r: ErrorReply)
    ensures
        r.status == NOT_FOUND,
        r.message@ == match message {
            Some(m) => m@,
            None => "not found"@,
        },
{
    match message {
        Some(m) => status_reply(NOT_FOUND, m),
        None => status_reply(NOT_FOUND, "not found"),
    }
}

/// The reply after attaching `status` to an unexpected error: the status
/// changes, the generic message stays.
pub fn with_attached_status(reply: ErrorReply, status: u16) -> (r: ErrorReply)
    ensures
        r.status == status,
        r.message == reply.message,
{
    ErrorReply { status, message: reply.message }
}

} // verus!
