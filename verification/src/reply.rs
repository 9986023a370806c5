//! The error answer of a request: an HTTP status code and a message.

use vstd::prelude::*;
use vstd::string::*;

verus! {

/// An error answer: HTTP status code and message text.
#[derive(Debug, PartialEq, Eq)]
pub struct HttpError {
    pub status: u16,
    pub message: String,
}

/// The error with `status` and `message`.
pub open spec fn is_error(e: HttpError, status: u16, message: Seq<char>) -> bool {
    e.status == status && e.message@ == message
}

/// 400: the request is malformed.
pub fn bad_request(message: &str) -> (e: HttpError)
    ensures
        is_error(e, 400, message@),
{
    HttpError { status: 400, message: String::from_str(message) }
}

/// 401: the caller could not be identified.
pub fn unauthorized(message: &str) -> (e: HttpError)
    ensures
        is_error(e, 401, message@),
{
    HttpError { status: 401, message: String::from_str(message) }
}

/// 403: the caller is known but not allowed.
pub fn forbidden(message: &str) -> (e: HttpError)
    ensures
        is_error(e, 403, message@),
{
    HttpError { status: 403, message: String::from_str(message) }
}

/// 404: the thing asked for does not exist.
pub fn not_found(message: &str) -> (e: HttpError)
    ensures
        is_error(e, 404, message@),
{
    HttpError { status: 404, message: String::from_str(message) }
}

/// 500: the server failed; the message is the failure's text.
pub fn internal_error(message: String) -> (e: HttpError)
    ensures
        is_error(e, 500, message@),
{
    HttpError { status: 500, message }
}

} // verus!
