//! The error answer of an API request: HTTP status, machine-readable code
//! and human-readable message.

use vstd::prelude::*;
use vstd::string::*;

verus! {

#[derive(Debug, Clone, PartialEq, Eq)]
pub struct ApiError {
    pub status: u16,
    pub code: String,
    pub message: String,
}

impl ApiError {
    pub fn new(status: u16, code: &str, message: &str) -> (e: Self)
        ensures
            e.status == status,
            e.code@ == code@,
            e.message@ == message@,
    {
        ApiError { status, code: String::from_str(code), message: String::from_str(message) }
    }

    /// An error whose message was built by the caller.
    pub fn with_message(status: u16, code: &str, message: String) -> (e: Self)
        ensures
            e.status == status,
            e.code@ == code@,
            e.message == message,
    {
        ApiError { status, code: String::from_str(code), message }
    }

    /// `400 Bad Request`.
    pub fn bad_request(code: &str, message: &str) -> (e: Self)
        ensures
            e.status == 400,
            e.code@ == code@,
            e.message@ == message@,
    {
        Self::new(400, code, message)
    }

    /// `400 Bad Request` with the generic code.
    pub fn bad_request_msg(message: &str) -> (e: Self)
        ensures
            e.status == 400,
            e.code@ == "BAD_REQUEST"@,
            e.message@ == message@,
    {
        Self::new(400, "BAD_REQUEST", message)
    }

    /// `400 Bad Request` with a message built by the caller.
    pub fn bad_request_with(code: &str, message: String) -> (e: Self)
        ensures
            e.status == 400,
            e.code@ == code@,
            e.message == message,
    {
        Self::with_message(400, code, message)
    }

    /// `401 Unauthorized`.
    pub fn unauthorized(message: &str) -> (e: Self)
        ensures
            e.status == 401,
            e.code@ == "UNAUTHORIZED"@,
            e.message@ == message@,
    {
        Self::new(401, "UNAUTHORIZED", message)
    }

    /// `403 Forbidden`.
    pub fn forbidden(message: &str) -> (e: Self)
        ensures
            e.status == 403,
            e.code@ == "FORBIDDEN"@,
            e.message@ == message@,
    {
        Self::new(403, "FORBIDDEN", message)
    }

    /// `404 Not Found`.
    pub fn not_found(code: &str, message: &str) -> (e: Self)
        ensures
            e.status == 404,
            e.code@ == code@,
            e.message@ == message@,
    {
        Self::new(404, code, message)
    }

    /// `409 Conflict`.
    pub fn conflict(code: &str, message: &str) -> (e: Self)
        ensures
            e.status == 409,
            e.code@ == code@,
            e.message@ == message@,
    {
        Self::new(409, code, message)
    }

    /// `500 Internal Server Error`.
    pub fn internal_error(code: &str, message: &str) -> (e: Self)
        ensures
            e.status == 500,
            e.code@ == code@,
            e.message@ == message@,
    {
        Self::new(500, code, message)
    }

    /// `503 Service Unavailable`.
    pub fn service_unavailable_with(code: &str, message: &str) -> (e: Self)
        ensures
            e.status == 503,
            e.code@ == code@,
            e.message@ == message@,
    {
        Self::new(503, code, message)
    }
}

} // verus!
