//! The error a request handler answers with: an HTTP status and a message.
use vstd::prelude::*;

verus! {

/// An HTTP error answer.
#[derive(Debug, Clone)]
pub struct AppError {
    /// HTTP status code.
    pub status: u16,
    /// Human-readable message.
    pub message: String,
}

impl AppError {
    /// An error with the given status.
    pub fn new(status: u16, message: String) -> (e: AppError)
        ensures
            e.status == status,
            e.message@ == message@,
    {
        AppError { status, message }
    }

    /// 400 Bad Request.
    pub fn bad_request(message: &str) -> (e: AppError)
        ensures
            e.status == 400,
            e.message@ == message@,
    {
        AppError { status: 400, message: message.to_owned() }
    }

    /// 401 Unauthorized.
    pub fn unauthorized(message: &str) -> (e: AppError)
        ensures
            e.status == 401,
            e.message@ == message@,
    {
        AppError { status: 401, message: message.to_owned() }
    }

    /// 404 Not Found.
    pub fn not_found(message: &str) -> (e: AppError)
        ensures
            e.status == 404,
            e.message@ == message@,
    {
        AppError { status: 404, message: message.to_owned() }
    }

    /// 422 Unprocessable Entity.
    pub fn unprocessable(message: &str) -> (e: AppError)
        ensures
            e.status == 422,
            e.message@ == message@,
    {
        AppError { status: 422, message: message.to_owned() }
    }

    /// 500 Internal Server Error.
    pub fn internal(message: &str) -> (e: AppError)
        ensures
            e.status == 500,
            e.message@ == message@,
    {
        AppError { status: 500, message: message.to_owned() }
    }

    /// 502 Bad Gateway.
    pub fn bad_gateway(message: &str) -> (e: AppError)
        ensures
            e.status == 502,
            e.message@ == message@,
    {
        AppError { status: 502, message: message.to_owned() }
    }

    /// 504 Gateway Timeout.
    pub fn gateway_timeout(message: &str) -> (e: AppError)
        ensures
            e.status == 504,
            e.message@ == message@,
    {
        AppError { status: 504, message: message.to_owned() }
    }
}

} // verus!
