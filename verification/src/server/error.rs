//! The JSON error envelope used across routes: `{ "error": "<message>" }`.
use vstd::prelude::*;

verus! {

/// Generic error envelope returned by failing routes: `{ "error": "..." }`.
pub struct ErrorResponse {
    /// Human-readable description of what went wrong.
    pub error: String,
}

impl ErrorResponse {
    /// The envelope carrying `message`.
    pub fn new(message: String) -> (r: ErrorResponse)
        ensures
            r.error == message,
    {
        ErrorResponse { error: message }
    }
}

/// An error a route answers with: its HTTP status and envelope.
pub struct ApiError {
    pub status: u16,
    pub body: ErrorResponse,
}

/// A 404 with `message`.
pub fn not_found(message: String) -> (e: ApiError)
    ensures
        e.status == 404,
        e.body.error == message,
{
    ApiError { status: 404, body: ErrorResponse::new(message) }
}

/// A 400 with `message`.
pub fn bad_request(message: String) -> (e: ApiError)
    ensures
        e.status == 400,
        e.body.error == message,
{
    ApiError { status: 400, body: ErrorResponse::new(message) }
}

/// A 500 with `message`, the failure's description.
pub fn internal(message: String) -> (e: ApiError)
    ensures
        e.status == 500,
        e.body.error == message,
{
    ApiError { status: 500, body: ErrorResponse::new(message) }
}

} // verus!
