//! The service's error type, the reply sent for each error, and the bodies of
//! the fallback replies.
use crate::text::join2;
use vstd::prelude::*;

verus! {

/// Every error a request can end in.
#[derive(Clone, Debug, PartialEq, Eq)]
pub enum ApiError {
    DatabaseError(String),
    MissingEnvVar(String),
    GitHubRequestError(String),
    GitHubApiError(String),
    InternalServerError,
    InvalidRequestBody,
    NotFound,
    Unauthorized,
}

/// Body of an error reply.
#[derive(Clone, Debug, PartialEq, Eq)]
pub struct ErrorResponse {
    pub error: String,
}

/// The HTTP reply for an error: its status and its body, sent as the JSON
/// object `{"error": ...}`.
#[derive(Clone, Debug, PartialEq, Eq)]
pub struct ErrorReply {
    pub status: u16,
    pub body: ErrorResponse,
}

/// The human-readable message of an error.
pub open spec fn error_message(e: ApiError) -> Seq<char> {
    match e {
        ApiError::DatabaseError(s) => "Database error: "@ + s@,
        ApiError::MissingEnvVar(s) => "Missing environment variable: "@ + s@,
        ApiError::GitHubRequestError(s) => "GitHub request error: "@ + s@,
        ApiError::GitHubApiError(s) => "GitHub API error: "@ + s@,
        ApiError::InternalServerError => "Internal server error"@,
        ApiError::InvalidRequestBody => "Invalid request body"@,
        ApiError::NotFound => "Not Found"@,
        ApiError::Unauthorized => "Unauthorized access"@,
    }
}

/// The HTTP status sent for an error.
pub open spec fn error_status(e: ApiError) -> u16 {
    match e {
        ApiError::DatabaseError(_) => 500,
        ApiError::MissingEnvVar(_) => 400,
        ApiError::GitHubRequestError(_) => 502,
        ApiError::GitHubApiError(_) => 502,
        ApiError::InternalServerError => 500,
        ApiError::InvalidRequestBody => 400,
        ApiError::NotFound => 404,
        ApiError::Unauthorized => 401,
    }
}

impl ApiError {
    /// The human-readable message of the error.
    pub fn message(&self) -> (r: String)
        ensures
            r@ == error_message(*self),
    {
        match self {
            ApiError::DatabaseError(s) => join2("Database error: ", s.as_str()),
            ApiError::MissingEnvVar(s) => join2("Missing environment variable: ", s.as_str()),
            ApiError::GitHubRequestError(s) => join2("GitHub request error: ", s.as_str()),
            ApiError::GitHubApiError(s) => join2("GitHub API error: ", s.as_str()),
            ApiError::InternalServerError => String::from_str("Internal server error"),
            ApiError::InvalidRequestBody => String::from_str("Invalid request body"),
            ApiError::NotFound => String::from_str("Not Found"),
            ApiError::Unauthorized => String::from_str("Unauthorized access"),
        }
    }

    /// The HTTP status sent for the error.
    pub fn status_code(&self) -> (r: u16)
        ensures
            r == error_status(*self),
    {
        match self {
            ApiError::DatabaseError(_) => 500,
            ApiError::MissingEnvVar(_) => 400,
            ApiError::GitHubRequestError(_) => 502,
            ApiError::GitHubApiError(_) => 502,
            ApiError::InternalServerError => 500,
            ApiError::InvalidRequestBody => 400,
            ApiError::NotFound => 404,
            ApiError::Unauthorized => 401,
        }
    }

    /// The reply for the error: its status, and a body carrying its message.
    pub fn respond_to(self) -> (r: ErrorReply)
        ensures
            r.status == error_status(self),
            r.body.error@ == error_message(self),
    {
        let message = self.message();
        let status = self.status_code();
        ErrorReply { status, body: ErrorResponse { error: message } }
    }
}

/// A reply refusing the request (400) with `message` as its error.
pub fn bad_request(message: &str) -> (r: ErrorReply)
    ensures
        r.status == 400,
        r.body.error@ == message@,
{
    ErrorReply { status: 400, body: ErrorResponse { error: String::from_str(message) } }
}

/// Body of the reply when no route matches.
pub fn not_found() -> (r: ErrorResponse)
    ensures
        r.error@ == "Not Found"@,
{
    ErrorResponse { error: String::from_str("Not Found") }
}

/// Body of the reply when a request body cannot be read.
pub fn handle_invalid_request_body() -> (r: ErrorResponse)
    ensures
        r.error@ == "Invalid request body"@,
{
    ErrorResponse { error: String::from_str("Invalid request body") }
}

/// Body of the reply when a route exists but not for the method used.
pub fn handle_method_not_allowed() -> (r: ErrorResponse)
    ensures
        r.error@ == "Method Not Allowed"@,
{
    ErrorResponse { error: String::from_str("Method Not Allowed") }
}

/// Body of the reply when the server fails.
pub fn internal_server_error() -> (r: ErrorResponse)
    ensures
        r.error@ == "Internal Server Error"@,
{
    ErrorResponse { error: String::from_str("Internal Server Error") }
}

} // verus!
