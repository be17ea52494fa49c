//! The failures a request can end in, with the HTTP status and the text that
//! each one is answered with.
use vstd::prelude::*;

verus! {

broadcast use vstd::string::group_string_axioms;

/// Why a request was refused.
#[derive(Debug, Clone)]
pub enum AppError {
    /// The request is malformed; the text says how.
    BadRequest(String),
    /// No valid session or key came with the request.
    Unauthorized,
    /// The caller may not do this.
    Forbidden,
    /// The thing asked for does not exist; the text says which.
    NotFound(String),
    /// The request conflicts with the current state; the text says how.
    Conflict(String),
    /// Too many posts in the last minute.
    RateLimited,
    /// The owner API was polled again too soon; the value is the wait in seconds.
    PollingTooQuickly(i64),
    /// Something failed inside the service; the text is for the log only.
    Internal(String),
}

/// The HTTP status code that answers `e`.
pub open spec fn status_of(e: AppError) -> u16 {
    match e {
        AppError::BadRequest(_) => 400,
        AppError::Unauthorized => 401,
        AppError::Forbidden => 403,
        AppError::NotFound(_) => 404,
        AppError::Conflict(_) => 409,
        AppError::RateLimited => 429,
        AppError::PollingTooQuickly(_) => 429,
        AppError::Internal(_) => 500,
    }
}

/// The description of `e` (what its `Display` writes).
pub open spec fn description_of(e: AppError) -> Seq<char> {
    match e {
        AppError::BadRequest(m) => m@,
        AppError::Unauthorized => "authentication required"@,
        AppError::Forbidden => "you do not have permission to do that"@,
        AppError::NotFound(m) => m@,
        AppError::Conflict(m) => m@,
        AppError::RateLimited => "posting too quickly; please wait a moment"@,
        AppError::PollingTooQuickly(_) => "polling is limited to once per minute"@,
        AppError::Internal(m) => m@,
    }
}

/// The text sent to the client for `e`: its description, except that an
/// internal failure is never described.
pub open spec fn public_message_of(e: AppError) -> Seq<char> {
    match e {
        AppError::Internal(_) => "something went wrong"@,
        _ => description_of(e),
    }
}

/// The `Retry-After` value that goes with `e`, if any.
pub open spec fn retry_after_of(e: AppError) -> Option<i64> {
    match e {
        AppError::PollingTooQuickly(s) => Some(s),
        _ => None,
    }
}

impl AppError {
    /// The HTTP status code of the response.
    pub fn status_code(&self) -> (r: u16)
        ensures
            r == status_of(*self),
    {
        match self {
            AppError::BadRequest(_) => 400,
            AppError::Unauthorized => 401,
            AppError::Forbidden => 403,
            AppError::NotFound(_) => 404,
            AppError::Conflict(_) => 409,
            AppError::RateLimited => 429,
            AppError::PollingTooQuickly(_) => 429,
            AppError::Internal(_) => 500,
        }
    }

    /// The description of the error.
    pub fn description(&self) -> (r: String)
        ensures
            r@ == description_of(*self),
    {
        match self {
            AppError::BadRequest(m) => m.clone(),
            AppError::Unauthorized => "authentication required".to_string(),
            AppError::Forbidden => "you do not have permission to do that".to_string(),
            AppError::NotFound(m) => m.clone(),
            AppError::Conflict(m) => m.clone(),
            AppError::RateLimited => "posting too quickly; please wait a moment".to_string(),
            AppError::PollingTooQuickly(_) => "polling is limited to once per minute".to_string(),
            AppError::Internal(m) => m.clone(),
        }
    }

    /// The text of the `error` field of the response body.
    pub fn public_message(&self) -> (r: String)
        ensures
            r@ == public_message_of(*self),
    {
        match self {
            AppError::Internal(_) => "something went wrong".to_string(),
            _ => self.description(),
        }
    }

    /// The `Retry-After` header value of the response, if it has one.
    pub fn retry_after(&self) -> (r: Option<i64>)
        ensures
            r == retry_after_of(*self),
    {
        match self {
            AppError::PollingTooQuickly(s) => Some(*s),
            _ => None,
        }
    }
}

/// An internal failure with the given text.
pub fn internal(message: String) -> (e: AppError)
    ensures
        e == AppError::Internal(message),
{
    AppError::Internal(message)
}

/// A malformed request, described by a fixed text.
pub fn bad_request(message: &str) -> (e: AppError)
    ensures
        e matches AppError::BadRequest(m) && m@ == message@,
{
    AppError::BadRequest(message.to_string())
}

/// A missing thing, described by a fixed text.
pub fn not_found(message: &str) -> (e: AppError)
    ensures
        e matches AppError::NotFound(m) && m@ == message@,
{
    AppError::NotFound(message.to_string())
}

/// A conflict with the current state, described by a fixed text.
pub fn conflict(message: &str) -> (e: AppError)
    ensures
        e matches AppError::Conflict(m) && m@ == message@,
{
    AppError::Conflict(message.to_string())
}

} // verus!
