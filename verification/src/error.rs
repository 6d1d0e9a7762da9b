//! The errors a request can end in.

use vstd::prelude::*;

verus! {

/// Why a request failed; each kind maps to an HTTP status.
#[derive(Debug, Clone, PartialEq, Eq)]
pub enum AppError {
    /// 400, with the message shown to the user.
    BadRequest(String),
    /// 409, with the message shown to the user.
    Conflict(String),
    /// 404.
    NotFound,
    /// 401.
    Unauthorized,
    /// 401: the session cookie names no live session.
    InvalidSession,
    /// 403.
    Forbidden,
    /// 429, with the seconds to wait.
    TooManyRequests { retry_after_secs: u64 },
    /// 500: the shared state was not set up.
    StateNotInitialized,
    /// 500: a stored password hash is not a PHC string.
    InvalidPasswordHash,
}

/// `r` is the `BadRequest` error with the message `msg`.
pub open spec fn is_bad_request<T>(r: Result<T, AppError>, msg: Seq<char>) -> bool {
    match r {
        Err(AppError::BadRequest(m)) => m@ == msg,
        _ => false,
    }
}

impl AppError {
    /// The HTTP status of the error.
    pub fn status_code(&self) -> (r: u16)
        ensures
            r == match self {
                AppError::BadRequest(_) => 400u16,
                AppError::Conflict(_) => 409u16,
                AppError::NotFound => 404u16,
                AppError::Unauthorized => 401u16,
                AppError::InvalidSession => 401u16,
                AppError::Forbidden => 403u16,
                AppError::TooManyRequests { .. } => 429u16,
                AppError::StateNotInitialized => 500u16,
                AppError::InvalidPasswordHash => 500u16,
            },
    {
        match self {
            AppError::BadRequest(_) => 400,
            AppError::Conflict(_) => 409,
            AppError::NotFound => 404,
            AppError::Unauthorized => 401,
            AppError::InvalidSession => 401,
            AppError::Forbidden => 403,
            AppError::TooManyRequests { .. } => 429,
            AppError::StateNotInitialized => 500,
            AppError::InvalidPasswordHash => 500,
        }
    }
}

} // verus!
