//! Admin sign-in and sign-out.

use vstd::prelude::*;
use crate::error::AppError;
use crate::text::{int_decimal, u64_to_string};

verus! {

broadcast use vstd::string::group_string_axioms;

/// The sign-in form.
#[derive(Debug, Clone)]
pub struct LoginForm {
    pub username: String,
    pub password: String,
}

/// The sign-out form.
#[derive(Debug, Clone)]
pub struct LogoutForm {
    pub csrf_token: String,
}

/// The message the sign-in form shows after a refused login, if the refusal has one:
/// wrong credentials, or a lockout with the seconds to wait.
pub fn login_error_message(error: &AppError) -> (r: Option<String>)
    ensures
        match error {
            AppError::Unauthorized => r matches Some(m) && m@ == "Invalid username or password."@,
            AppError::TooManyRequests { retry_after_secs } => r matches Some(m) && m@
                == "Too many failed attempts. Try again in "@ + int_decimal(
                *retry_after_secs as int,
            ) + "s."@,
            _ => r is None,
        },
{
    match error {
        AppError::Unauthorized => Some(String::from_str("Invalid username or password.")),
        AppError::TooManyRequests { retry_after_secs } => {
            let mut m = String::from_str("Too many failed attempts. Try again in ");
            let secs = u64_to_string(*retry_after_secs);
            m.append(secs.as_str());
            m.append("s.");
            Some(m)
        },
        _ => None,
    }
}

/// The header that tells a locked-out client when to try again: `Retry-After` with the
/// seconds to wait, for a lockout; none for any other error.
pub fn retry_after_header(error: &AppError) -> (r: Option<(&'static str, String)>)
    ensures
        match error {
            AppError::TooManyRequests { retry_after_secs } => r matches Some(h) && h.0@
                == "retry-after"@ && h.1@ == int_decimal(*retry_after_secs as int),
            _ => r is None,
        },
{
    match error {
        AppError::TooManyRequests { retry_after_secs } => Some(
            ("retry-after", u64_to_string(*retry_after_secs)),
        ),
        _ => None,
    }
}

} // verus!
