//! Admin category management.

use vstd::prelude::*;
use crate::error::{is_bad_request, AppError};
use crate::text::{trim, trimmed};

verus! {

broadcast use vstd::string::group_string_axioms;

/// The category form.
#[derive(Debug, Clone)]
pub struct CategoryForm {
    pub name: String,
    pub slug: String,
    pub description: String,
    pub csrf_token: String,
}

/// A form that carries only its CSRF token.
#[derive(Debug, Clone)]
pub struct CsrfOnly {
    pub csrf_token: String,
}

/// The trimmed name of a category or tag; a blank name is refused.
pub fn required_name(name: &str) -> (r: Result<&str, AppError>)
    ensures
        match r {
            Ok(n) => n@ == trim(name@) && n@.len() > 0,
            Err(_) => trim(name@).len() == 0 && is_bad_request(r, "Name is required."@),
        },
{
    let n = trimmed(name);
    if n.is_empty() {
        Err(AppError::BadRequest(String::from_str("Name is required.")))
    } else {
        Ok(n)
    }
}

/// The trimmed description, or none when it is blank.
pub fn category_description(description: &str) -> (r: Option<&str>)
    ensures
        match r {
            Some(d) => d@ == trim(description@) && d@.len() > 0,
            None => trim(description@).len() == 0,
        },
{
    let d = trimmed(description);
    if d.is_empty() {
        None
    } else {
        Some(d)
    }
}

} // verus!
