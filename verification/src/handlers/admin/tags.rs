//! Admin tag management.

use vstd::prelude::*;

verus! {

/// The tag form.
#[derive(Debug, Clone)]
pub struct TagForm {
    pub name: String,
    pub slug: String,
    pub csrf_token: String,
}

/// A form that carries only its CSRF token.
#[derive(Debug, Clone)]
pub struct CsrfOnly {
    pub csrf_token: String,
}

} // verus!
