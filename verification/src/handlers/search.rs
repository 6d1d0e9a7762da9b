//! Search query parameters.

use vstd::prelude::*;

verus! {

/// `?q=` of a search.
#[derive(Debug, Clone)]
pub struct SearchParams {
    pub q: Option<String>,
}

} // verus!
