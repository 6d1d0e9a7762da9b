//! Blog search and its suggestions.

use vstd::prelude::*;
use crate::domain::Post;
use crate::text::{trim, trimmed};

verus! {

/// Most suggestions shown for a query.
pub const SUGGESTION_LIMIT: usize = 8;

/// `?q=` of a search.
#[derive(Debug, Clone)]
pub struct SearchParams {
    pub q: Option<String>,
}

/// The query a search runs: the submitted one trimmed, or none when it is blank.
pub fn search_query(params: &SearchParams) -> (r: Option<&str>)
    ensures
        match params.q {
            Some(q) if trim(q@).len() > 0 => r matches Some(t) && t@ == trim(q@),
            _ => r is None,
        },
{
    match &params.q {
        Some(q) => {
            let t = trimmed(q.as_str());
            if t.is_empty() {
                None
            } else {
                Some(t)
            }
        },
        None => None,
    }
}

/// The first `SUGGESTION_LIMIT` of the posts a search found.
pub fn suggestions(found: Vec<Post>) -> (r: Vec<Post>)
    ensures
        r@ == found@.take(if found@.len() < SUGGESTION_LIMIT {
            found@.len() as int
        } else {
            SUGGESTION_LIMIT as int
        }),
{
    let mut found = found;
    found.truncate(SUGGESTION_LIMIT);
    found
}

} // verus!
