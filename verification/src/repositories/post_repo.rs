//! Blog posts in the database.

use vstd::prelude::*;
use crate::text::{append_str, trim, trimmed};

verus! {

/// The columns written when a post is created or updated.
#[derive(Debug, Clone)]
pub struct PostInput<'a> {
    pub title: &'a str,
    pub slug: &'a str,
    pub summary: Option<&'a str>,
    pub content_md: &'a str,
    pub content_html: &'a str,
    pub cover_image: Option<&'a str>,
    pub status: &'a str,
    pub category_id: Option<i64>,
}

/// The `LIKE` pattern of a search: the trimmed query between `%` wildcards.
pub fn search_term(q: &str) -> (r: String)
    ensures
        r@ == seq!['%'] + trim(q@) + seq!['%'],
{
    let mut out = String::new();
    out.push('%');
    append_str(&mut out, trimmed(q));
    out.push('%');
    out
}

} // verus!
