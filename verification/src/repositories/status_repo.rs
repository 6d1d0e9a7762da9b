//! Statuses in the database.

use vstd::prelude::*;
use crate::text::append_str;

verus! {

/// The columns written when a status is created.
#[derive(Debug, Clone)]
pub struct StatusInput<'a> {
    pub user_id: i64,
    pub content_md: &'a str,
    pub content_html: &'a str,
    pub parent_id: Option<i64>,
    pub repost_of_id: Option<i64>,
}

/// The `LIKE` pattern that finds `#tag` anywhere in a status body.
pub fn hashtag_pattern(tag: &str) -> (r: String)
    ensures
        r@ == seq!['%', '#'] + tag@ + seq!['%'],
{
    let mut out = String::new();
    out.push('%');
    out.push('#');
    append_str(&mut out, tag);
    out.push('%');
    out
}

} // verus!
