//! Blog listing pages.

use vstd::prelude::*;
use crate::handlers::microblog::{listed_count, pages_for};

verus! {

/// `?page=` of a listing.
#[derive(Debug, Clone)]
pub struct Pagination {
    pub page: Option<u32>,
}

/// Posts per page: the configured number, at least 1.
pub fn posts_per_page(configured: u32) -> (r: u32)
    ensures
        r == if configured >= 1 {
            configured
        } else {
            1
        },
{
    if configured >= 1 {
        configured
    } else {
        1
    }
}

/// Pages of a listing of `total` posts, `per_page` to a page; at least one page.
pub fn total_pages(total: i64, per_page: u32) -> (r: u32)
    requires
        per_page >= 1,
        listed_count(total) + per_page <= u32::MAX,
    ensures
        r == pages_for(listed_count(total) as nat, per_page as nat),
{
    let t: u32 = if total > 0 {
        total as u32
    } else {
        0
    };
    let pages = (t + per_page - 1) / per_page;
    if pages >= 1 {
        pages
    } else {
        1
    }
}

} // verus!
