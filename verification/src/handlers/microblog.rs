//! Microblog pages: timelines, statuses, profiles and hashtags.

pub mod hashtag;
pub mod me;
pub mod profile;
pub mod status;

use vstd::prelude::*;
use crate::services::admin_guard::AuthContext;
use crate::templates::ViewerContext;

verus! {

/// `?page=` of a listing.
#[derive(Debug, Clone, Default)]
pub struct Pagination {
    pub page: Option<u32>,
}

/// Statuses per page of a microblog listing.
pub const PER_PAGE: u32 = 20;

/// The viewer of a page: the signed-in user and their session's token, if any.
pub fn viewer_from(auth: Option<&AuthContext>) -> (r: Option<ViewerContext>)
    ensures
        match auth {
            Some(a) => r matches Some(v) && v.user == a.user && v.csrf_token@
                == a.session.csrf_token@,
            None => r is None,
        },
{
    match auth {
        Some(a) => Some(ViewerContext::from_user(&a.user, &a.session.csrf_token)),
        None => None,
    }
}

/// The page asked for: the given number, at least 1; 1 when none is given.
pub open spec fn page_number_spec(page: Option<u32>) -> u32 {
    match page {
        Some(p) if p >= 1 => p,
        _ => 1,
    }
}

/// The page asked for by `?page=`.
pub fn page_number(page: Option<u32>) -> (r: u32)
    ensures
        r == page_number_spec(page),
{
    match page {
        Some(p) => {
            if p >= 1 {
                p
            } else {
                1
            }
        },
        None => 1,
    }
}

/// The item count a listing works with: negative counts as 0, and the count is read as a
/// `u32` (its low 32 bits).
pub open spec fn listed_count(total: i64) -> u32 {
    (if total > 0 {
        total
    } else {
        0
    }) as u32
}

/// Pages needed for `total` items at `per_page` items each, at least one.
pub open spec fn pages_for(total: nat, per_page: nat) -> nat {
    let p = (total + per_page - 1) / per_page as int;
    if p >= 1 {
        p as nat
    } else {
        1
    }
}

/// Pages of a listing of `total` items, `per_page` (at least 1) to a page; at least one
/// page.
pub fn total_pages(total: i64, per_page: u32) -> (r: u32)
    requires
        listed_count(total) + (if per_page >= 1 {
            per_page
        } else {
            1
        }) <= u32::MAX,
    ensures
        r == pages_for(
            listed_count(total) as nat,
            (if per_page >= 1 {
                per_page
            } else {
                1
            }) as nat,
        ),
{
    let t: u32 = if total > 0 {
        total as u32
    } else {
        0
    };
    let pp: u32 = if per_page >= 1 {
        per_page
    } else {
        1
    };
    let pages = (t + pp - 1) / pp;
    if pages >= 1 {
        pages
    } else {
        1
    }
}

/// Paging shows every item and no empty page: `pages` pages hold all `total` items, and
/// when there is an item, one page fewer would not.
pub proof fn law_pages_cover_items(total: nat, per_page: nat)
    requires
        per_page >= 1,
    ensures
        pages_for(total, per_page) >= 1,
        pages_for(total, per_page) * per_page >= total,
        total > 0 ==> (pages_for(total, per_page) - 1) * per_page < total,
{
    let q = (total + per_page - 1) / per_page as int;
    assert(q * per_page <= total + per_page - 1 < (q + 1) * per_page) by (nonlinear_arith)
        requires
            per_page >= 1,
            q == (total + per_page - 1) / per_page as int,
            total >= 0,
    ;
    if q >= 1 {
        assert(q * per_page >= total) by (nonlinear_arith)
            requires
                (q + 1) * per_page > total + per_page - 1,
                per_page >= 1,
        ;
        assert((q - 1) * per_page == q * per_page - per_page) by (nonlinear_arith);
    } else {
        assert(q * per_page >= 0) by (nonlinear_arith)
            requires
                q >= 0,
                per_page >= 1,
        ;
    }
}

} // verus!
