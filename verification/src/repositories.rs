//! What the data access layer computes before it talks to the database.

pub mod post_repo;
pub mod status_repo;

use vstd::prelude::*;

verus! {

/// `n` SQL placeholders separated by commas: `?,?,?`.
pub open spec fn placeholders_spec(n: nat) -> Seq<char>
    decreases n,
{
    if n == 0 {
        Seq::empty()
    } else if n == 1 {
        seq!['?']
    } else {
        placeholders_spec((n - 1) as nat) + seq![',', '?']
    }
}

/// The placeholder list of an `IN (..)` clause over `n` bound values.
pub fn sql_placeholders(n: usize) -> (r: String)
    ensures
        r@ == placeholders_spec(n as nat),
{
    let mut out = String::new();
    let mut i: usize = 0;
    while i < n
        invariant
            i <= n,
            out@ == placeholders_spec(i as nat),
        decreases n - i,
    {
        if i > 0 {
            out.push(',');
        }
        out.push('?');
        i += 1;
        assert(out@ =~= placeholders_spec(i as nat));
    }
    out
}

/// The rows skipped before a page: all those of the pages before it (page 0 counts as
/// page 1).
pub open spec fn page_offset_spec(page: u32, per_page: u32) -> int {
    (if page >= 1 {
        page - 1
    } else {
        0
    }) * per_page
}

/// The `OFFSET` of a page of `per_page` rows.
pub fn page_offset(page: u32, per_page: u32) -> (r: i64)
    requires
        page_offset_spec(page, per_page) <= u32::MAX,
    ensures
        r == page_offset_spec(page, per_page),
{
    let p: u32 = if page >= 1 {
        page
    } else {
        1
    };
    ((p - 1) * per_page) as i64
}

} // verus!
