//! Dates of feed and sitemap entries.

use vstd::prelude::*;

verus! {

broadcast use vstd::string::group_string_axioms;

/// What `chrono` writes for a stored `YYYY-MM-DD HH:MM:SS` timestamp read as UTC, in the
/// RFC 2822 form; a value that does not parse in that form, or whose year RFC 2822 cannot
/// write (outside 0 to 9999), is kept as it is.
pub uninterp spec fn rfc2822_of(stored: Seq<char>) -> Seq<char>;

/// Parses `stored` with `chrono::NaiveDateTime::parse_from_str` in the form
/// `%Y-%m-%d %H:%M:%S`, reads it as UTC and writes it with the RFC 2822 item of chrono's
/// formatter (the writer behind `to_rfc2822`, whose error for a year outside 0 to 9999 is
/// handed back here instead of panicking); a value that does not parse or cannot be
/// written is returned unchanged. The contract names the result `rfc2822_of` (a function
/// of the text alone) and says no more of the formatting.
#[verifier::external_body]
fn chrono_rfc2822(stored: &str) -> (r: String)
    ensures
        r@ == rfc2822_of(stored@),
{
    let t = match chrono::NaiveDateTime::parse_from_str(stored, "%Y-%m-%d %H:%M:%S") {
        Ok(t) => t.and_utc(),
        Err(_) => return stored.to_string(),
    };
    let items = [chrono::format::Item::Fixed(chrono::format::Fixed::RFC2822)];
    let mut out = String::new();
    match t.format_with_items(items.iter()).write_to(&mut out) {
        Ok(()) => out,
        Err(_) => stored.to_string(),
    }
}

/// A stored timestamp in the RFC 2822 form of RSS dates.
pub fn rfc2822(stored: &str) -> (r: String)
    ensures
        r@ == rfc2822_of(stored@),
{
    chrono_rfc2822(stored)
}

/// The date part of a stored timestamp: its first ten characters (all of it when shorter).
pub open spec fn iso_date_spec(stored: Seq<char>) -> Seq<char> {
    if stored.len() < 10 {
        stored
    } else {
        stored.take(10)
    }
}

/// The date of a stored timestamp, as sitemaps write it.
pub fn iso_date(stored: &str) -> (r: String)
    ensures
        r@ == iso_date_spec(stored@),
{
    let v = crate::text::chars_of(stored);
    let end: usize = if v.len() < 10 {
        v.len()
    } else {
        10
    };
    let mut out = String::new();
    crate::text::push_range(&mut out, &v, 0, end);
    assert(v@.subrange(0, end as int) =~= iso_date_spec(stored@));
    out
}

} // verus!
