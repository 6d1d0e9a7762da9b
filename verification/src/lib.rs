//! A microblog and Markdown blog: the text processing, validation,
//! rate limiting and view assembly behind its pages, with contracts.

pub mod config;
pub mod domain;
pub mod error;
pub mod handlers;
pub mod repositories;
pub mod templates;
pub mod text;
pub mod services;
pub mod utils;

use vstd::prelude::*;
use crate::text::append_str;

verus! {

broadcast use vstd::string::group_string_axioms;

/// A byte that a query value keeps as it is: ASCII letters and digits, `-`, `_`, `.`, `~`.
pub open spec fn is_unreserved(b: u8) -> bool {
    (65 <= b <= 90) || (97 <= b <= 122) || (48 <= b <= 57) || b == 45 || b == 95 || b == 46
        || b == 126
}

/// The upper-case hexadecimal digit for `d < 16`.
pub open spec fn hex_digit(d: u8) -> char {
    if d < 10 {
        ((48 + d) as u8) as char
    } else {
        ((55 + d) as u8) as char
    }
}

/// How one byte is written in a query value: itself when unreserved, else `%` and two
/// upper-case hexadecimal digits.
pub open spec fn encode_byte(b: u8) -> Seq<char> {
    if is_unreserved(b) {
        seq![b as char]
    } else {
        seq!['%', hex_digit(b / 16), hex_digit(b % 16)]
    }
}

/// The bytes `bytes`, percent-encoded for a query value.
pub open spec fn percent_encoded(bytes: Seq<u8>) -> Seq<char>
    decreases bytes.len(),
{
    if bytes.len() == 0 {
        Seq::empty()
    } else {
        percent_encoded(bytes.drop_last()) + encode_byte(bytes.last())
    }
}

fn hex_digit_char(d: u8) -> (c: char)
    requires
        d < 16,
    ensures
        c == hex_digit(d),
{
    if d < 10 {
        (48 + d) as char
    } else {
        (55 + d) as char
    }
}

/// The UTF-8 bytes of `s`, percent-encoded for a query value.
pub fn percent_encode_query(s: &str) -> (r: String)
    ensures
        r@ == percent_encoded(vstd::utf8::encode_utf8(s@)),
{
    let bytes = s.as_bytes();
    let mut out = String::new();
    let mut i: usize = 0;
    while i < bytes.len()
        invariant
            i <= bytes.len(),
            bytes@ == vstd::utf8::encode_utf8(s@),
            out@ == percent_encoded(bytes@.take(i as int)),
        decreases bytes.len() - i,
    {
        let b = bytes[i];
        let ghost before = out@;
        if (65 <= b && b <= 90) || (97 <= b && b <= 122) || (48 <= b && b <= 57) || b == 45 || b
            == 95 || b == 46 || b == 126 {
            out.push(b as char);
        } else {
            out.push('%');
            out.push(hex_digit_char(b / 16));
            out.push(hex_digit_char(b % 16));
        }
        assert(bytes@.take(i + 1).drop_last() =~= bytes@.take(i as int));
        assert(out@ =~= before + encode_byte(b));
        i += 1;
    }
    assert(bytes@.take(bytes.len() as int) =~= bytes@);
    out
}

/// Where the old search address sends a query: the blog search with the query
/// percent-encoded, or the bare blog search when there is no query.
pub fn legacy_search_target(q: Option<&str>) -> (r: String)
    ensures
        r@ == match q {
            Some(v) if v@.len() > 0 => "/blog/search?q="@ + percent_encoded(
                vstd::utf8::encode_utf8(v@),
            ),
            _ => "/blog/search"@,
        },
{
    match q {
        Some(v) => {
            if v.is_empty() {
                String::from_str("/blog/search")
            } else {
                let mut out = String::from_str("/blog/search?q=");
                let enc = percent_encode_query(v);
                append_str(&mut out, enc.as_str());
                out
            }
        },
        None => String::from_str("/blog/search"),
    }
}

/// Where an old address of a `kind` of page (`posts`, `categories`, `tags`) sends
/// `slug`: the same page under `/blog`.
pub fn legacy_target(kind: &str, slug: &str) -> (r: String)
    ensures
        r@ == "/blog/"@ + kind@ + "/"@ + slug@,
{
    let mut out = String::from_str("/blog/");
    append_str(&mut out, kind);
    out.push('/');
    append_str(&mut out, slug);
    proof {
        reveal_strlit("/");
        assert("/"@ =~= seq!['/']);
    }
    out
}

/// A character that may stand in a query value as it is: an unreserved character or
/// the `%` of an escape.
pub open spec fn is_query_safe(c: char) -> bool {
    ('A' <= c <= 'Z') || ('a' <= c <= 'z') || ('0' <= c <= '9') || c == '-' || c == '_' || c
        == '.' || c == '~' || c == '%'
}

/// Whatever the bytes, their percent-encoding holds only query-safe characters, so a
/// query value cannot break out of its parameter.
pub proof fn law_encoded_query_is_safe(bytes: Seq<u8>)
    ensures
        forall|i: int|
            0 <= i < percent_encoded(bytes).len() ==> is_query_safe(
                #[trigger] percent_encoded(bytes)[i],
            ),
    decreases bytes.len(),
{
    if bytes.len() > 0 {
        law_encoded_query_is_safe(bytes.drop_last());
        let b = bytes.last();
        let pre = percent_encoded(bytes.drop_last());
        let e = encode_byte(b);
        assert(forall|i: int| 0 <= i < e.len() ==> is_query_safe(#[trigger] e[i])) by {
            if is_unreserved(b) {
                assert(e[0] == b as char);
            } else {
                assert(b / 16 < 16);
                assert(b % 16 < 16);
            }
        }
        assert forall|i: int| 0 <= i < percent_encoded(bytes).len() implies is_query_safe(
            #[trigger] percent_encoded(bytes)[i],
        ) by {
            if i < pre.len() {
                assert(percent_encoded(bytes)[i] == pre[i]);
            } else {
                assert(percent_encoded(bytes)[i] == e[i - pre.len()]);
            }
        }
    }
}

} // verus!
