//! URL slugs of titles and names.

use vstd::prelude::*;
use crate::text::{ascii_alnum, ascii_lower, chars_of, is_ascii_alnum, string_of, to_ascii_lower};

verus! {

broadcast use vstd::string::group_string_axioms;

/// The slug of `s` before its trailing dash is cut: ASCII letters and digits lowered, each
/// run of other characters after some kept one written as a single `-`.
pub open spec fn slug_chars(s: Seq<char>) -> Seq<char>
    decreases s.len(),
{
    if s.len() == 0 {
        Seq::empty()
    } else {
        let before = slug_chars(s.drop_last());
        let c = s.last();
        if is_ascii_alnum(c) {
            before.push(ascii_lower(c))
        } else if before.len() > 0 && before.last() != '-' {
            before.push('-')
        } else {
            before
        }
    }
}

/// The slug of `s`: `slug_chars(s)` without a trailing dash.
pub open spec fn slug_spec(s: Seq<char>) -> Seq<char> {
    let t = slug_chars(s);
    if t.len() > 0 && t.last() == '-' {
        t.drop_last()
    } else {
        t
    }
}

/// The slug of a title or name: lower-case ASCII letters and digits, words joined by
/// single dashes; empty when `s` has no ASCII letter or digit.
pub fn slugify(s: &str) -> (r: String)
    ensures
        r@ == slug_spec(s@),
{
    let v = chars_of(s);
    let mut out: Vec<char> = Vec::new();
    let mut i: usize = 0;
    while i < v.len()
        invariant
            i <= v.len(),
            v@ == s@,
            out@ == slug_chars(v@.take(i as int)),
        decreases v.len() - i,
    {
        let c = v[i];
        proof {
            let t = v@.take(i + 1);
            assert(t.drop_last() =~= v@.take(i as int));
            assert(t.last() == c);
        }
        if ascii_alnum(c) {
            out.push(to_ascii_lower(c));
        } else if out.len() > 0 && out[out.len() - 1] != '-' {
            out.push('-');
        }
        i += 1;
    }
    assert(v@.take(v.len() as int) =~= s@);
    if out.len() > 0 && out[out.len() - 1] == '-' {
        out.pop();
    }
    string_of(&out)
}

/// A slug holds only lower-case ASCII letters, digits and dashes, and neither starts nor
/// ends with a dash.
pub proof fn law_slug_is_url_safe(s: Seq<char>)
    ensures
        forall|i: int|
            0 <= i < slug_spec(s).len() ==> ('a' <= #[trigger] slug_spec(s)[i] <= 'z') || (
            '0' <= slug_spec(s)[i] <= '9') || slug_spec(s)[i] == '-',
        slug_spec(s).len() > 0 ==> slug_spec(s)[0] != '-' && slug_spec(s).last() != '-',
{
    lemma_slug_chars(s);
}

proof fn lemma_slug_chars(s: Seq<char>)
    ensures
        forall|i: int|
            0 <= i < slug_chars(s).len() ==> ('a' <= #[trigger] slug_chars(s)[i] <= 'z') || (
            '0' <= slug_chars(s)[i] <= '9') || slug_chars(s)[i] == '-',
        slug_chars(s).len() > 0 ==> slug_chars(s)[0] != '-',
        forall|i: int|
            0 <= i < slug_chars(s).len() - 1 ==> !(#[trigger] slug_chars(s)[i] == '-'
                && slug_chars(s)[i + 1] == '-'),
    decreases s.len(),
{
    if s.len() > 0 {
        lemma_slug_chars(s.drop_last());
        let before = slug_chars(s.drop_last());
        let c = s.last();
        if is_ascii_alnum(c) {
            assert(slug_chars(s) == before.push(ascii_lower(c)));
            assert(('a' <= ascii_lower(c) <= 'z') || ('0' <= ascii_lower(c) <= '9'));
        }
    }
}

} // verus!
