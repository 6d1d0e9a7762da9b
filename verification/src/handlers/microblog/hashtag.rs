//! Hashtag pages.

use vstd::prelude::*;
use crate::services::status_service::is_word_char;
use crate::text::{chars_of, string_of};

verus! {

broadcast use vstd::string::group_string_axioms;

/// The characters of `s` that may stand in a hashtag (Unicode letters and digits, `_`).
pub open spec fn word_chars_only(s: Seq<char>) -> Seq<char>
    decreases s.len(),
{
    if s.len() == 0 {
        seq![]
    } else if is_word_char(s.last()) {
        word_chars_only(s.drop_last()).push(s.last())
    } else {
        word_chars_only(s.drop_last())
    }
}

/// The hashtag of a `/h/{tag}` path: its letters, digits and underscores.
pub fn normalize_tag(tag: &str) -> (r: String)
    ensures
        r@ == word_chars_only(tag@),
{
    let v = chars_of(tag);
    let mut out: Vec<char> = Vec::new();
    let mut i: usize = 0;
    while i < v.len()
        invariant
            i <= v.len(),
            out@ == word_chars_only(v@.take(i as int)),
        decreases v.len() - i,
    {
        proof {
            let t = v@.take(i + 1);
            assert(t.drop_last() =~= v@.take(i as int));
            assert(t.last() == v@[i as int]);
        }
        let c = v[i];
        if c.is_alphanumeric() || c == '_' {
            out.push(c);
        }
        i += 1;
    }
    assert(v@.take(v.len() as int) =~= v@);
    string_of(&out)
}

/// A normalized hashtag holds only word characters, and normalizing it again changes
/// nothing.
pub proof fn law_normalized_tag_is_stable(s: Seq<char>)
    ensures
        forall|i: int|
            0 <= i < word_chars_only(s).len() ==> is_word_char(#[trigger] word_chars_only(s)[i]),
        word_chars_only(word_chars_only(s)) == word_chars_only(s),
    decreases s.len(),
{
    if s.len() > 0 {
        law_normalized_tag_is_stable(s.drop_last());
        let w = word_chars_only(s.drop_last());
        if is_word_char(s.last()) {
            assert(w.push(s.last()).drop_last() =~= w);
        }
    }
}

} // verus!
