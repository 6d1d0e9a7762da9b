//! Admin post authoring.

use vstd::prelude::*;
use crate::domain::Tag;
use crate::error::{is_bad_request, AppError};
use crate::text::{
    append_str, chars_of, parse_i64, parse_i64_spec, push_range, str_eq, trim, trim_bounds, trimmed,
};

verus! {

broadcast use vstd::string::group_string_axioms;

/// The post editor form.
#[derive(Debug, Clone)]
pub struct PostForm {
    pub title: String,
    pub slug: String,
    pub summary: String,
    pub content_md: String,
    pub cover_image: String,
    pub status: String,
    pub category_id: String,
    pub tags: String,
    pub csrf_token: String,
}

/// A form that carries only its CSRF token.
#[derive(Debug, Clone)]
pub struct CsrfOnly {
    pub csrf_token: String,
}

/// The stored status of a submitted one: `published`, `draft` and `archived` stay, anything
/// else becomes `draft`.
pub open spec fn status_for(raw: Seq<char>) -> Seq<char> {
    if raw == "published"@ || raw == "draft"@ || raw == "archived"@ {
        raw
    } else {
        "draft"@
    }
}

/// The stored status of a submitted one.
pub fn normalize_status(raw: &str) -> (r: String)
    ensures
        r@ == status_for(raw@),
{
    if str_eq(raw, "published") || str_eq(raw, "draft") || str_eq(raw, "archived") {
        String::from_str(raw)
    } else {
        String::from_str("draft")
    }
}

/// The chosen category: a positive id after trimming, else none.
pub fn parse_category_id(raw: &str) -> (r: Option<i64>)
    ensures
        r == match parse_i64_spec(trim(raw@)) {
            Some(v) if v > 0 => Some(v),
            _ => None::<i64>,
        },
{
    match parse_i64(trimmed(raw)) {
        Some(v) => {
            if v <= 0 {
                None
            } else {
                Some(v)
            }
        },
        None => None,
    }
}

/// An optional text field: trimmed, or none when blank.
pub fn option_str(raw: &str) -> (r: Option<&str>)
    ensures
        match r {
            Some(s) => s@ == trim(raw@) && s@.len() > 0,
            None => trim(raw@).len() == 0,
        },
{
    let t = trimmed(raw);
    if t.is_empty() {
        None
    } else {
        Some(t)
    }
}

/// The trimmed title; a blank title is refused.
pub fn required_title(title: &str) -> (r: Result<&str, AppError>)
    ensures
        match r {
            Ok(t) => t@ == trim(title@) && t@.len() > 0,
            Err(_) => trim(title@).len() == 0 && is_bad_request(r, "Title is required."@),
        },
{
    let t = trimmed(title);
    if t.is_empty() {
        Err(AppError::BadRequest(String::from_str("Title is required.")))
    } else {
        Ok(t)
    }
}

/// The fields of `s` between commas, as `str::split(',')` gives them.
pub open spec fn comma_fields(s: Seq<char>) -> Seq<Seq<char>>
    decreases s.len(),
{
    if s.len() == 0 {
        seq![seq![]]
    } else {
        let f = comma_fields(s.drop_last());
        if s.last() == ',' {
            f.push(seq![])
        } else {
            f.update(f.len() - 1, f.last().push(s.last()))
        }
    }
}

/// The fields trimmed, blank ones left out.
pub open spec fn nonblank_trimmed(fields: Seq<Seq<char>>) -> Seq<Seq<char>>
    decreases fields.len(),
{
    if fields.len() == 0 {
        seq![]
    } else {
        let rest = nonblank_trimmed(fields.drop_last());
        if trim(fields.last()).len() > 0 {
            rest.push(trim(fields.last()))
        } else {
            rest
        }
    }
}

/// The tag names of a comma-separated list: each field trimmed, blank ones left out.
pub open spec fn tag_names_spec(csv: Seq<char>) -> Seq<Seq<char>> {
    nonblank_trimmed(comma_fields(csv))
}

proof fn lemma_comma_fields_nonempty(s: Seq<char>)
    ensures
        comma_fields(s).len() >= 1,
    decreases s.len(),
{
    if s.len() > 0 {
        lemma_comma_fields_nonempty(s.drop_last());
    }
}

/// Appends the trimmed field to `names` unless it is blank.
fn push_field(names: &mut Vec<String>, field: &Vec<char>)
    ensures
        final(names)@.map_values(|s: String| s@) == if trim(field@).len() > 0 {
            old(names)@.map_values(|s: String| s@).push(trim(field@))
        } else {
            old(names)@.map_values(|s: String| s@)
        },
{
    let (start, end) = trim_bounds(field);
    if start < end {
        let mut name = String::new();
        push_range(&mut name, field, start, end);
        names.push(name);
        assert(names@.map_values(|s: String| s@) =~= old(names)@.map_values(|s: String| s@).push(
            trim(field@),
        ));
    }
}

/// The tag names of the comma-separated list in the post form.
pub fn split_tag_names(csv: &str) -> (r: Vec<String>)
    ensures
        r@.map_values(|s: String| s@) == tag_names_spec(csv@),
{
    let v = chars_of(csv);
    let mut names: Vec<String> = Vec::new();
    let mut current: Vec<char> = Vec::new();
    let mut i: usize = 0;
    assert(names@.map_values(|s: String| s@) =~= seq![]);
    while i < v.len()
        invariant
            i <= v.len(),
            v@ == csv@,
            comma_fields(v@.take(i as int)).len() >= 1,
            names@.map_values(|s: String| s@) == nonblank_trimmed(
                comma_fields(v@.take(i as int)).drop_last(),
            ),
            current@ == comma_fields(v@.take(i as int)).last(),
        decreases v.len() - i,
    {
        let ghost f = comma_fields(v@.take(i as int));
        let c = v[i];
        proof {
            let t = v@.take(i + 1);
            assert(t.drop_last() =~= v@.take(i as int));
            assert(t.last() == c);
        }
        if c == ',' {
            push_field(&mut names, &current);
            current = Vec::new();
            proof {
                let f2 = f.push(seq![]);
                assert(f2.drop_last() =~= f);
                assert(f =~= f.drop_last().push(f.last()));
                assert(nonblank_trimmed(f) == if trim(f.last()).len() > 0 {
                    nonblank_trimmed(f.drop_last()).push(trim(f.last()))
                } else {
                    nonblank_trimmed(f.drop_last())
                });
            }
        } else {
            current.push(c);
            proof {
                let f2 = f.update(f.len() - 1, f.last().push(c));
                assert(f2.drop_last() =~= f.drop_last());
            }
        }
        i += 1;
    }
    let ghost f = comma_fields(v@.take(i as int));
    push_field(&mut names, &current);
    proof {
        assert(v@.take(i as int) =~= csv@);
        assert(f =~= f.drop_last().push(f.last()));
    }
    names
}

/// The names of `tags` joined by `, `.
pub open spec fn joined_tag_names(tags: Seq<Tag>) -> Seq<char>
    decreases tags.len(),
{
    if tags.len() == 0 {
        Seq::empty()
    } else if tags.len() == 1 {
        tags[0].name@
    } else {
        joined_tag_names(tags.drop_last()) + ", "@ + tags.last().name@
    }
}

/// The tags field of the post editor: the post's tag names joined by `, `.
pub fn tags_csv(tags: &Vec<Tag>) -> (r: String)
    ensures
        r@ == joined_tag_names(tags@),
{
    let mut out = String::new();
    let mut i: usize = 0;
    while i < tags.len()
        invariant
            i <= tags.len(),
            out@ == joined_tag_names(tags@.take(i as int)),
        decreases tags.len() - i,
    {
        if i > 0 {
            append_str(&mut out, ", ");
        }
        append_str(&mut out, tags[i].name.as_str());
        proof {
            let next = tags@.take(i + 1);
            assert(next.drop_last() =~= tags@.take(i as int));
            if i == 0 {
                assert(out@ =~= next[0].name@);
            }
        }
        i += 1;
    }
    assert(tags@.take(tags.len() as int) =~= tags@);
    out
}

proof fn lemma_comma_fields_without_comma(s: Seq<char>)
    requires
        forall|i: int| 0 <= i < s.len() ==> #[trigger] s[i] != ',',
    ensures
        comma_fields(s) == seq![s],
    decreases s.len(),
{
    if s.len() > 0 {
        let init = s.drop_last();
        assert forall|i: int| 0 <= i < init.len() implies #[trigger] init[i] != ',' by {
            assert(init[i] == s[i]);
        }
        lemma_comma_fields_without_comma(init);
        assert(s[s.len() - 1] != ',');
        assert(init.push(s.last()) =~= s);
        assert(seq![init].update(0, init.push(s.last())) =~= seq![s]);
    } else {
        assert(s =~= Seq::<char>::empty());
    }
}

proof fn lemma_comma_fields_split(a: Seq<char>, b: Seq<char>)
    ensures
        comma_fields(a + seq![','] + b) == comma_fields(a) + comma_fields(b),
    decreases b.len(),
{
    let s = a + seq![','] + b;
    if b.len() == 0 {
        assert(s.drop_last() =~= a);
        assert(s.last() == ',');
        assert(comma_fields(b) == seq![Seq::<char>::empty()]);
        assert(comma_fields(a).push(seq![]) =~= comma_fields(a) + comma_fields(b));
    } else {
        let b0 = b.drop_last();
        assert(s.drop_last() =~= a + seq![','] + b0);
        lemma_comma_fields_split(a, b0);
        lemma_comma_fields_nonempty(b0);
        let fa = comma_fields(a);
        let fb = comma_fields(b0);
        assert(s.last() == b.last());
        if b.last() == ',' {
            assert((fa + fb).push(seq![]) =~= fa + fb.push(seq![]));
        } else {
            assert((fa + fb).last() == fb.last());
            assert((fa + fb).update((fa + fb).len() - 1, fb.last().push(b.last())) =~= fa
                + fb.update(fb.len() - 1, fb.last().push(b.last())));
        }
    }
}

proof fn lemma_nonblank_trimmed_append(f: Seq<Seq<char>>, g: Seq<Seq<char>>)
    ensures
        nonblank_trimmed(f + g) == nonblank_trimmed(f) + nonblank_trimmed(g),
    decreases g.len(),
{
    if g.len() == 0 {
        assert(f + g =~= f);
        assert(nonblank_trimmed(f) + nonblank_trimmed(g) =~= nonblank_trimmed(f));
    } else {
        assert((f + g).drop_last() =~= f + g.drop_last());
        lemma_nonblank_trimmed_append(f, g.drop_last());
        assert((f + g).last() == g.last());
        if trim(g.last()).len() > 0 {
            assert((nonblank_trimmed(f) + nonblank_trimmed(g.drop_last())).push(trim(g.last()))
                =~= nonblank_trimmed(f) + nonblank_trimmed(g.drop_last()).push(trim(g.last())));
        }
    }
}

/// Tag names are split at commas and nowhere else: a list without a comma is one name,
/// the whole list trimmed (inner spaces kept), or none when it is blank; and the names of
/// two lists joined by a comma are the names of the first followed by those of the second.
pub proof fn law_tag_names_split_only_at_commas(csv: Seq<char>, a: Seq<char>, b: Seq<char>)
    ensures
        (forall|i: int| 0 <= i < csv.len() ==> #[trigger] csv[i] != ',') ==> tag_names_spec(csv)
            == if trim(csv).len() > 0 {
            seq![trim(csv)]
        } else {
            Seq::<Seq<char>>::empty()
        },
        tag_names_spec(a + seq![','] + b) == tag_names_spec(a) + tag_names_spec(b),
{
    if forall|i: int| 0 <= i < csv.len() ==> #[trigger] csv[i] != ',' {
        lemma_comma_fields_without_comma(csv);
        assert(seq![csv].drop_last() =~= Seq::<Seq<char>>::empty());
        assert(nonblank_trimmed(Seq::<Seq<char>>::empty()) == Seq::<Seq<char>>::empty());
        if trim(csv).len() > 0 {
            assert(Seq::<Seq<char>>::empty().push(trim(csv)) =~= seq![trim(csv)]);
        }
    }
    lemma_comma_fields_split(a, b);
    lemma_nonblank_trimmed_append(comma_fields(a), comma_fields(b));
}

} // verus!
