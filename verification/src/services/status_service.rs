//! Statuses: composing them, linking `@user` and `#tag` tokens in their HTML, and
//! assembling what a page shows of each.

use vstd::prelude::*;
use crate::utils::markdown::{markdown_html, render};
use std::collections::{HashMap, HashSet};
use crate::domain::{Asset, Status, StatusView, User};
use crate::error::{is_bad_request, AppError};
use crate::text::{
    ascii_alnum, ascii_lower, byte_len, chars_of, is_ascii_alnum, push_range, str_eq,
    to_ascii_lower, trim, trimmed, unicode_alphanumeric,
};

verus! {

broadcast use {vstd::string::group_string_axioms, vstd::std_specs::hash::group_hash_axioms};

// ---------------------------------------------------------------------------
// HTML escaping
// ---------------------------------------------------------------------------

/// What `html_escape` writes for one character.
pub open spec fn escape_char(c: char) -> Seq<char> {
    if c == '&' {
        seq!['&', 'a', 'm', 'p', ';']
    } else if c == '<' {
        seq!['&', 'l', 't', ';']
    } else if c == '>' {
        seq!['&', 'g', 't', ';']
    } else if c == '"' {
        seq!['&', 'q', 'u', 'o', 't', ';']
    } else if c == '\'' {
        seq!['&', '#', '3', '9', ';']
    } else {
        seq![c]
    }
}

/// `s` with `&`, `<`, `>`, `"` and `'` replaced by their HTML entities.
pub open spec fn html_escape_spec(s: Seq<char>) -> Seq<char>
    decreases s.len(),
{
    if s.len() == 0 {
        seq![]
    } else {
        html_escape_spec(s.drop_last()) + escape_char(s.last())
    }
}

/// Appends the escape of one character.
fn push_escaped_char(out: &mut String, c: char)
    ensures
        final(out)@ == old(out)@ + escape_char(c),
{
    let ghost start = out@;
    if c == '&' {
        out.push('&');
        out.push('a');
        out.push('m');
        out.push('p');
        out.push(';');
    } else if c == '<' {
        out.push('&');
        out.push('l');
        out.push('t');
        out.push(';');
    } else if c == '>' {
        out.push('&');
        out.push('g');
        out.push('t');
        out.push(';');
    } else if c == '"' {
        out.push('&');
        out.push('q');
        out.push('u');
        out.push('o');
        out.push('t');
        out.push(';');
    } else if c == '\'' {
        out.push('&');
        out.push('#');
        out.push('3');
        out.push('9');
        out.push(';');
    } else {
        out.push(c);
    }
    assert(out@ =~= start + escape_char(c));
}

/// Appends the escape of `v[from..to]`.
fn push_escaped(out: &mut String, v: &Vec<char>, from: usize, to: usize)
    requires
        from <= to <= v.len(),
    ensures
        final(out)@ == old(out)@ + html_escape_spec(v@.subrange(from as int, to as int)),
{
    let ghost start = out@;
    let mut i = from;
    assert(v@.subrange(from as int, from as int).len() == 0);
    while i < to
        invariant
            from <= i <= to <= v.len(),
            out@ == start + html_escape_spec(v@.subrange(from as int, i as int)),
        decreases to - i,
    {
        push_escaped_char(out, v[i]);
        proof {
            let s = v@.subrange(from as int, i + 1);
            assert(s.drop_last() =~= v@.subrange(from as int, i as int));
            assert(s.last() == v@[i as int]);
        }
        i += 1;
    }
}

/// Escapes `&`, `<`, `>`, `"` and `'` for use in HTML text and attributes.
pub fn html_escape(s: &str) -> (r: String)
    ensures
        r@ == html_escape_spec(s@),
{
    let v = chars_of(s);
    let mut out = String::new();
    push_escaped(&mut out, &v, 0, v.len());
    assert(v@.subrange(0, v.len() as int) =~= v@);
    out
}

// ---------------------------------------------------------------------------
// Tag names
// ---------------------------------------------------------------------------

/// `s` without its leading run of `c` (`str::trim_start_matches`).
pub open spec fn strip_leading(s: Seq<char>, c: char) -> Seq<char>
    decreases s.len(),
{
    if s.len() > 0 && s[0] == c {
        strip_leading(s.drop_first(), c)
    } else {
        s
    }
}

/// `s` without its trailing run of `c` (`str::trim_end_matches`).
pub open spec fn strip_trailing(s: Seq<char>, c: char) -> Seq<char>
    decreases s.len(),
{
    if s.len() > 0 && s.last() == c {
        strip_trailing(s.drop_last(), c)
    } else {
        s
    }
}

/// Length of the leading run of ASCII letters and digits of `s`.
pub open spec fn ascii_alnum_run(s: Seq<char>) -> nat
    decreases s.len(),
{
    if s.len() > 0 && is_ascii_alnum(s[0]) {
        1 + ascii_alnum_run(s.drop_first())
    } else {
        0
    }
}

/// The element name of a tag such as `<a href=..>` or `</CODE>`: the ASCII letters and
/// digits after the opening `<` (and a `/`), lowered.
pub open spec fn tag_name(tag: Seq<char>) -> Seq<char> {
    let inner = strip_trailing(strip_trailing(strip_leading(tag, '<'), '>'), '/');
    let inner = if inner.len() > 0 && inner[0] == '/' {
        inner.drop_first()
    } else {
        inner
    };
    inner.take(ascii_alnum_run(inner) as int).map_values(|c: char| ascii_lower(c))
}

proof fn lemma_strip_leading_skip(s: Seq<char>, c: char, i: int)
    requires
        0 <= i <= s.len(),
        forall|j: int| 0 <= j < i ==> #[trigger] s[j] == c,
    ensures
        strip_leading(s, c) == strip_leading(s.skip(i), c),
    decreases i,
{
    if i > 0 {
        assert(s.drop_first().skip(i - 1) =~= s.skip(i));
        assert forall|j: int| 0 <= j < i - 1 implies #[trigger] s.drop_first()[j] == c by {
            assert(s.drop_first()[j] == s[j + 1]);
        }
        lemma_strip_leading_skip(s.drop_first(), c, i - 1);
    } else {
        assert(s.skip(0) =~= s);
    }
}

proof fn lemma_strip_trailing_take(s: Seq<char>, c: char, e: int)
    requires
        0 <= e <= s.len(),
        forall|j: int| e <= j < s.len() ==> #[trigger] s[j] == c,
    ensures
        strip_trailing(s, c) == strip_trailing(s.take(e), c),
    decreases s.len() - e,
{
    if e < s.len() {
        assert(s.drop_last().take(e) =~= s.take(e));
        lemma_strip_trailing_take(s.drop_last(), c, e);
    } else {
        assert(s.take(e) =~= s);
    }
}

proof fn lemma_ascii_alnum_run(s: Seq<char>, k: int)
    requires
        0 <= k <= s.len(),
        forall|j: int| 0 <= j < k ==> is_ascii_alnum(#[trigger] s[j]),
        k == s.len() || !is_ascii_alnum(s[k]),
    ensures
        ascii_alnum_run(s) == k,
    decreases k,
{
    if k > 0 {
        assert forall|j: int| 0 <= j < k - 1 implies is_ascii_alnum(#[trigger] s.drop_first()[j]) by {
            assert(s.drop_first()[j] == s[j + 1]);
        }
        if k < s.len() {
            assert(s.drop_first()[k - 1] == s[k]);
        }
        lemma_ascii_alnum_run(s.drop_first(), k - 1);
    }
}

/// Index range of `v` that `strip_trailing(.., c)` keeps of `v[start..end]`.
fn strip_trailing_end(v: &Vec<char>, start: usize, end: usize, c: char) -> (e: usize)
    requires
        start <= end <= v.len(),
    ensures
        start <= e <= end,
        strip_trailing(v@.subrange(start as int, end as int), c) == v@.subrange(
            start as int,
            e as int,
        ),
{
    let ghost s = v@.subrange(start as int, end as int);
    let mut e = end;
    while e > start && v[e - 1] == c
        invariant
            start <= e <= end <= v.len(),
            s == v@.subrange(start as int, end as int),
            forall|j: int| e - start <= j < s.len() ==> #[trigger] s[j] == c,
        decreases e,
    {
        e -= 1;
    }
    proof {
        lemma_strip_trailing_take(s, c, e - start);
        assert(s.take(e - start) =~= v@.subrange(start as int, e as int));
    }
    e
}

/// The lowered element name of `tag`, as in `<a href="..">` → `a`.
pub fn parse_tag_name(tag: &str) -> (r: String)
    ensures
        r@ == tag_name(tag@),
{
    let v = chars_of(tag);
    let ghost s = v@;
    let mut start: usize = 0;
    while start < v.len() && v[start] == '<'
        invariant
            start <= v.len(),
            s == v@,
            forall|j: int| 0 <= j < start ==> #[trigger] s[j] == '<',
        decreases v.len() - start,
    {
        start += 1;
    }
    proof {
        lemma_strip_leading_skip(s, '<', start as int);
        assert(s.skip(start as int) =~= s.subrange(start as int, s.len() as int));
    }
    let e1 = strip_trailing_end(&v, start, v.len(), '>');
    let e2 = strip_trailing_end(&v, start, e1, '/');
    let ghost inner = v@.subrange(start as int, e2 as int);
    assert(inner == strip_trailing(strip_trailing(strip_leading(s, '<'), '>'), '/'));
    let mut from = start;
    if e2 > start && v[start] == '/' {
        from = start + 1;
        assert(inner.drop_first() =~= v@.subrange(from as int, e2 as int));
    }
    let ghost d = v@.subrange(from as int, e2 as int);
    let mut out = String::new();
    let mut i = from;
    while i < e2 && ascii_alnum(v[i])
        invariant
            from <= i <= e2 <= v.len(),
            d == v@.subrange(from as int, e2 as int),
            forall|j: int| 0 <= j < i - from ==> is_ascii_alnum(#[trigger] d[j]),
            out@ == d.take(i - from).map_values(|c: char| ascii_lower(c)),
        decreases e2 - i,
    {
        let c = to_ascii_lower(v[i]);
        out.push(c);
        i += 1;
        assert(out@ =~= d.take(i - from).map_values(|c: char| ascii_lower(c)));
    }
    proof {
        lemma_ascii_alnum_run(d, i - from);
    }
    out
}

// ---------------------------------------------------------------------------
// Linking mentions and hashtags
// ---------------------------------------------------------------------------

/// A character that may continue a mention or hashtag, or forbids one right after it.
pub open spec fn is_word_char(c: char) -> bool {
    unicode_alphanumeric(c) || c == '_'
}

/// Index of the `>` that closes the tag opened at `i`, or the last index when there is none.
pub open spec fn tag_close_index(h: Seq<char>, i: int) -> int
    decreases h.len() - i,
{
    if i >= h.len() {
        h.len() - 1
    } else if h[i] == '>' {
        i
    } else {
        tag_close_index(h, i + 1)
    }
}

/// End of the run of word characters that starts at `j`.
pub open spec fn word_end(h: Seq<char>, j: int) -> int
    decreases h.len() - j,
{
    if 0 <= j < h.len() && is_word_char(h[j]) {
        word_end(h, j + 1)
    } else {
        j
    }
}

/// Whether the tag name is one whose content is never linked.
pub open spec fn is_skip_name(name: Seq<char>) -> bool {
    name == "a"@ || name == "code"@ || name == "pre"@
}

/// A tag that begins with `</`.
pub open spec fn is_closing_tag(tag: Seq<char>) -> bool {
    tag.len() >= 2 && tag[0] == '<' && tag[1] == '/'
}

/// A tag that ends with `/>`.
pub open spec fn is_self_closing_tag(tag: Seq<char>) -> bool {
    tag.len() >= 2 && tag[tag.len() - 2] == '/' && tag[tag.len() - 1] == '>'
}

/// Nesting depth of `a`/`code`/`pre` regions after `tag`.
pub open spec fn depth_after(tag: Seq<char>, depth: nat) -> nat {
    if is_skip_name(tag_name(tag)) {
        if is_closing_tag(tag) {
            if depth > 0 {
                (depth - 1) as nat
            } else {
                0
            }
        } else if is_self_closing_tag(tag) {
            depth
        } else {
            depth + 1
        }
    } else {
        depth
    }
}

/// The link written for `@id` (sigil `@`) or `#id` (sigil `#`).
pub open spec fn link_markup(sigil: char, id: Seq<char>) -> Seq<char> {
    let class = if sigil == '@' {
        "mention"@
    } else {
        "hashtag"@
    };
    let path = if sigil == '@' {
        "/u/"@
    } else {
        "/h/"@
    };
    "<a class=\""@ + class + "\" href=\""@ + path + html_escape_spec(id) + "\">"@ + seq![sigil]
        + html_escape_spec(id) + "</a>"@
}

/// Whether a mention or hashtag may begin after `last`, the last character written.
pub open spec fn may_start_token(last: Option<char>) -> bool {
    !(last matches Some(c) && is_word_char(c))
}

pub proof fn lemma_tag_close_bounds(h: Seq<char>, i: int)
    requires
        0 <= i < h.len(),
    ensures
        i <= tag_close_index(h, i) < h.len(),
    decreases h.len() - i,
{
    if h[i] != '>' {
        if i + 1 < h.len() {
            lemma_tag_close_bounds(h, i + 1);
        } else {
            assert(tag_close_index(h, i + 1) == h.len() - 1);
        }
    }
}

pub proof fn lemma_word_end_bounds(h: Seq<char>, j: int)
    requires
        0 <= j <= h.len(),
    ensures
        j <= word_end(h, j) <= h.len(),
    decreases h.len() - j,
{
    if j < h.len() && is_word_char(h[j]) {
        lemma_word_end_bounds(h, j + 1);
    }
}

/// What `auto_link` writes for `h[i..]`, when `depth` link-free regions are open and
/// `last` was the last character written.
pub open spec fn link_from(h: Seq<char>, i: int, depth: nat, last: Option<char>) -> Seq<char>
    decreases h.len() - i,
{
    if i < 0 || i >= h.len() {
        seq![]
    } else {
        let ch = h[i];
        if ch == '<' {
            let k = tag_close_index(h, i);
            proof {
                lemma_tag_close_bounds(h, i);
            }
            let tag = h.subrange(i, k + 1);
            tag + link_from(h, k + 1, depth_after(tag, depth), Some(tag.last()))
        } else if depth > 0 {
            seq![ch] + link_from(h, i + 1, depth, Some(ch))
        } else if (ch == '@' || ch == '#') && may_start_token(last) && word_end(h, i + 1) > i
            + 1 {
            let e = word_end(h, i + 1);
            proof {
                lemma_word_end_bounds(h, i + 1);
            }
            link_markup(ch, h.subrange(i + 1, e)) + link_from(h, e, depth, Some(';'))
        } else {
            seq![ch] + link_from(h, i + 1, depth, Some(ch))
        }
    }
}

/// `html` with every `@name` and `#tag` outside `<a>`, `<code>` and `<pre>` regions
/// turned into a link to `/u/name` or `/h/tag`.
pub open spec fn auto_linked(html: Seq<char>) -> Seq<char> {
    link_from(html, 0, 0, None)
}

proof fn lemma_link_from_plain(h: Seq<char>, i: int, depth: nat, last: Option<char>)
    requires
        0 <= i <= h.len(),
        forall|j: int| 0 <= j < h.len() ==> #[trigger] h[j] != '@' && h[j] != '#',
    ensures
        link_from(h, i, depth, last) == h.subrange(i, h.len() as int),
    decreases h.len() - i,
{
    if i < h.len() {
        if h[i] == '<' {
            let k = tag_close_index(h, i);
            lemma_tag_close_bounds(h, i);
            let tag = h.subrange(i, k + 1);
            lemma_link_from_plain(h, k + 1, depth_after(tag, depth), Some(tag.last()));
            assert(tag + h.subrange(k + 1, h.len() as int) =~= h.subrange(i, h.len() as int));
        } else {
            lemma_link_from_plain(h, i + 1, depth, Some(h[i]));
            assert(seq![h[i]] + h.subrange(i + 1, h.len() as int) =~= h.subrange(
                i,
                h.len() as int,
            ));
        }
    } else {
        assert(h.subrange(i, h.len() as int) =~= Seq::<char>::empty());
    }
}

/// Linking only ever acts at `@` and `#`: HTML without either comes back unchanged.
pub proof fn law_text_without_sigils_is_unchanged(html: Seq<char>)
    requires
        forall|j: int| 0 <= j < html.len() ==> #[trigger] html[j] != '@' && html[j] != '#',
    ensures
        auto_linked(html) == html,
{
    lemma_link_from_plain(html, 0, 0, None);
    assert(html.subrange(0, html.len() as int) =~= html);
}

/// Inside a link-free region (`<a>`, `<code>`, `<pre>`), the text up to the next tag is
/// copied as it is, whatever `@` and `#` it holds.
pub proof fn law_regions_are_copied(h: Seq<char>, i: int, j: int, depth: nat, last: Option<char>)
    requires
        depth > 0,
        0 <= i <= j <= h.len(),
        forall|k: int| i <= k < j ==> #[trigger] h[k] != '<',
    ensures
        link_from(h, i, depth, last) == h.subrange(i, j) + link_from(
            h,
            j,
            depth,
            if j > i {
                Some(h[j - 1])
            } else {
                last
            },
        ),
    decreases j - i,
{
    if i < j {
        law_regions_are_copied(h, i + 1, j, depth, Some(h[i]));
        if i + 1 == j {
            assert(h.subrange(i + 1, j) =~= Seq::<char>::empty());
        }
        assert(seq![h[i]] + h.subrange(i + 1, j) =~= h.subrange(i, j));
        assert(seq![h[i]] + (h.subrange(i + 1, j) + link_from(
            h,
            j,
            depth,
            Some(h[j - 1]),
        )) =~= h.subrange(i, j) + link_from(h, j, depth, Some(h[j - 1])));
    } else {
        assert(h.subrange(i, j) =~= Seq::<char>::empty());
    }
}

/// A closing `</a>`, `</code>` or `</pre>` closes one region only: inside two or more
/// nested link-free regions, the text after an inner closing tag, up to the next tag, is
/// still copied as it is (the outer region stays open, one level less deep).
pub proof fn law_inner_close_keeps_outer_region(
    h: Seq<char>,
    i: int,
    j: int,
    depth: nat,
    last: Option<char>,
)
    requires
        depth >= 2,
        0 <= i < h.len(),
        h[i] == '<',
        is_skip_name(tag_name(h.subrange(i, tag_close_index(h, i) + 1))),
        is_closing_tag(h.subrange(i, tag_close_index(h, i) + 1)),
        tag_close_index(h, i) + 1 <= j <= h.len(),
        forall|q: int| tag_close_index(h, i) + 1 <= q < j ==> #[trigger] h[q] != '<',
    ensures
        link_from(h, i, depth, last) == h.subrange(i, j) + link_from(
            h,
            j,
            (depth - 1) as nat,
            Some(h[j - 1]),
        ),
{
    let k = tag_close_index(h, i);
    lemma_tag_close_bounds(h, i);
    let tag = h.subrange(i, k + 1);
    assert(depth_after(tag, depth) == depth - 1);
    law_regions_are_copied(h, k + 1, j, (depth - 1) as nat, Some(tag.last()));
    assert(tag.last() == h[k]);
    assert(tag + h.subrange(k + 1, j) =~= h.subrange(i, j));
}

/// A `@` or `#` right after a letter, digit or `_` (as in `foo@bar`) starts no link: it
/// is copied as it is.
pub proof fn law_sigil_after_word_is_kept(h: Seq<char>, i: int, c: char)
    requires
        0 <= i < h.len(),
        h[i] == '@' || h[i] == '#',
        is_word_char(c),
    ensures
        link_from(h, i, 0, Some(c)) == seq![h[i]] + link_from(h, i + 1, 0, Some(h[i])),
{
}

/// The characters that tags and the written links are made of (`<`, `>`, `;`, `&`, `"`,
/// `'`) are not alphanumeric; std documents that `char::is_alphanumeric` is false on
/// every ASCII character but letters and digits.
pub open spec fn markup_chars_not_alphanumeric() -> bool {
    &&& !unicode_alphanumeric('<')
    &&& !unicode_alphanumeric('>')
    &&& !unicode_alphanumeric(';')
    &&& !unicode_alphanumeric('&')
    &&& !unicode_alphanumeric('"')
    &&& !unicode_alphanumeric('\'')
}

proof fn lemma_tag_close_facts(h: Seq<char>, i: int)
    requires
        0 <= i < h.len(),
    ensures
        forall|q: int| i <= q < tag_close_index(h, i) ==> #[trigger] h[q] != '>',
        h[tag_close_index(h, i)] == '>' || tag_close_index(h, i) == h.len() - 1,
    decreases h.len() - i,
{
    lemma_tag_close_bounds(h, i);
    if h[i] != '>' {
        if i + 1 < h.len() {
            lemma_tag_close_facts(h, i + 1);
        } else {
            assert(tag_close_index(h, i + 1) == h.len() - 1);
        }
    }
}

proof fn lemma_tag_close_at(w: Seq<char>, p: int, m: int)
    requires
        0 <= p <= m < w.len(),
        forall|q: int| p <= q < m ==> #[trigger] w[q] != '>',
        w[m] == '>' || m == w.len() - 1,
    ensures
        tag_close_index(w, p) == m,
    decreases m - p,
{
    if p < m {
        lemma_tag_close_at(w, p + 1, m);
    } else if w[m] != '>' {
        assert(tag_close_index(w, m + 1) == w.len() - 1);
    }
}

proof fn lemma_word_end_facts(h: Seq<char>, j: int)
    requires
        0 <= j <= h.len(),
    ensures
        forall|q: int| j <= q < word_end(h, j) ==> is_word_char(#[trigger] h[q]),
        word_end(h, j) < h.len() ==> !is_word_char(h[word_end(h, j)]),
    decreases h.len() - j,
{
    lemma_word_end_bounds(h, j);
    if j < h.len() && is_word_char(h[j]) {
        lemma_word_end_facts(h, j + 1);
    }
}

proof fn lemma_link_from_head(h: Seq<char>, j: int, d: nat, l: Option<char>)
    requires
        0 <= j < h.len(),
    ensures
        link_from(h, j, d, l).len() > 0,
        link_from(h, j, d, l)[0] == h[j] || link_from(h, j, d, l)[0] == '<',
{
    reveal_strlit("<a class=\"");
    if h[j] == '<' {
        lemma_tag_close_bounds(h, j);
    } else if d == 0 && (h[j] == '@' || h[j] == '#') && may_start_token(l) && word_end(h, j + 1)
        > j + 1 {
        lemma_word_end_bounds(h, j + 1);
    }
}

proof fn lemma_escape_word(id: Seq<char>)
    requires
        markup_chars_not_alphanumeric(),
        forall|q: int| 0 <= q < id.len() ==> is_word_char(#[trigger] id[q]),
    ensures
        html_escape_spec(id) == id,
    decreases id.len(),
{
    if id.len() > 0 {
        let init = id.drop_last();
        assert forall|q: int| 0 <= q < init.len() implies is_word_char(#[trigger] init[q]) by {
            assert(init[q] == id[q]);
        }
        lemma_escape_word(init);
        assert(is_word_char(id[id.len() - 1]));
        assert(init + seq![id.last()] =~= id);
    }
}

proof fn lemma_tag_name_of_link(tag: Seq<char>)
    requires
        tag.len() >= 4,
        tag[0] == '<',
        tag[1] == 'a',
        tag[2] == ' ',
        tag[tag.len() - 2] == '"',
        tag[tag.len() - 1] == '>',
    ensures
        tag_name(tag) == "a"@,
        depth_after(tag, 0) == 1,
{
    reveal_strlit("a");
    let s1 = tag.drop_first();
    assert(strip_leading(s1, '<') == s1);
    assert(strip_leading(tag, '<') == s1);
    let s2 = s1.drop_last();
    assert(s2.last() == '"');
    assert(strip_trailing(s2, '>') == s2);
    assert(strip_trailing(s1, '>') == s2);
    assert(strip_trailing(s2, '/') == s2);
    assert(s2[0] == 'a');
    let s3 = s2.drop_first();
    assert(s3[0] == ' ');
    assert(ascii_alnum_run(s3) == 0);
    assert(ascii_alnum_run(s2) == 1);
    assert(s2.take(1).map_values(|c: char| ascii_lower(c)) =~= "a"@);
}

proof fn lemma_tag_name_of_close(tag: Seq<char>)
    requires
        tag == "</a>"@,
    ensures
        tag_name(tag) == "a"@,
        depth_after(tag, 1) == 0,
{
    reveal_strlit("a");
    reveal_strlit("</a>");
    let s1 = tag.drop_first();
    assert(s1[0] == '/');
    assert(strip_leading(s1, '<') == s1);
    assert(strip_leading(tag, '<') == s1);
    let s2 = s1.drop_last();
    assert(s2.last() == 'a');
    assert(strip_trailing(s2, '>') == s2);
    assert(strip_trailing(s1, '>') == s2);
    assert(strip_trailing(s2, '/') == s2);
    let s3 = s2.drop_first();
    assert(s3 =~= "a"@);
    assert(ascii_alnum_run(s3.drop_first()) == 0);
    assert(ascii_alnum_run(s3) == 1);
    assert(s3.take(1).map_values(|c: char| ascii_lower(c)) =~= "a"@);
}

proof fn lemma_split_tail(w: Seq<char>, p: int, a: Seq<char>, b: Seq<char>)
    requires
        0 <= p <= w.len(),
        w.subrange(p, w.len() as int) == a + b,
    ensures
        p + a.len() + b.len() == w.len(),
        w.subrange(p, p + a.len()) == a,
        w.subrange(p + a.len(), w.len() as int) == b,
{
    let t = w.subrange(p, w.len() as int);
    assert(t.len() == a.len() + b.len());
    assert forall|x: int| 0 <= x < b.len() implies w.subrange(p + a.len(), w.len() as int)[x]
        == b[x] by {
        assert(w[p + a.len() + x] == t[a.len() + x]);
    }
    assert(w.subrange(p + a.len(), w.len() as int) =~= b);
    assert forall|x: int| 0 <= x < a.len() implies w.subrange(p, p + a.len())[x] == a[x] by {
        assert(w[p + x] == t[x]);
    }
    assert(w.subrange(p, p + a.len()) =~= a);
}

proof fn lemma_sub_of_sub(w: Seq<char>, p: int, s: Seq<char>, x: int, y: int)
    requires
        0 <= p,
        p + s.len() <= w.len(),
        w.subrange(p, p + s.len()) == s,
        0 <= x <= y <= s.len(),
    ensures
        w.subrange(p + x, p + y) == s.subrange(x, y),
{
    assert forall|z: int| 0 <= z < y - x implies w.subrange(p + x, p + y)[z] == s.subrange(x, y)[z] by {
        assert(w[p + x + z] == w.subrange(p, p + s.len())[x + z]);
    }
    assert(w.subrange(p + x, p + y) =~= s.subrange(x, y));
}

/// The opening tag of the link written for `sigil` and a word `id`.
spec fn link_open(sigil: char, id: Seq<char>) -> Seq<char> {
    let class = if sigil == '@' {
        "mention"@
    } else {
        "hashtag"@
    };
    let path = if sigil == '@' {
        "/u/"@
    } else {
        "/h/"@
    };
    "<a class=\""@ + class + "\" href=\""@ + path + id + "\">"@
}

proof fn lemma_link_open_shape(sigil: char, id: Seq<char>)
    requires
        markup_chars_not_alphanumeric(),
        sigil == '@' || sigil == '#',
        forall|q: int| 0 <= q < id.len() ==> is_word_char(#[trigger] id[q]),
    ensures
        link_markup(sigil, id) == link_open(sigil, id) + (seq![sigil] + id) + "</a>"@,
        link_open(sigil, id).len() >= 4,
        link_open(sigil, id)[0] == '<',
        link_open(sigil, id)[1] == 'a',
        link_open(sigil, id)[2] == ' ',
        link_open(sigil, id)[link_open(sigil, id).len() - 2] == '"',
        link_open(sigil, id)[link_open(sigil, id).len() - 1] == '>',
        forall|x: int|
            0 <= x < link_open(sigil, id).len() - 1 ==> #[trigger] link_open(sigil, id)[x] != '>',
{
    reveal_strlit("<a class=\"");
    reveal_strlit("mention");
    reveal_strlit("hashtag");
    reveal_strlit("\" href=\"");
    reveal_strlit("/u/");
    reveal_strlit("/h/");
    reveal_strlit("\">");
    lemma_escape_word(id);
    let class = if sigil == '@' {
        "mention"@
    } else {
        "hashtag"@
    };
    let path = if sigil == '@' {
        "/u/"@
    } else {
        "/h/"@
    };
    let a1 = "<a class=\""@ + class;
    let a2 = a1 + "\" href=\""@;
    let a3 = a2 + path;
    let a4 = a3 + id;
    let open = a4 + "\">"@;
    assert(open == link_open(sigil, id));
    assert(link_markup(sigil, id) =~= open + (seq![sigil] + id) + "</a>"@);
    assert(a1.len() == 17);
    assert(a2.len() == 25);
    assert(a3.len() == 28);
    assert forall|x: int| 0 <= x < open.len() - 1 implies #[trigger] open[x] != '>' by {
        if x < 10 {
            assert(open[x] == "<a class=\""@[x]);
        } else if x < 17 {
            assert(open[x] == class[x - 10]);
        } else if x < 25 {
            assert(open[x] == "\" href=\""@[x - 17]);
        } else if x < 28 {
            assert(open[x] == path[x - 25]);
        } else if x < a4.len() {
            assert(open[x] == id[x - 28]);
            assert(is_word_char(id[x - 28]));
        } else {
            assert(open[x] == '"');
        }
    }
}

/// A tag that stands at `p` of `w` (a `<`, no `>` before its last character, a `>` at
/// the end) is copied, and the pass goes on after it.
proof fn lemma_link_from_tag(w: Seq<char>, p: int, tag: Seq<char>, d: nat, l: Option<char>)
    requires
        0 <= p,
        p + tag.len() <= w.len(),
        tag.len() >= 1,
        w.subrange(p, p + tag.len()) == tag,
        tag[0] == '<',
        tag[tag.len() - 1] == '>',
        forall|x: int| 0 <= x < tag.len() - 1 ==> #[trigger] tag[x] != '>',
    ensures
        link_from(w, p, d, l) == tag + link_from(w, p + tag.len(), depth_after(tag, d), Some('>')),
{
    let m = p + tag.len() - 1;
    assert forall|q: int| p <= q < m implies #[trigger] w[q] != '>' by {
        assert(w[q] == w.subrange(p, p + tag.len())[q - p]);
    }
    assert(w[m] == w.subrange(p, p + tag.len())[tag.len() - 1]);
    assert(w[p] == w.subrange(p, p + tag.len())[0]);
    lemma_tag_close_at(w, p, m);
    assert(w.subrange(p, m + 1) =~= tag);
}

/// The link written for `sigil` and `id`, standing at `p` of `w` as `open`, `body` and
/// `close`, is copied by a second pass, which leaves it at depth 0.
proof fn lemma_relink_parts(
    w: Seq<char>,
    p: int,
    open: Seq<char>,
    body: Seq<char>,
    l2: Option<char>,
)
    requires
        0 <= p,
        p + open.len() + body.len() + 4 <= w.len(),
        w.subrange(p, p + open.len() + body.len() + 4) == open + body + "</a>"@,
        open.len() >= 4,
        open[0] == '<',
        open[1] == 'a',
        open[2] == ' ',
        open[open.len() - 2] == '"',
        open[open.len() - 1] == '>',
        forall|x: int| 0 <= x < open.len() - 1 ==> #[trigger] open[x] != '>',
        forall|x: int| 0 <= x < body.len() ==> #[trigger] body[x] != '<',
    ensures
        link_from(w, p, 0, l2) == open + body + "</a>"@ + link_from(
            w,
            p + open.len() + body.len() + 4,
            0,
            Some('>'),
        ),
{
    reveal_strlit("</a>");
    let close = "</a>"@;
    let all = open + body + close;
    let n = all.len() as int;
    lemma_sub_of_sub(w, p, all, 0, open.len() as int);
    assert(all.subrange(0, open.len() as int) =~= open);
    lemma_tag_name_of_link(open);
    lemma_link_from_tag(w, p, open, 0, l2);
    let q0 = p + open.len();
    let q1 = q0 + body.len();
    lemma_sub_of_sub(w, p, all, open.len() as int, (open.len() + body.len()) as int);
    assert(all.subrange(open.len() as int, (open.len() + body.len()) as int) =~= body);
    assert forall|q: int| q0 <= q < q1 implies #[trigger] w[q] != '<' by {
        assert(w[q] == w.subrange(q0, q1)[q - q0]);
    }
    law_regions_are_copied(w, q0, q1, 1, Some('>'));
    lemma_sub_of_sub(w, p, all, (open.len() + body.len()) as int, n);
    assert(all.subrange((open.len() + body.len()) as int, n) =~= close);
    lemma_tag_name_of_close(close);
    let lq = if q1 > q0 {
        Some(w[q1 - 1])
    } else {
        Some('>')
    };
    lemma_link_from_tag(w, q1, close, 1, lq);
    assert(w.subrange(q0, q1) =~= body);
}

/// A link that `auto_link` wrote is copied by a second pass, which leaves it at depth 0
/// with `>` as the last character.
proof fn lemma_relink_markup(w: Seq<char>, p: int, sigil: char, id: Seq<char>, l2: Option<char>)
    requires
        markup_chars_not_alphanumeric(),
        sigil == '@' || sigil == '#',
        forall|q: int| 0 <= q < id.len() ==> is_word_char(#[trigger] id[q]),
        0 <= p,
        p + link_markup(sigil, id).len() <= w.len(),
        w.subrange(p, p + link_markup(sigil, id).len()) == link_markup(sigil, id),
    ensures
        link_from(w, p, 0, l2) == link_markup(sigil, id) + link_from(
            w,
            p + link_markup(sigil, id).len(),
            0,
            Some('>'),
        ),
{
    reveal_strlit("</a>");
    lemma_link_open_shape(sigil, id);
    let open = link_open(sigil, id);
    let body = seq![sigil] + id;
    assert forall|x: int| 0 <= x < body.len() implies #[trigger] body[x] != '<' by {
        if x > 0 {
            assert(body[x] == id[x - 1]);
            assert(is_word_char(id[x - 1]));
        }
    }
    lemma_relink_parts(w, p, open, body, l2);
}

/// A second pass over what `auto_link` wrote, at matching positions, writes it again.
proof fn lemma_relink(
    h: Seq<char>,
    i: int,
    d: nat,
    l: Option<char>,
    w: Seq<char>,
    p: int,
    l2: Option<char>,
)
    requires
        markup_chars_not_alphanumeric(),
        0 <= i <= h.len(),
        0 <= p <= w.len(),
        w.subrange(p, w.len() as int) == link_from(h, i, d, l),
        may_start_token(l2) == may_start_token(l),
    ensures
        link_from(w, p, d, l2) == link_from(h, i, d, l),
    decreases h.len() - i,
{
    let r = link_from(h, i, d, l);
    let tail = w.subrange(p, w.len() as int);
    if i >= h.len() {
        assert(tail.len() == 0);
    } else {
        let ch = h[i];
        if ch == '<' {
            let k = tag_close_index(h, i);
            lemma_tag_close_facts(h, i);
            lemma_tag_close_bounds(h, i);
            let tag = h.subrange(i, k + 1);
            let nd = depth_after(tag, d);
            let rest = link_from(h, k + 1, nd, Some(tag.last()));
            assert(r == tag + rest);
            let m = p + tag.len() - 1;
            assert forall|q: int| p <= q < m implies #[trigger] w[q] != '>' by {
                assert(w[q] == tail[q - p]);
                assert(r[q - p] == tag[q - p]);
                assert(tag[q - p] == h[i + (q - p)]);
            }
            if k + 1 == h.len() {
                assert(rest.len() == 0);
            }
            assert(w[m] == tail[m - p]);
            assert(tag[m - p] == h[k]);
            lemma_split_tail(w, p, tag, rest);
            lemma_tag_close_at(w, p, m);
            lemma_relink(h, k + 1, nd, Some(tag.last()), w, m + 1, Some(tag.last()));
            assert(w[p] == '<');
        } else if d > 0 {
            let rest = link_from(h, i + 1, d, Some(ch));
            assert(r == seq![ch] + rest);
            lemma_split_tail(w, p, seq![ch], rest);
            assert(w[p] == tail[0]);
            lemma_relink(h, i + 1, d, Some(ch), w, p + 1, Some(ch));
        } else if (ch == '@' || ch == '#') && may_start_token(l) && word_end(h, i + 1) > i + 1 {
            let e = word_end(h, i + 1);
            lemma_word_end_bounds(h, i + 1);
            lemma_word_end_facts(h, i + 1);
            let id = h.subrange(i + 1, e);
            assert forall|q: int| 0 <= q < id.len() implies is_word_char(#[trigger] id[q]) by {
                assert(id[q] == h[i + 1 + q]);
            }
            let mk = link_markup(ch, id);
            let rest = link_from(h, e, 0, Some(';'));
            assert(r == mk + rest);
            lemma_split_tail(w, p, mk, rest);
            lemma_relink_markup(w, p, ch, id, l2);
            lemma_relink(h, e, 0, Some(';'), w, p + mk.len(), Some('>'));
        } else {
            let rest = link_from(h, i + 1, d, Some(ch));
            assert(r == seq![ch] + rest);
            lemma_split_tail(w, p, seq![ch], rest);
            assert(w[p] == tail[0]);
            if ch == '@' || ch == '#' {
                if may_start_token(l) {
                    lemma_word_end_bounds(h, i + 1);
                    lemma_word_end_facts(h, i + 1);
                    if i + 1 < h.len() {
                        lemma_link_from_head(h, i + 1, d, Some(ch));
                        assert(w[p + 1] == rest[0]);
                        assert(!is_word_char(h[i + 1]));
                        assert(!is_word_char(w[p + 1]));
                    } else {
                        assert(rest.len() == 0);
                    }
                    assert(word_end(w, p + 1) == p + 1);
                }
            }
            lemma_relink(h, i + 1, d, Some(ch), w, p + 1, Some(ch));
        }
    }
}

/// Linking is idempotent: links already written sit inside `<a>` and are never wrapped
/// again, so linking the result once more changes nothing.
pub proof fn law_auto_link_is_idempotent(html: Seq<char>)
    requires
        markup_chars_not_alphanumeric(),
    ensures
        auto_linked(auto_linked(html)) == auto_linked(html),
{
    let w = auto_linked(html);
    assert(w.subrange(0, w.len() as int) =~= w);
    lemma_relink(html, 0, 0, None, w, 0, None);
}

/// Copies the tag that opens at `h[idx] == '<'` to `out`; returns the index just past it
/// and the region depth after it.
fn copy_tag(out: &mut String, h: &Vec<char>, idx: usize, depth: usize) -> (r: (usize, usize))
    requires
        idx < h.len(),
        h@[idx as int] == '<',
        depth <= idx,
    ensures
        ({
            let k = tag_close_index(h@, idx as int);
            let tag = h@.subrange(idx as int, k + 1);
            &&& r.0 == k + 1
            &&& idx < r.0 <= h.len()
            &&& r.1 as nat == depth_after(tag, depth as nat)
            &&& r.1 <= r.0
            &&& final(out)@ == old(out)@ + tag
        }),
{
    let len = h.len();
    let mut k = idx;
    while k < len && h[k] != '>'
        invariant
            idx <= k <= len,
            len == h.len(),
            tag_close_index(h@, idx as int) == tag_close_index(h@, k as int),
        decreases len - k,
    {
        k += 1;
    }
    let close = if k < len {
        k
    } else {
        len - 1
    };
    proof {
        lemma_tag_close_bounds(h@, idx as int);
    }
    assert(close == tag_close_index(h@, idx as int));
    let ghost tag = h@.subrange(idx as int, close + 1);
    let mut tag_text = String::new();
    push_range(&mut tag_text, h, idx, close + 1);
    let name = parse_tag_name(tag_text.as_str());
    let is_close = close >= idx + 1 && h[idx + 1] == '/';
    let is_self_close = close >= idx + 1 && h[close - 1] == '/' && h[close] == '>';
    assert(is_close == is_closing_tag(tag));
    assert(is_self_close == is_self_closing_tag(tag));
    let skip = str_eq(name.as_str(), "a") || str_eq(name.as_str(), "code") || str_eq(
        name.as_str(),
        "pre",
    );
    let mut d = depth;
    if skip {
        if is_close {
            if d > 0 {
                d -= 1;
            }
        } else if !is_self_close {
            d += 1;
        }
    }
    push_range(out, h, idx, close + 1);
    (close + 1, d)
}

/// Writes the link for the token `sigil` + `h[start..end]`.
fn write_link(out: &mut String, h: &Vec<char>, sigil: char, start: usize, end: usize)
    requires
        start <= end <= h.len(),
    ensures
        final(out)@ == old(out)@ + link_markup(sigil, h@.subrange(start as int, end as int)),
{
    let ghost before = out@;
    if sigil == '@' {
        out.append("<a class=\"");
        out.append("mention");
        out.append("\" href=\"");
        out.append("/u/");
    } else {
        out.append("<a class=\"");
        out.append("hashtag");
        out.append("\" href=\"");
        out.append("/h/");
    }
    push_escaped(out, h, start, end);
    out.append("\">");
    out.push(sigil);
    push_escaped(out, h, start, end);
    out.append("</a>");
    assert(out@ =~= before + link_markup(sigil, h@.subrange(start as int, end as int)));
}

/// End of the run of word characters of `h` from `start`.
fn scan_word(h: &Vec<char>, start: usize) -> (e: usize)
    requires
        start <= h.len(),
    ensures
        e == word_end(h@, start as int),
        start <= e <= h.len(),
{
    let len = h.len();
    let mut e = start;
    while e < len && (h[e].is_alphanumeric() || h[e] == '_')
        invariant
            start <= e <= len,
            len == h.len(),
            word_end(h@, start as int) == word_end(h@, e as int),
        decreases len - e,
    {
        e += 1;
    }
    e
}

/// Walks rendered HTML and wraps `@user` / `#tag` tokens in `<a>` links,
/// skipping any text inside `<a>`, `<code>`, or `<pre>` regions.
pub fn auto_link(html: &str) -> (r: String)
    ensures
        r@ == auto_linked(html@),
{
    let h = chars_of(html);
    let len = h.len();
    let mut out = String::new();
    let mut depth: usize = 0;
    let mut last: Option<char> = None;
    let mut idx: usize = 0;
    while idx < len
        invariant
            len == h.len(),
            h@ == html@,
            idx <= len,
            depth <= idx,
            out@ + link_from(h@, idx as int, depth as nat, last) == auto_linked(html@),
        decreases len - idx,
    {
        let ghost before = out@;
        let ghost (i0, d0, l0) = (idx as int, depth as nat, last);
        let ch = h[idx];
        if ch == '<' {
            let (next, d) = copy_tag(&mut out, &h, idx, depth);
            last = Some(h[next - 1]);
            idx = next;
            depth = d;
            assert(before + link_from(h@, i0, d0, l0) == out@ + link_from(
                h@,
                idx as int,
                depth as nat,
                last,
            ));
        } else if depth > 0 {
            out.push(ch);
            last = Some(ch);
            idx += 1;
            assert(before + link_from(h@, i0, d0, l0) == out@ + link_from(
                h@,
                idx as int,
                depth as nat,
                last,
            ));
        } else {
            let may_start = match last {
                Some(c) => !(c.is_alphanumeric() || c == '_'),
                None => true,
            };
            let id_end = if (ch == '@' || ch == '#') && may_start {
                scan_word(&h, idx + 1)
            } else {
                idx + 1
            };
            if (ch == '@' || ch == '#') && may_start && id_end > idx + 1 {
                write_link(&mut out, &h, ch, idx + 1, id_end);
                last = Some(';');
                idx = id_end;
            } else {
                out.push(ch);
                last = Some(ch);
                idx += 1;
            }
            assert(before + link_from(h@, i0, d0, l0) == out@ + link_from(
                h@,
                idx as int,
                depth as nat,
                last,
            ));
        }
    }
    out
}

/// Renders a status body: Markdown to HTML, then mentions and hashtags linked.
pub fn render_status_html(content_md: &str) -> (r: String)
    ensures
        r@ == auto_linked(markdown_html(content_md@)),
{
    let rendered = render(content_md);
    auto_link(rendered.as_str())
}

// ---------------------------------------------------------------------------
// Composing
// ---------------------------------------------------------------------------

/// What a user composes: the Markdown body, what it replies to or reposts, and
/// the uploads to attach.
#[derive(Debug, Clone)]
pub struct ComposeInput<'a> {
    pub user_id: i64,
    pub content_md: &'a str,
    pub parent_id: Option<i64>,
    pub repost_of_id: Option<i64>,
    pub asset_ids: &'a [i64],
}

/// The longest status body, in UTF-8 bytes (8 KiB).
pub const MAX_STATUS_BYTES: usize = 8192;

/// A composed status is refused as empty: its body trims to nothing and it reposts nothing.
pub open spec fn compose_is_empty(input: ComposeInput) -> bool {
    trim(input.content_md@).len() == 0 && input.repost_of_id is None
}

/// A composed status is refused as too long: its trimmed body exceeds 8 KiB.
pub open spec fn compose_is_too_long(input: ComposeInput) -> bool {
    byte_len(trim(input.content_md@)) > MAX_STATUS_BYTES
}

/// What is stored of a composed status: the trimmed body and the HTML rendered
/// from it. A body that trims to nothing is refused unless the status is a
/// repost; a body over 8 KiB is refused.
pub fn prepare_status<'a>(input: &ComposeInput<'a>) -> (r: Result<(&'a str, String), AppError>)
    ensures
        r is Ok <==> !compose_is_empty(*input) && !compose_is_too_long(*input),
        compose_is_empty(*input) ==> is_bad_request(r, "Status body cannot be empty."@),
        !compose_is_empty(*input) && compose_is_too_long(*input) ==> is_bad_request(
            r,
            "Status is too long (max 8 KiB)."@,
        ),
        r matches Ok((body, html)) ==> body@ == trim(input.content_md@) && html@ == auto_linked(
            markdown_html(body@),
        ),
{
    let body = trimmed(input.content_md);
    if body.is_empty() && input.repost_of_id.is_none() {
        return Err(AppError::BadRequest(String::from_str("Status body cannot be empty.")));
    }
    if body.len() > MAX_STATUS_BYTES {
        return Err(AppError::BadRequest(String::from_str("Status is too long (max 8 KiB).")));
    }
    let html = render_status_html(body);
    Ok((body, html))
}

// ---------------------------------------------------------------------------
// Assembling what a page shows of each status
// ---------------------------------------------------------------------------

/// What the database returned for a page of statuses: the reposted originals, the
/// authors, the attachments by status id (in display order), and the ids among the
/// page's statuses that the viewer has liked or reposted.
#[derive(Debug)]
pub struct StatusLookups {
    pub originals: Vec<Status>,
    pub users: Vec<User>,
    pub assets: Vec<(i64, Asset)>,
    pub liked_ids: Vec<i64>,
    pub reposted_ids: Vec<i64>,
}

/// Users by id; of two rows with one id the later wins.
pub open spec fn users_by_id(users: Seq<User>) -> Map<i64, User>
    decreases users.len(),
{
    if users.len() == 0 {
        Map::empty()
    } else {
        users_by_id(users.drop_last()).insert(users.last().id, users.last())
    }
}

/// Statuses by id; of two rows with one id the later wins.
pub open spec fn statuses_by_id(statuses: Seq<Status>) -> Map<i64, Status>
    decreases statuses.len(),
{
    if statuses.len() == 0 {
        Map::empty()
    } else {
        statuses_by_id(statuses.drop_last()).insert(statuses.last().id, statuses.last())
    }
}

/// The attachments of status `id`, in the order of `pairs`.
pub open spec fn assets_of(pairs: Seq<(i64, Asset)>, id: i64) -> Seq<Asset>
    decreases pairs.len(),
{
    if pairs.len() == 0 {
        Seq::empty()
    } else {
        let before = assets_of(pairs.drop_last(), id);
        if pairs.last().0 == id {
            before.push(pairs.last().1)
        } else {
            before
        }
    }
}

/// The author of `s` was found.
pub open spec fn has_author(s: Status, lk: StatusLookups) -> bool {
    users_by_id(lk.users@).contains_key(s.user_id)
}

/// `v` shows `s` with its author, its attachments, and what the viewer did to it.
pub open spec fn shows_status(v: StatusView, s: Status, lk: StatusLookups) -> bool {
    &&& v.status == s
    &&& has_author(s, lk)
    &&& v.author == users_by_id(lk.users@)[s.user_id]
    &&& v.assets@ == assets_of(lk.assets@, s.id)
    &&& v.viewer_liked == lk.liked_ids@.contains(s.id)
    &&& v.viewer_reposted == lk.reposted_ids@.contains(s.id)
}

/// The original of a repost of `original_id` can be shown: it and its author were found.
pub open spec fn original_found(original_id: i64, lk: StatusLookups) -> bool {
    statuses_by_id(lk.originals@).contains_key(original_id) && has_author(
        statuses_by_id(lk.originals@)[original_id],
        lk,
    )
}

/// `o` is what a page shows of the original of `s`: for a repost whose original can be
/// shown, that original (with no original of its own); else nothing.
pub open spec fn shows_original(o: Option<Box<StatusView>>, s: Status, lk: StatusLookups) -> bool {
    match s.repost_of_id {
        Some(oid) => if original_found(oid, lk) {
            o matches Some(b) && shows_status(*b, statuses_by_id(lk.originals@)[oid], lk)
                && b.original is None
        } else {
            o is None
        },
        None => o is None,
    }
}

/// The statuses of a page that are shown: those whose author was found, in order.
pub open spec fn shown_statuses(statuses: Seq<Status>, lk: StatusLookups) -> Seq<Status>
    decreases statuses.len(),
{
    if statuses.len() == 0 {
        Seq::empty()
    } else {
        let before = shown_statuses(statuses.drop_last(), lk);
        if has_author(statuses.last(), lk) {
            before.push(statuses.last())
        } else {
            before
        }
    }
}

proof fn lemma_statuses_by_id_key(statuses: Seq<Status>, id: i64)
    requires
        statuses_by_id(statuses).contains_key(id),
    ensures
        statuses_by_id(statuses)[id].id == id,
    decreases statuses.len(),
{
    if statuses.len() > 0 && statuses.last().id != id {
        lemma_statuses_by_id_key(statuses.drop_last(), id);
    }
}

fn users_map(users: &Vec<User>) -> (m: HashMap<i64, User>)
    ensures
        m@ == users_by_id(users@),
{
    let mut m: HashMap<i64, User> = HashMap::new();
    let mut i: usize = 0;
    while i < users.len()
        invariant
            i <= users.len(),
            m@ == users_by_id(users@.take(i as int)),
        decreases users.len() - i,
    {
        let u = users[i].clone();
        m.insert(u.id, u);
        assert(users@.take(i + 1).drop_last() =~= users@.take(i as int));
        i += 1;
    }
    assert(users@.take(users.len() as int) =~= users@);
    m
}

fn statuses_map(statuses: &Vec<Status>) -> (m: HashMap<i64, Status>)
    ensures
        m@ == statuses_by_id(statuses@),
{
    let mut m: HashMap<i64, Status> = HashMap::new();
    let mut i: usize = 0;
    while i < statuses.len()
        invariant
            i <= statuses.len(),
            m@ == statuses_by_id(statuses@.take(i as int)),
        decreases statuses.len() - i,
    {
        let st = statuses[i].clone();
        m.insert(st.id, st);
        assert(statuses@.take(i + 1).drop_last() =~= statuses@.take(i as int));
        i += 1;
    }
    assert(statuses@.take(statuses.len() as int) =~= statuses@);
    m
}

fn assets_map(pairs: &Vec<(i64, Asset)>) -> (m: HashMap<i64, Vec<Asset>>)
    ensures
        forall|k: i64|
            #![trigger m@.contains_key(k)]
            #![trigger assets_of(pairs@, k)]
            (m@.contains_key(k) ==> m@[k]@ == assets_of(pairs@, k)) && (!m@.contains_key(k)
                ==> assets_of(pairs@, k) == Seq::<Asset>::empty()),
{
    let mut m: HashMap<i64, Vec<Asset>> = HashMap::new();
    let mut i: usize = 0;
    while i < pairs.len()
        invariant
            i <= pairs.len(),
            forall|k: i64|
                #![trigger m@.contains_key(k)]
                #![trigger assets_of(pairs@.take(i as int), k)]
                (m@.contains_key(k) ==> m@[k]@ == assets_of(pairs@.take(i as int), k)) && (
                !m@.contains_key(k) ==> assets_of(pairs@.take(i as int), k) == Seq::<
                    Asset,
                >::empty()),
        decreases pairs.len() - i,
    {
        let sid = pairs[i].0;
        let asset = pairs[i].1.clone();
        let ghost before = m@;
        let mut list = match m.remove(&sid) {
            Some(l) => l,
            None => Vec::new(),
        };
        assert(list@ == assets_of(pairs@.take(i as int), sid));
        list.push(asset);
        m.insert(sid, list);
        proof {
            let next = pairs@.take(i + 1);
            assert(next.drop_last() =~= pairs@.take(i as int));
            assert(next.last() == pairs@[i as int]);
            assert forall|k: i64|
                #![trigger m@.contains_key(k)]
                #![trigger assets_of(next, k)]
                (m@.contains_key(k) ==> m@[k]@ == assets_of(next, k)) && (!m@.contains_key(k)
                    ==> assets_of(next, k) == Seq::<Asset>::empty()) by {
                if k != sid {
                    assert(m@.contains_key(k) == before.contains_key(k));
                    assert(assets_of(pairs@.take(i as int), k) == assets_of(pairs@.take(i as int), k));
                }
            }
        }
        i += 1;
    }
    assert(pairs@.take(pairs.len() as int) =~= pairs@);
    m
}

fn id_set(ids: &Vec<i64>) -> (s: HashSet<i64>)
    ensures
        forall|x: i64| #[trigger] s@.contains(x) <==> ids@.contains(x),
{
    let mut s: HashSet<i64> = HashSet::new();
    let mut i: usize = 0;
    while i < ids.len()
        invariant
            i <= ids.len(),
            forall|x: i64| #[trigger] s@.contains(x) <==> ids@.take(i as int).contains(x),
        decreases ids.len() - i,
    {
        s.insert(ids[i]);
        proof {
            assert forall|x: i64| #[trigger]
                s@.contains(x) <==> ids@.take(i + 1).contains(x) by {
                if ids@.take(i as int).contains(x) {
                    let j = choose|j: int| 0 <= j < i && #[trigger] ids@.take(i as int)[j] == x;
                    assert(ids@.take(i + 1)[j] == x);
                }
                if ids@.take(i + 1).contains(x) {
                    let j = choose|j: int| 0 <= j < i + 1 && #[trigger] ids@.take(i + 1)[j] == x;
                    if j < i {
                        assert(ids@.take(i as int)[j] == x);
                    }
                }
                assert(ids@.take(i + 1)[i as int] == ids@[i as int]);
            }
        }
        i += 1;
    }
    assert(ids@.take(ids.len() as int) =~= ids@);
    s
}

fn assets_for(assets_by_status: &HashMap<i64, Vec<Asset>>, id: i64) -> (r: Vec<Asset>)
    ensures
        assets_by_status@.contains_key(id) ==> r@ == assets_by_status@[id]@,
        !assets_by_status@.contains_key(id) ==> r@ == Seq::<Asset>::empty(),
{
    match assets_by_status.get(&id) {
        Some(list) => {
            let copy = list.clone();
            assert(copy@ =~= list@);
            copy
        },
        None => Vec::new(),
    }
}

fn build_original_view(
    original_id: i64,
    originals_by_id: &HashMap<i64, Status>,
    users_by_id: &HashMap<i64, User>,
    assets_by_status: &HashMap<i64, Vec<Asset>>,
    liked_ids: &HashSet<i64>,
    reposted_targets: &HashSet<i64>,
) -> (r: Option<Box<StatusView>>)
    ensures
        (originals_by_id@.contains_key(original_id) && users_by_id@.contains_key(
            originals_by_id@[original_id].user_id,
        )) ==> (r matches Some(b) && {
            let original = originals_by_id@[original_id];
            &&& b.status == original
            &&& b.author == users_by_id@[original.user_id]
            &&& (assets_by_status@.contains_key(original_id) ==> b.assets@
                == assets_by_status@[original_id]@)
            &&& (!assets_by_status@.contains_key(original_id) ==> b.assets@ == Seq::<
                Asset,
            >::empty())
            &&& b.viewer_liked == liked_ids@.contains(original_id)
            &&& b.viewer_reposted == reposted_targets@.contains(original_id)
            &&& b.original is None
        }),
        !(originals_by_id@.contains_key(original_id) && users_by_id@.contains_key(
            originals_by_id@[original_id].user_id,
        )) ==> r is None,
{
    let original = match originals_by_id.get(&original_id) {
        Some(o) => o.clone(),
        None => return None,
    };
    let author = match users_by_id.get(&original.user_id) {
        Some(u) => u.clone(),
        None => return None,
    };
    let assets = assets_for(assets_by_status, original_id);
    Some(
        Box::new(
            StatusView {
                author,
                viewer_liked: liked_ids.contains(&original_id),
                viewer_reposted: reposted_targets.contains(&original_id),
                assets,
                status: original,
                original: None,
            },
        ),
    )
}

/// Turns a page of statuses and what the database returned for them into what the
/// page shows: each status whose author was found, in order, with its author, its
/// attachments, what the viewer did to it, and for a repost the original (when it and
/// its author were found).
pub fn assemble_from_lookups(statuses: Vec<Status>, lookups: &StatusLookups) -> (r: Vec<StatusView>)
    ensures
        r@.len() == shown_statuses(statuses@, *lookups).len(),
        forall|i: int|
            0 <= i < r@.len() ==> {
                let s = #[trigger] shown_statuses(statuses@, *lookups)[i];
                &&& shows_status(r@[i], s, *lookups)
                &&& shows_original(r@[i].original, s, *lookups)
            },
{
    let lk = lookups;
    let users = users_map(&lk.users);
    let originals = statuses_map(&lk.originals);
    let assets = assets_map(&lk.assets);
    let liked = id_set(&lk.liked_ids);
    let reposted = id_set(&lk.reposted_ids);
    let mut views: Vec<StatusView> = Vec::new();
    let mut i: usize = 0;
    while i < statuses.len()
        invariant
            i <= statuses.len(),
            users@ == users_by_id(lk.users@),
            originals@ == statuses_by_id(lk.originals@),
            forall|k: i64|
                #![trigger assets@.contains_key(k)]
                #![trigger assets_of(lk.assets@, k)]
                (assets@.contains_key(k) ==> assets@[k]@ == assets_of(lk.assets@, k)) && (
                !assets@.contains_key(k) ==> assets_of(lk.assets@, k) == Seq::<Asset>::empty()),
            forall|x: i64| #[trigger] liked@.contains(x) <==> lk.liked_ids@.contains(x),
            forall|x: i64| #[trigger] reposted@.contains(x) <==> lk.reposted_ids@.contains(x),
            views@.len() == shown_statuses(statuses@.take(i as int), *lk).len(),
            forall|j: int|
                0 <= j < views@.len() ==> {
                    let s = #[trigger] shown_statuses(statuses@.take(i as int), *lk)[j];
                    &&& shows_status(views@[j], s, *lk)
                    &&& shows_original(views@[j].original, s, *lk)
                },
        decreases statuses.len() - i,
    {
        let status = statuses[i].clone();
        let ghost prefix = statuses@.take(i as int);
        let ghost next = statuses@.take(i + 1);
        proof {
            assert(next.drop_last() =~= prefix);
            assert(next.last() == status);
        }
        let original_view = match status.repost_of_id {
            Some(original_id) => build_original_view(
                original_id,
                &originals,
                &users,
                &assets,
                &liked,
                &reposted,
            ),
            None => None,
        };
        proof {
            if let Some(oid) = status.repost_of_id {
                if original_found(oid, *lk) {
                    lemma_statuses_by_id_key(lk.originals@, oid);
                    assert(assets@.contains_key(oid) || !assets@.contains_key(oid));
                }
            }
        }
        let author = match users.get(&status.user_id) {
            Some(u) => u.clone(),
            None => {
                i += 1;
                continue;
            },
        };
        let status_id = status.id;
        let status_assets = assets_for(&assets, status_id);
        let view = StatusView {
            author,
            viewer_liked: liked.contains(&status_id),
            viewer_reposted: reposted.contains(&status_id),
            assets: status_assets,
            status,
            original: original_view,
        };
        assert(shows_status(view, next.last(), *lk));
        assert(shows_original(view.original, next.last(), *lk));
        views.push(view);
        i += 1;
    }
    assert(statuses@.take(statuses.len() as int) =~= statuses@);
    views
}

/// The ids of `statuses`, in order.
pub open spec fn ids_of(statuses: Seq<Status>) -> Seq<i64> {
    statuses.map_values(|st: Status| st.id)
}

/// The ids that the reposts among `statuses` repost, in order.
pub open spec fn repost_targets_of(statuses: Seq<Status>) -> Seq<i64>
    decreases statuses.len(),
{
    if statuses.len() == 0 {
        Seq::empty()
    } else {
        let before = repost_targets_of(statuses.drop_last());
        match statuses.last().repost_of_id {
            Some(oid) => before.push(oid),
            None => before,
        }
    }
}

/// The reposted originals that a page of statuses needs loaded, in order.
pub fn repost_target_ids(statuses: &Vec<Status>) -> (r: Vec<i64>)
    ensures
        r@ == repost_targets_of(statuses@),
{
    let mut out: Vec<i64> = Vec::new();
    let mut i: usize = 0;
    while i < statuses.len()
        invariant
            i <= statuses.len(),
            out@ == repost_targets_of(statuses@.take(i as int)),
        decreases statuses.len() - i,
    {
        assert(statuses@.take(i + 1).drop_last() =~= statuses@.take(i as int));
        if let Some(oid) = statuses[i].repost_of_id {
            out.push(oid);
        }
        i += 1;
    }
    assert(statuses@.take(statuses.len() as int) =~= statuses@);
    out
}

/// The ids whose attachments, likes and reposts a page needs: the page's statuses,
/// then the reposted originals.
pub fn lookup_status_ids(statuses: &Vec<Status>, originals: &Vec<Status>) -> (r: Vec<i64>)
    ensures
        r@ == ids_of(statuses@) + ids_of(originals@),
{
    let mut out: Vec<i64> = Vec::new();
    let mut i: usize = 0;
    while i < statuses.len()
        invariant
            i <= statuses.len(),
            out@ == ids_of(statuses@.take(i as int)),
        decreases statuses.len() - i,
    {
        out.push(statuses[i].id);
        i += 1;
        assert(out@ =~= ids_of(statuses@.take(i as int)));
    }
    assert(statuses@.take(statuses.len() as int) =~= statuses@);
    let mut j: usize = 0;
    while j < originals.len()
        invariant
            j <= originals.len(),
            out@ == ids_of(statuses@) + ids_of(originals@.take(j as int)),
        decreases originals.len() - j,
    {
        out.push(originals[j].id);
        j += 1;
        assert(out@ =~= ids_of(statuses@) + ids_of(originals@.take(j as int)));
    }
    assert(originals@.take(originals.len() as int) =~= originals@);
    out
}

/// Some status of `statuses` is by user `id`.
pub open spec fn authored_by_any(statuses: Seq<Status>, id: i64) -> bool {
    exists|k: int| 0 <= k < statuses.len() && #[trigger] statuses[k].user_id == id
}

fn add_authors(out: &mut Vec<i64>, statuses: &Vec<Status>)
    requires
        old(out)@.no_duplicates(),
    ensures
        final(out)@.no_duplicates(),
        forall|x: i64|
            #[trigger] final(out)@.contains(x) <==> (old(out)@.contains(x) || authored_by_any(
                statuses@,
                x,
            )),
{
    let ghost start = out@;
    let mut i: usize = 0;
    while i < statuses.len()
        invariant
            i <= statuses.len(),
            out@.no_duplicates(),
            forall|x: i64|
                #[trigger] out@.contains(x) <==> (start.contains(x) || authored_by_any(
                    statuses@.take(i as int),
                    x,
                )),
        decreases statuses.len() - i,
    {
        let uid = statuses[i].user_id;
        let mut seen = false;
        let mut k: usize = 0;
        while k < out.len()
            invariant
                k <= out.len(),
                seen <==> exists|m: int| 0 <= m < k && out@[m] == uid,
            decreases out.len() - k,
        {
            if out[k] == uid {
                seen = true;
            }
            k += 1;
        }
        let ghost before = out@;
        if !seen {
            out.push(uid);
        }
        proof {
            let next = statuses@.take(i + 1);
            assert(next[i as int].user_id == uid);
            assert forall|x: i64| #[trigger]
                out@.contains(x) <==> (start.contains(x) || authored_by_any(next, x)) by {
                if authored_by_any(statuses@.take(i as int), x) {
                    let k = choose|k: int|
                        0 <= k < i && #[trigger] statuses@.take(i as int)[k].user_id == x;
                    assert(next[k].user_id == x);
                }
                if authored_by_any(next, x) {
                    let k = choose|k: int| 0 <= k < i + 1 && #[trigger] next[k].user_id == x;
                    if k < i {
                        assert(statuses@.take(i as int)[k].user_id == x);
                    }
                }
                if seen {
                    assert(before.contains(uid));
                } else {
                    assert(out@[before.len() as int] == uid);
                    if before.contains(x) {
                        let m = choose|m: int| 0 <= m < before.len() && before[m] == x;
                        assert(out@[m] == x);
                    }
                    if out@.contains(x) && x != uid {
                        let m = choose|m: int| 0 <= m < out@.len() && out@[m] == x;
                        assert(before[m] == x);
                    }
                }
            }
        }
        i += 1;
    }
    assert(statuses@.take(statuses.len() as int) =~= statuses@);
}

/// The authors a page needs loaded: each user id of the page's statuses and of the
/// reposted originals, once.
pub fn author_ids(statuses: &Vec<Status>, originals: &Vec<Status>) -> (r: Vec<i64>)
    ensures
        r@.no_duplicates(),
        forall|x: i64|
            #[trigger] r@.contains(x) <==> (authored_by_any(statuses@, x) || authored_by_any(
                originals@,
                x,
            )),
{
    let mut out: Vec<i64> = Vec::new();
    add_authors(&mut out, statuses);
    add_authors(&mut out, originals);
    out
}

} // verus!
