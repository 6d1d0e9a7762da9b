//! Admin post authoring: the HTML and the summary or excerpt stored with a post.

use vstd::prelude::*;
use crate::text::{chars_of, is_white_space, is_whitespace, string_of, trim, trimmed};
use crate::utils::markdown::{markdown_html, render};

verus! {

broadcast use vstd::string::group_string_axioms;

/// Most characters an excerpt keeps.
pub const EXCERPT_CHARS: usize = 180;

/// What `strip_html_tags` writes for `h[i..]` when a tag is open (`in_tag`) or not: tags
/// are dropped, each `>` becomes a space, and text outside tags is kept.
pub open spec fn strip_tags_from(h: Seq<char>, i: int, in_tag: bool) -> Seq<char>
    decreases h.len() - i,
{
    if i < 0 || i >= h.len() {
        seq![]
    } else if h[i] == '<' {
        strip_tags_from(h, i + 1, true)
    } else if h[i] == '>' {
        seq![' '] + strip_tags_from(h, i + 1, false)
    } else if !in_tag {
        seq![h[i]] + strip_tags_from(h, i + 1, in_tag)
    } else {
        strip_tags_from(h, i + 1, in_tag)
    }
}

/// The words of `s` (its maximal runs of non-white-space characters) joined by single
/// spaces, as `s.split_whitespace().collect::<Vec<_>>().join(" ")`.
pub open spec fn collapse_white_space(s: Seq<char>) -> Seq<char>
    decreases s.len(),
{
    if s.len() == 0 {
        seq![]
    } else {
        let c = s.last();
        let before = collapse_white_space(s.drop_last());
        if is_white_space(c) {
            before
        } else if s.len() >= 2 && is_white_space(s[s.len() - 2]) && before.len() > 0 {
            before + seq![' ', c]
        } else {
            before.push(c)
        }
    }
}

/// The first `n` characters of `s`, or all of it when it is shorter.
pub open spec fn take_chars(s: Seq<char>, n: nat) -> Seq<char> {
    if s.len() <= n {
        s
    } else {
        s.take(n as int)
    }
}

/// The excerpt of rendered HTML: its text with tags dropped, white space collapsed,
/// cut to `EXCERPT_CHARS` characters; `None` when nothing is left.
pub open spec fn excerpt_spec(html: Seq<char>) -> Option<Seq<char>> {
    let text = take_chars(
        collapse_white_space(strip_tags_from(html, 0, false)),
        EXCERPT_CHARS as nat,
    );
    if text.len() == 0 {
        None
    } else {
        Some(text)
    }
}

/// The summary stored with a post: the trimmed summary when it is not blank, else the
/// excerpt of the rendered Markdown.
pub open spec fn summary_or_excerpt_spec(summary: Option<Seq<char>>, content_md: Seq<char>) -> Option<
    Seq<char>,
> {
    match summary {
        Some(s) if trim(s).len() > 0 => Some(trim(s)),
        _ => excerpt_spec(markdown_html(content_md)),
    }
}

/// Drops HTML tags; each `>` becomes a space so that words across tags stay apart.
pub fn strip_html_tags(html: &str) -> (r: String)
    ensures
        r@ == strip_tags_from(html@, 0, false),
{
    let h = chars_of(html);
    let mut out: Vec<char> = Vec::new();
    let mut in_tag = false;
    let mut i: usize = 0;
    while i < h.len()
        invariant
            i <= h.len(),
            h@ == html@,
            out@ + strip_tags_from(h@, i as int, in_tag) == strip_tags_from(html@, 0, false),
        decreases h.len() - i,
    {
        let ghost (o0, t0) = (out@, in_tag);
        let ch = h[i];
        if ch == '<' {
            in_tag = true;
        } else if ch == '>' {
            in_tag = false;
            out.push(' ');
        } else if !in_tag {
            out.push(ch);
        }
        i += 1;
        assert(o0 + strip_tags_from(h@, i - 1, t0) =~= out@ + strip_tags_from(h@, i as int, in_tag));
    }
    string_of(&out)
}

/// Collapses white space as `split_whitespace` followed by `join(" ")` does.
pub fn collapse_whitespace(s: &Vec<char>) -> (r: Vec<char>)
    ensures
        r@ == collapse_white_space(s@),
{
    let mut out: Vec<char> = Vec::new();
    let mut i: usize = 0;
    while i < s.len()
        invariant
            i <= s.len(),
            out@ == collapse_white_space(s@.take(i as int)),
        decreases s.len() - i,
    {
        let c = s[i];
        proof {
            let t = s@.take(i + 1);
            assert(t.drop_last() =~= s@.take(i as int));
            assert(t.last() == c);
            if i >= 1 {
                assert(t[t.len() - 2] == s@[i - 1]);
            }
        }
        if is_whitespace(c) {
        } else if i >= 1 && is_whitespace(s[i - 1]) && out.len() > 0 {
            out.push(' ');
            out.push(c);
        } else {
            out.push(c);
        }
        i += 1;
    }
    assert(s@.take(s.len() as int) =~= s@);
    out
}

/// The excerpt of already rendered HTML: its text without tags, white space collapsed,
/// cut to 180 characters; `None` when that leaves nothing.
pub fn excerpt_from_html(html: &str) -> (r: Option<String>)
    ensures
        r matches Some(s) ==> excerpt_spec(html@) == Some(s@),
        r is None ==> excerpt_spec(html@) is None,
{
    let stripped = strip_html_tags(html);
    let words = collapse_whitespace(&chars_of(stripped.as_str()));
    let mut cut: Vec<char> = Vec::new();
    let mut i: usize = 0;
    while i < words.len() && i < EXCERPT_CHARS
        invariant
            i <= words.len(),
            i <= EXCERPT_CHARS,
            cut@ == words@.take(i as int),
        decreases words.len() - i,
    {
        cut.push(words[i]);
        i += 1;
        assert(cut@ =~= words@.take(i as int));
    }
    assert(cut@ == take_chars(words@, EXCERPT_CHARS as nat)) by {
        if words@.len() <= EXCERPT_CHARS {
            assert(words@.take(words@.len() as int) =~= words@);
        }
    }
    if cut.len() == 0 {
        None
    } else {
        Some(string_of(&cut))
    }
}

/// The trimmed summary when it is not blank, else an excerpt of the rendered Markdown.
pub fn render_summary_or_excerpt(summary: Option<&str>, content_md: &str) -> (r: Option<String>)
    ensures
        r matches Some(s) ==> summary_or_excerpt_spec(
            match summary {
                Some(s) => Some(s@),
                None => None,
            },
            content_md@,
        ) == Some(s@),
        r is None ==> summary_or_excerpt_spec(
            match summary {
                Some(s) => Some(s@),
                None => None,
            },
            content_md@,
        ) is None,
{
    if let Some(s) = summary {
        let t = trimmed(s);
        if !t.is_empty() {
            return Some(t.to_owned());
        }
    }
    let rendered = render(content_md);
    excerpt_from_html(rendered.as_str())
}

/// Renders the post body; admin-authored Markdown is trusted.
pub fn render_html(content_md: &str) -> (r: String)
    ensures
        r@ == markdown_html(content_md@),
{
    render(content_md)
}

/// An excerpt is the beginning of the page's text: its first 180 characters (all of it
/// when shorter), in order; there is none exactly when the text is empty.
pub proof fn law_excerpt_is_the_beginning(html: Seq<char>)
    ensures
        ({
            let text = collapse_white_space(strip_tags_from(html, 0, false));
            let n = if text.len() <= 180 {
                text.len() as int
            } else {
                180
            };
            &&& excerpt_spec(html) is None <==> text.len() == 0
            &&& excerpt_spec(html) matches Some(t) ==> t.len() == n && forall|i: int|
                0 <= i < n ==> #[trigger] t[i] == text[i]
        }),
{
}

proof fn lemma_strip_plain(h: Seq<char>, i: int)
    requires
        0 <= i <= h.len(),
        forall|q: int| 0 <= q < h.len() ==> #[trigger] h[q] != '<' && h[q] != '>',
    ensures
        strip_tags_from(h, i, false) == h.subrange(i, h.len() as int),
    decreases h.len() - i,
{
    if i < h.len() {
        lemma_strip_plain(h, i + 1);
        assert(seq![h[i]] + h.subrange(i + 1, h.len() as int) =~= h.subrange(i, h.len() as int));
    } else {
        assert(h.subrange(i, h.len() as int) =~= Seq::<char>::empty());
    }
}

/// Text without `<` or `>` has no tag to drop: stripping tags keeps it whole.
pub proof fn law_text_without_tags_is_kept(h: Seq<char>)
    requires
        forall|q: int| 0 <= q < h.len() ==> #[trigger] h[q] != '<' && h[q] != '>',
    ensures
        strip_tags_from(h, 0, false) == h,
{
    lemma_strip_plain(h, 0);
    assert(h.subrange(0, h.len() as int) =~= h);
}

/// A single word (text without white space) is its own collapsed form.
pub proof fn law_single_word_is_kept(s: Seq<char>)
    requires
        forall|q: int| 0 <= q < s.len() ==> !is_white_space(#[trigger] s[q]),
    ensures
        collapse_white_space(s) == s,
    decreases s.len(),
{
    if s.len() > 0 {
        let init = s.drop_last();
        assert forall|q: int| 0 <= q < init.len() implies !is_white_space(#[trigger] init[q]) by {
            assert(init[q] == s[q]);
        }
        law_single_word_is_kept(init);
        assert(!is_white_space(s[s.len() - 1]));
        if s.len() >= 2 {
            assert(!is_white_space(s[s.len() - 2]));
        }
        assert(init.push(s.last()) =~= s);
    }
}

} // verus!
