//! Markdown to HTML, by `pulldown-cmark`.

use vstd::prelude::*;

verus! {

/// The HTML that `pulldown-cmark` renders for the Markdown text `md` with its default
/// options (CommonMark, no extensions).
pub uninterp spec fn markdown_html(md: Seq<char>) -> Seq<char>;

/// Calls `pulldown_cmark::Parser::new` on `md` and `pulldown_cmark::html::push_html` into an
/// empty string. The contract says only that the result is the rendering named
/// `markdown_html` of `md`: a function of the text alone; the rendering itself is not stated.
#[verifier::external_body]
pub(crate) fn render(md: &str) -> (html: String)
    ensures
        html@ == markdown_html(md@),
{
    let parser = pulldown_cmark::Parser::new(md);
    let mut html = String::new();
    pulldown_cmark::html::push_html(&mut html, parser);
    html
}

} // verus!
