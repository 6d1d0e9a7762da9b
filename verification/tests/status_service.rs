use vlog::services::status_service::{auto_link, html_escape, parse_tag_name};

#[test]
fn auto_link_mention_and_hashtag() {
    let out = auto_link("<p>hi @bob, see #rust!</p>");
    assert!(out.contains("<a class=\"mention\" href=\"/u/bob\">@bob</a>"));
    assert!(out.contains("<a class=\"hashtag\" href=\"/h/rust\">#rust</a>"));
}

#[test]
fn auto_link_skips_inside_code() {
    let out = auto_link("<p>before <code>@nope #nope</code> after @yes</p>");
    assert!(out.contains("<code>@nope #nope</code>"));
    assert!(out.contains("<a class=\"mention\" href=\"/u/yes\">@yes</a>"));
}

#[test]
fn auto_link_email_not_linked() {
    let out = auto_link("<p>foo@bar</p>");
    assert!(!out.contains("class=\"mention\""));
}

#[test]
fn auto_link_exact_output() {
    assert_eq!(
        auto_link("<p>hi @bob</p>"),
        "<p>hi <a class=\"mention\" href=\"/u/bob\">@bob</a></p>"
    );
}

#[test]
fn auto_link_without_sigils_is_unchanged() {
    let html = "<p>plain <em>text</em> &amp; more</p>";
    assert_eq!(auto_link(html), html);
}

#[test]
fn auto_link_skips_inside_pre_and_links() {
    let html = "<pre>@a</pre><a href=\"/x\">#b</a> #c";
    assert_eq!(
        auto_link(html),
        "<pre>@a</pre><a href=\"/x\">#b</a> <a class=\"hashtag\" href=\"/h/c\">#c</a>"
    );
}

#[test]
fn auto_link_self_closing_tag_does_not_open_region() {
    assert_eq!(
        auto_link("<a/> @x"),
        "<a/> <a class=\"mention\" href=\"/u/x\">@x</a>"
    );
}

#[test]
fn auto_link_lone_sigil_and_unclosed_tag() {
    assert_eq!(auto_link("@ # x"), "@ # x");
    assert_eq!(auto_link("a <b"), "a <b");
}

#[test]
fn auto_link_unicode_and_underscore() {
    assert_eq!(
        auto_link("#日本_語!"),
        "<a class=\"hashtag\" href=\"/h/日本_語\">#日本_語</a>!"
    );
}

#[test]
fn parse_tag_name_lowers_and_strips() {
    assert_eq!(parse_tag_name("<CODE class=\"x\">"), "code");
    assert_eq!(parse_tag_name("</Pre>"), "pre");
    assert_eq!(parse_tag_name("<br/>"), "br");
    assert_eq!(parse_tag_name("<<a>>"), "a");
    assert_eq!(parse_tag_name("<>"), "");
}

#[test]
fn html_escape_all_specials() {
    assert_eq!(html_escape("a&b<c>d\"e'f"), "a&amp;b&lt;c&gt;d&quot;e&#39;f");
}

#[test]
fn auto_link_twice_equals_once() {
    for html in [
        "<p>hi @bob, see #rust!</p>",
        "@@bob #a#b x@y",
        "<pre>@kept</pre> @café_2 </a>#after",
        "<code>unclosed @x",
        "#",
        "<a href=\"/u/z\">@z</a>@w",
        "<p title='@q'>&lt;@r&gt;</p>",
    ] {
        let once = auto_link(html);
        assert_eq!(auto_link(&once), once, "input {html:?}");
    }
    for c in ['<', '>', ';', '&', '"', '\''] {
        assert!(!c.is_alphanumeric());
    }
}
