use vlog::domain::Post;
use vlog::handlers::blog::search::{search_query, suggestions, SearchParams, SUGGESTION_LIMIT};
use vlog::handlers::feed::{entry_summary, entry_timestamp, post_url, robots_body, RSS_LIMIT};
use vlog::repositories::post_repo::search_term;
use vlog::repositories::sql_placeholders;
use vlog::repositories::status_repo::hashtag_pattern;
use vlog::{legacy_search_target, legacy_target, percent_encode_query};

#[test]
fn query_values_are_percent_encoded() {
    assert_eq!(percent_encode_query("rust lang"), "rust%20lang");
    assert_eq!(percent_encode_query("a-b_c.d~e"), "a-b_c.d~e");
    assert_eq!(percent_encode_query("a&b=c#d"), "a%26b%3Dc%23d");
    assert_eq!(percent_encode_query("é"), "%C3%A9");
    assert_eq!(percent_encode_query(""), "");
}

#[test]
fn legacy_addresses_move_under_blog() {
    assert_eq!(legacy_search_target(Some("rust web")), "/blog/search?q=rust%20web");
    assert_eq!(legacy_search_target(Some("")), "/blog/search");
    assert_eq!(legacy_search_target(None), "/blog/search");
    assert_eq!(legacy_target("posts", "hello"), "/blog/posts/hello");
    assert_eq!(legacy_target("tags", "rust"), "/blog/tags/rust");
}

fn post(slug: &str, summary: Option<&str>, published: Option<&str>) -> Post {
    Post {
        id: 1,
        title: "T".to_string(),
        slug: slug.to_string(),
        summary: summary.map(|s| s.to_string()),
        content_md: String::new(),
        content_html: String::new(),
        cover_image: None,
        status: "published".to_string(),
        category_id: None,
        created_at: "2024-01-01 00:00:00".to_string(),
        updated_at: "2024-02-01 00:00:00".to_string(),
        published_at: published.map(|s| s.to_string()),
    }
}

#[test]
fn feed_entries() {
    assert_eq!(RSS_LIMIT, 20);
    assert_eq!(post_url("https://x.org", "hello"), "https://x.org/blog/posts/hello");
    let p = post("a", Some("sum"), Some("2024-03-01 10:00:00"));
    assert_eq!(entry_timestamp(&p), "2024-03-01 10:00:00");
    assert_eq!(entry_summary(&p), "sum");
    let q = post("b", None, None);
    assert_eq!(entry_timestamp(&q), "2024-02-01 00:00:00");
    assert_eq!(entry_summary(&q), "");
}

#[test]
fn robots_txt() {
    assert_eq!(
        robots_body("https://x.org"),
        "User-agent: *\nAllow: /\nDisallow: /admin\nSitemap: https://x.org/sitemap.xml\n"
    );
}

#[test]
fn sql_fragments() {
    assert_eq!(sql_placeholders(0), "");
    assert_eq!(sql_placeholders(1), "?");
    assert_eq!(sql_placeholders(3), "?,?,?");
    assert_eq!(search_term("  rust "), "%rust%");
    assert_eq!(hashtag_pattern("rust"), "%#rust%");
}

#[test]
fn search_queries() {
    assert_eq!(search_query(&SearchParams { q: Some("  rust ".to_string()) }), Some("rust"));
    assert_eq!(search_query(&SearchParams { q: Some("   ".to_string()) }), None);
    assert_eq!(search_query(&SearchParams { q: None }), None);
}

#[test]
fn at_most_eight_suggestions() {
    assert_eq!(SUGGESTION_LIMIT, 8);
    let many: Vec<Post> = (0..10).map(|i| post(&format!("p{i}"), None, None)).collect();
    let kept = suggestions(many);
    assert_eq!(kept.len(), 8);
    assert_eq!(kept[7].slug, "p7");
    let few: Vec<Post> = (0..3).map(|i| post(&format!("p{i}"), None, None)).collect();
    assert_eq!(suggestions(few).len(), 3);
}
