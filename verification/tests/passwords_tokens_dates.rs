use vlog::domain::Post;
use vlog::error::AppError;
use vlog::handlers::admin::auth::retry_after_header;
use vlog::handlers::admin::{name_and_slug, post_title_and_slug, tag_slug};
use vlog::handlers::feed::{feed_item, sitemap_item};
use vlog::utils::datetime::{iso_date, rfc2822};
use vlog::utils::password::{hash_password, verify_password};
use vlog::utils::token::{csrf_token, hex_encode, random_token, session_id};

fn post(slug: &str, summary: Option<&str>, published: Option<&str>) -> Post {
    Post {
        id: 7,
        title: "Hello".to_string(),
        slug: slug.to_string(),
        summary: summary.map(|s| s.to_string()),
        content_md: String::new(),
        content_html: String::new(),
        cover_image: None,
        status: "published".to_string(),
        category_id: None,
        created_at: "2024-01-01 00:00:00".to_string(),
        updated_at: "2024-02-01 08:30:00".to_string(),
        published_at: published.map(|s| s.to_string()),
    }
}

fn is_lower_hex(s: &str) -> bool {
    s.chars().all(|c| c.is_ascii_digit() || ('a'..='f').contains(&c))
}

#[test]
fn password_hash_round_trip() {
    let hash = hash_password("correct horse").unwrap();
    assert!(hash_password("").is_ok());
    assert!(hash.starts_with("$argon2"));
    assert_ne!(hash, "correct horse");
    assert!(verify_password("correct horse", &hash) == Ok(true));
    assert!(verify_password("wrong horse", &hash) == Ok(false));
}

#[test]
fn password_hashes_are_salted() {
    let a = hash_password("same").unwrap();
    let b = hash_password("same").unwrap();
    assert_ne!(a, b);
    assert!(verify_password("same", &a) == Ok(true));
    assert!(verify_password("same", &b) == Ok(true));
}

#[test]
fn malformed_hash_is_an_error() {
    assert_eq!(verify_password("admin", "not a phc string"), Err(AppError::InvalidPasswordHash));
    assert_eq!(verify_password("", ""), Err(AppError::InvalidPasswordHash));
    assert_eq!(AppError::InvalidPasswordHash.status_code(), 500);
}

#[test]
fn hex_encoding_is_exact() {
    assert_eq!(hex_encode(&vec![0x00, 0xff, 0x10, 0xab]), "00ff10ab");
    assert_eq!(hex_encode(&Vec::new()), "");
    assert_eq!(hex_encode(&vec![0x09]), "09");
}

#[test]
fn tokens_are_lower_hex_of_the_asked_length() {
    let t = random_token(8);
    assert_eq!(t.len(), 16);
    assert!(is_lower_hex(&t));
    assert_eq!(random_token(0), "");
    let s = session_id();
    assert_eq!(s.len(), 64);
    assert!(is_lower_hex(&s));
    let c = csrf_token();
    assert_eq!(c.len(), 64);
    assert!(is_lower_hex(&c));
    assert_ne!(session_id(), session_id());
}

#[test]
fn rss_dates_are_rfc2822() {
    assert_eq!(rfc2822("2024-03-01 10:00:00"), "Fri, 1 Mar 2024 10:00:00 +0000");
    assert_eq!(rfc2822("yesterday"), "yesterday");
    assert_eq!(rfc2822(""), "");
    // Years RFC 2822 cannot write are kept as stored, never a panic.
    assert_eq!(rfc2822("+10000-01-01 00:00:00"), "+10000-01-01 00:00:00");
    assert_eq!(rfc2822("-1-01-01 00:00:00"), "-1-01-01 00:00:00");
    assert_eq!(rfc2822("9999-12-31 23:59:59"), "Fri, 31 Dec 9999 23:59:59 +0000");
}

#[test]
fn sitemap_dates_keep_the_day() {
    assert_eq!(iso_date("2024-03-01 10:00:00"), "2024-03-01");
    assert_eq!(iso_date("2024-03"), "2024-03");
    assert_eq!(iso_date(""), "");
}

#[test]
fn feed_item_of_a_published_post() {
    let p = post("hello", Some("short"), Some("2024-03-01 10:00:00"));
    let item = feed_item(&p, "https://x.org");
    assert_eq!(item.title, "Hello");
    assert_eq!(item.url, "https://x.org/blog/posts/hello");
    assert_eq!(item.pub_date_rfc2822, "Fri, 1 Mar 2024 10:00:00 +0000");
    assert_eq!(item.summary, "short");
}

#[test]
fn sitemap_item_of_a_post() {
    let p = post("hello", None, Some("2024-03-01 10:00:00"));
    let item = sitemap_item(&p, "https://x.org");
    assert_eq!(item.url, "https://x.org/blog/posts/hello");
    assert_eq!(item.lastmod, "2024-03-01");
    let draft = post("draft", None, None);
    assert_eq!(feed_item(&draft, "https://x.org").summary, "");
}

#[test]
fn retry_after_header_only_for_lockouts() {
    assert_eq!(
        retry_after_header(&AppError::TooManyRequests { retry_after_secs: 42 }),
        Some(("retry-after", "42".to_string()))
    );
    assert_eq!(retry_after_header(&AppError::Unauthorized), None);
}

#[test]
fn post_form_title_then_slug() {
    assert_eq!(
        post_title_and_slug("  Hello World ", ""),
        Ok(("Hello World", "hello-world".to_string()))
    );
    assert_eq!(post_title_and_slug("Hello", "My Slug"), Ok(("Hello", "my-slug".to_string())));
    assert_eq!(
        post_title_and_slug("   ", "x"),
        Err(AppError::BadRequest("Title is required.".to_string()))
    );
    assert_eq!(
        post_title_and_slug("日本語", ""),
        Err(AppError::BadRequest("Slug cannot be empty after normalization.".to_string()))
    );
}

#[test]
fn category_and_tag_names() {
    assert_eq!(name_and_slug("Rust", ""), Ok(("Rust", "rust".to_string())));
    assert_eq!(
        name_and_slug("", "rust"),
        Err(AppError::BadRequest("Name is required.".to_string()))
    );
    assert_eq!(tag_slug("Web Dev"), Ok("web-dev".to_string()));
    assert_eq!(
        tag_slug("!!!"),
        Err(AppError::BadRequest("Tag '!!!' does not produce a valid slug.".to_string()))
    );
}
