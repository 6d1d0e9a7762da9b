use vlog::error::AppError;
use vlog::handlers::microblog::hashtag::normalize_tag;
use vlog::repositories::page_offset;
use vlog::templates::{rendered_headers, RenderedKind};
use vlog::utils::cookie::{
    cleared_session_cookie, cookie_value, secure_cookies, session_cookie, SESSION_COOKIE,
};
use vlog::utils::slug::slugify;

#[test]
fn slugs() {
    assert_eq!(slugify("Hello, World!"), "hello-world");
    assert_eq!(slugify("  Rust 2024 -- edition  "), "rust-2024-edition");
    assert_eq!(slugify("already-a-slug"), "already-a-slug");
    assert_eq!(slugify("日本語"), "");
    assert_eq!(slugify("--x--"), "x");
    assert_eq!(slugify(""), "");
}

#[test]
fn session_cookies() {
    assert_eq!(SESSION_COOKIE, "vlog_session");
    assert_eq!(
        session_cookie("abc", 604800, false),
        "vlog_session=abc; Path=/; HttpOnly; SameSite=Lax; Max-Age=604800"
    );
    assert_eq!(
        session_cookie("abc", 60, true),
        "vlog_session=abc; Path=/; HttpOnly; SameSite=Lax; Max-Age=60; Secure"
    );
    assert_eq!(
        cleared_session_cookie(false),
        "vlog_session=; Path=/; HttpOnly; SameSite=Lax; Max-Age=0"
    );
}

#[test]
fn secure_cookie_setting() {
    assert!(secure_cookies(Some("1")));
    assert!(secure_cookies(Some(" TRUE ")));
    assert!(secure_cookies(Some("yes")));
    assert!(!secure_cookies(Some("0")));
    assert!(!secure_cookies(Some("")));
    assert!(!secure_cookies(None));
}

#[test]
fn cookies_are_read_from_the_header() {
    assert_eq!(cookie_value("vlog_session=xyz", "vlog_session"), Some("xyz".to_string()));
    assert_eq!(
        cookie_value("theme=dark; vlog_session=s1; other=2", "vlog_session"),
        Some("s1".to_string())
    );
    assert_eq!(cookie_value("a=1; a=2", "a"), Some("1".to_string()));
    assert_eq!(cookie_value("vlog_sessionx=1", "vlog_session"), None);
    assert_eq!(cookie_value("theme=dark", "vlog_session"), None);
    assert_eq!(cookie_value("", "vlog_session"), None);
    assert_eq!(cookie_value(" vlog_session= ;", "vlog_session"), Some("".to_string()));
}

#[test]
fn page_offsets() {
    assert_eq!(page_offset(1, 20), 0);
    assert_eq!(page_offset(0, 20), 0);
    assert_eq!(page_offset(3, 20), 40);
}

#[test]
fn rendered_page_headers() {
    assert_eq!(
        rendered_headers(RenderedKind::Html),
        vec![
            ("content-type", "text/html; charset=utf-8"),
            ("x-content-type-options", "nosniff"),
            ("referrer-policy", "same-origin"),
        ]
    );
    assert_eq!(
        rendered_headers(RenderedKind::Xml),
        vec![("content-type", "application/xml; charset=utf-8"), ("x-content-type-options", "nosniff")]
    );
}

#[test]
fn error_statuses() {
    assert_eq!(AppError::BadRequest("x".to_string()).status_code(), 400);
    assert_eq!(AppError::Conflict("x".to_string()).status_code(), 409);
    assert_eq!(AppError::NotFound.status_code(), 404);
    assert_eq!(AppError::Unauthorized.status_code(), 401);
    assert_eq!(AppError::InvalidSession.status_code(), 401);
    assert_eq!(AppError::Forbidden.status_code(), 403);
    assert_eq!(AppError::TooManyRequests { retry_after_secs: 3 }.status_code(), 429);
    assert_eq!(AppError::StateNotInitialized.status_code(), 500);
}

#[test]
fn decimal_text_parses_back() {
    for n in [0u32, 7, 42, 4294967295] {
        let text = vlog::text::u64_to_string(u64::from(n));
        assert_eq!(vlog::text::parse_u32(&text), Some(n));
    }
}

#[test]
fn normalized_hashtags_stay_normalized() {
    for tag in ["rust-lang", "a b_c", "日本!"] {
        let once = normalize_tag(tag);
        assert_eq!(normalize_tag(&once), once);
    }
}

#[test]
fn encoded_queries_hold_only_safe_characters() {
    let encoded = vlog::percent_encode_query("a b&c=d#e/ü?");
    assert!(encoded
        .chars()
        .all(|c| c.is_ascii_alphanumeric() || "-_.~%".contains(c)));
    assert_eq!(encoded, "a%20b%26c%3Dd%23e%2F%C3%BC%3F");
}

#[test]
fn slugs_are_url_safe() {
    for title in ["Hello, World!", "  A -- B  ", "x", "?!"] {
        let slug = slugify(title);
        assert!(slug.chars().all(|c| c.is_ascii_lowercase() || c.is_ascii_digit() || c == '-'));
        assert!(!slug.starts_with('-') && !slug.ends_with('-'));
    }
}
