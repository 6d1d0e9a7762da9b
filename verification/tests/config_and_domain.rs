use std::path::PathBuf;

use vlog::config::{apply_env_overrides, normalize_site_url, parse_port, EnvOverrides, Settings};
use vlog::domain::{SiteSettings, Status, User};
use vlog::text::{i64_to_string, is_blank, parse_i64, parse_u32, str_eq, trimmed, u64_to_string};

fn defaults() -> Settings {
    Settings {
        site_name: "Volo Blog".to_string(),
        site_description: "A lightweight Markdown blog powered by Volo-HTTP.".to_string(),
        site_url: "http://localhost:8080".to_string(),
        host: "127.0.0.1".to_string(),
        port: 8080,
        database_url: "sqlite://vlog.db".to_string(),
        static_dir: PathBuf::from("static"),
        upload_dir: PathBuf::from("storage/uploads"),
        posts_per_page: 10,
    }
}

fn no_env() -> EnvOverrides {
    EnvOverrides {
        site_name: None,
        site_description: None,
        site_url: None,
        host: None,
        port: None,
        database_url: None,
        posts_per_page: None,
    }
}

#[test]
fn env_overrides_replace_settings() {
    let mut env = no_env();
    env.port = Some("3000".to_string());
    env.database_url = Some("sqlite://dev.db".to_string());
    env.site_url = Some("https://blog.example.com/".to_string());
    let s = apply_env_overrides(defaults(), env).unwrap();
    assert_eq!(s.port, 3000);
    assert_eq!(s.database_url, "sqlite://dev.db");
    assert_eq!(s.site_url, "https://blog.example.com");
    assert_eq!(s.site_name, "Volo Blog");
    assert_eq!(s.upload_dir, PathBuf::from("storage/uploads"));
}

#[test]
fn no_env_keeps_settings() {
    let s = apply_env_overrides(defaults(), no_env()).unwrap();
    assert_eq!(s.port, 8080);
    assert_eq!(s.posts_per_page, 10);
    assert_eq!(s.site_url, "http://localhost:8080");
}

#[test]
fn posts_per_page_is_clamped() {
    let mut env = no_env();
    env.posts_per_page = Some("0".to_string());
    assert_eq!(apply_env_overrides(defaults(), env.clone()).unwrap().posts_per_page, 1);
    env.posts_per_page = Some("500".to_string());
    assert_eq!(apply_env_overrides(defaults(), env.clone()).unwrap().posts_per_page, 100);
    env.posts_per_page = Some("25".to_string());
    assert_eq!(apply_env_overrides(defaults(), env).unwrap().posts_per_page, 25);
}

#[test]
fn bad_numbers_are_refused_with_the_value() {
    let mut env = no_env();
    env.port = Some("80a".to_string());
    assert_eq!(apply_env_overrides(defaults(), env.clone()).unwrap_err(), "80a");
    env.port = Some("70000".to_string());
    assert_eq!(apply_env_overrides(defaults(), env).unwrap_err(), "70000");
    let mut env = no_env();
    env.posts_per_page = Some("ten".to_string());
    assert_eq!(apply_env_overrides(defaults(), env).unwrap_err(), "ten");
}

#[test]
fn port_parsing() {
    assert_eq!(parse_port("8080"), Some(8080));
    assert_eq!(parse_port("+1"), Some(1));
    assert_eq!(parse_port("65535"), Some(65535));
    assert_eq!(parse_port("65536"), None);
    assert_eq!(parse_port(""), None);
    assert_eq!(parse_port(" 80"), None);
}

#[test]
fn site_url_loses_trailing_slashes() {
    assert_eq!(normalize_site_url("https://x.org///"), "https://x.org");
    assert_eq!(normalize_site_url("https://x.org"), "https://x.org");
    assert_eq!(normalize_site_url("/"), "");
    let once = normalize_site_url("https://x.org/a/");
    assert_eq!(normalize_site_url(&once), once);
}

fn rows(pairs: &[(&str, &str)]) -> Vec<(String, String)> {
    pairs.iter().map(|(k, v)| (k.to_string(), v.to_string())).collect()
}

#[test]
fn site_settings_defaults() {
    let s = SiteSettings::from_map(&Vec::new());
    assert_eq!(s.site_name, "");
    assert_eq!(s.posts_per_page, 10);
    assert_eq!(s.seo_title_template, "{title} | {site_name}");
}

#[test]
fn site_settings_read_rows_last_wins() {
    let s = SiteSettings::from_map(&rows(&[
        ("site_name", "First"),
        ("posts_per_page", "12"),
        ("site_name", "Second"),
        ("seo_title_template", "{title}"),
    ]));
    assert_eq!(s.site_name, "Second");
    assert_eq!(s.posts_per_page, 12);
    assert_eq!(s.seo_title_template, "{title}");
}

#[test]
fn site_settings_bad_number_falls_back() {
    let s = SiteSettings::from_map(&rows(&[("posts_per_page", "lots")]));
    assert_eq!(s.posts_per_page, 10);
}

fn status(id: i64, parent: Option<i64>, repost: Option<i64>, body: &str) -> Status {
    Status {
        id,
        user_id: 1,
        content_md: body.to_string(),
        content_html: String::new(),
        parent_id: parent,
        repost_of_id: repost,
        reply_count: 0,
        like_count: 0,
        repost_count: 0,
        created_at: "2024-01-01 00:00:00".to_string(),
    }
}

#[test]
fn status_kinds() {
    assert!(status(1, Some(2), None, "hi").is_reply());
    assert!(!status(1, None, None, "hi").is_reply());
    assert!(status(1, None, Some(3), "").is_repost());
    assert!(!status(1, None, Some(3), "  \n").is_quote_repost());
    assert!(status(1, None, Some(3), "nice").is_quote_repost());
    assert!(!status(1, None, None, "nice").is_quote_repost());
}

fn user(name: &str, display: Option<&str>, role: &str) -> User {
    User {
        id: 1,
        username: name.to_string(),
        password_hash: String::new(),
        created_at: String::new(),
        updated_at: String::new(),
        display_name: display.map(|d| d.to_string()),
        bio: None,
        avatar_url: None,
        role: role.to_string(),
    }
}

#[test]
fn user_roles_and_labels() {
    assert!(user("a", None, "admin").is_admin());
    assert!(!user("a", None, "user").is_admin());
    assert!(!user("a", None, "Admin").is_admin());
    assert_eq!(user("bob", Some("Bob B."), "user").display_label(), "Bob B.");
    assert_eq!(user("bob", Some("   "), "user").display_label(), "bob");
    assert_eq!(user("bob", None, "user").display_label(), "bob");
}

#[test]
fn text_helpers() {
    assert_eq!(trimmed("  a b \n"), "a b");
    assert!(is_blank(" \t\n"));
    assert!(!is_blank(" x "));
    assert!(str_eq("abc", "abc"));
    assert!(!str_eq("abc", "abd"));
    assert_eq!(parse_u32("+42"), Some(42));
    assert_eq!(parse_u32("4294967296"), None);
    assert_eq!(parse_i64("-9223372036854775808"), Some(i64::MIN));
    assert_eq!(parse_i64("9223372036854775808"), None);
    assert_eq!(parse_i64("-"), None);
    assert_eq!(i64_to_string(-120), "-120");
    assert_eq!(i64_to_string(0), "0");
    assert_eq!(u64_to_string(18446744073709551615), "18446744073709551615");
}
