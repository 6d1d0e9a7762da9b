use vlog::domain::{Session, User};
use vlog::error::AppError;
use vlog::services::admin_guard::{constant_time_eq, verify_csrf, AuthContext};
use vlog::services::admin_post_service::{
    excerpt_from_html, render_html, render_summary_or_excerpt, strip_html_tags,
};
use vlog::services::upload_service::{
    add_chunk_len, guess_image_extension, partial_file_name, public_upload_path,
    sanitize_extension, stored_file_name, upload_mime, upload_original_name, validate_image_mime,
    MAX_IMAGE_BYTES,
};

fn bad(m: &str) -> AppError {
    AppError::BadRequest(m.to_string())
}

#[test]
fn tags_are_stripped_with_a_space_per_tag_end() {
    assert_eq!(strip_html_tags("<p>Hello <b>world</b></p>"), " Hello  world  ");
    assert_eq!(strip_html_tags("plain"), "plain");
    assert_eq!(strip_html_tags("a<unclosed"), "a");
}

#[test]
fn excerpts() {
    assert_eq!(excerpt_from_html("<p>Hello   <b>world</b></p>\n"), Some("Hello world".to_string()));
    assert_eq!(excerpt_from_html("<hr/>"), None);
    let long = format!("<p>{}</p>", "x".repeat(300));
    assert_eq!(excerpt_from_html(&long).unwrap().chars().count(), 180);
}

#[test]
fn summary_or_excerpt() {
    assert_eq!(render_summary_or_excerpt(Some("  mine  "), "# Title"), Some("mine".to_string()));
    assert_eq!(
        render_summary_or_excerpt(Some("   "), "# Title\n\nSome *text*."),
        Some("Title Some text .".to_string())
    );
    assert_eq!(render_summary_or_excerpt(None, ""), None);
}

#[test]
fn markdown_is_rendered() {
    assert_eq!(render_html("# Hi"), "<h1>Hi</h1>\n");
    assert_eq!(render_html("a *b*"), "<p>a <em>b</em></p>\n");
}

fn auth(token: &str) -> AuthContext {
    AuthContext {
        user: User {
            id: 1,
            username: "admin".to_string(),
            password_hash: String::new(),
            created_at: String::new(),
            updated_at: String::new(),
            display_name: None,
            bio: None,
            avatar_url: None,
            role: "admin".to_string(),
        },
        session: Session {
            id: "s".to_string(),
            user_id: 1,
            csrf_token: token.to_string(),
            created_at: String::new(),
            expires_at: String::new(),
        },
    }
}

#[test]
fn csrf_tokens() {
    let a = auth("abc123");
    assert_eq!(a.csrf_token(), "abc123");
    assert!(a.is_admin());
    assert_eq!(verify_csrf(&a, Some("abc123")), Ok(()));
    assert_eq!(verify_csrf(&a, Some("abc124")), Err(AppError::Forbidden));
    assert_eq!(verify_csrf(&a, Some("abc1234")), Err(AppError::Forbidden));
    assert_eq!(verify_csrf(&a, None), Err(AppError::Forbidden));
    assert!(constant_time_eq(b"same", b"same"));
    assert!(!constant_time_eq(b"same", b"sane"));
    assert!(!constant_time_eq(b"same", b"sam"));
    assert!(constant_time_eq(b"", b""));
}

#[test]
fn image_types() {
    for mime in ["image/png", "image/jpeg", "image/gif", "image/webp"] {
        assert_eq!(validate_image_mime(mime), Ok(()));
    }
    assert_eq!(validate_image_mime("image/svg+xml"), Err(bad("Unsupported mime type: image/svg+xml")));
    assert_eq!(guess_image_extension("image/png"), "png");
    assert_eq!(guess_image_extension("image/webp"), "webp");
    assert_eq!(guess_image_extension("application/pdf"), "bin");
    assert_eq!(sanitize_extension("J.P-G"), "jpg");
}

#[test]
fn size_cap() {
    assert_eq!(MAX_IMAGE_BYTES, 5 * 1024 * 1024);
    assert_eq!(add_chunk_len(MAX_IMAGE_BYTES - 10, 10), Ok(MAX_IMAGE_BYTES));
    assert_eq!(add_chunk_len(MAX_IMAGE_BYTES - 10, 11), Err(bad("File too large.")));
    assert_eq!(add_chunk_len(usize::MAX, 1), Err(bad("File too large.")));
}

#[test]
fn upload_names() {
    assert_eq!(stored_file_name("abcd1234", "image/jpeg"), "abcd1234.jpg");
    assert_eq!(stored_file_name("abcd1234", "text/plain"), "abcd1234.bin");
    assert_eq!(public_upload_path("x.png"), "/static/uploads/x.png");
    assert_eq!(partial_file_name("x.png"), "x.png.part");
    assert_eq!(upload_original_name(Some("cat.png")), "cat.png");
    assert_eq!(upload_original_name(None), "upload.bin");
    assert_eq!(upload_mime(Some("image/gif")), "image/gif");
    assert_eq!(upload_mime(None), "application/octet-stream");
}

#[test]
fn sanitized_extension_is_stable() {
    assert_eq!(sanitize_extension("P.N/G"), "png");
    assert_eq!(sanitize_extension("ABCDEFGHIJ"), "abcdefgh");
    for ext in ["P.N/G", "ABCDEFGHIJ", "", "wEbP", "é-x_9"] {
        let once = sanitize_extension(ext);
        assert!(once.len() <= 8);
        assert!(once.chars().all(|c| c.is_ascii_lowercase() || c.is_ascii_digit()));
        assert_eq!(sanitize_extension(&once), once);
    }
}
