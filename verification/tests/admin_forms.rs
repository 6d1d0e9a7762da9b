use vlog::domain::{Post, Tag};
use vlog::error::AppError;
use vlog::handlers::admin::auth::login_error_message;
use vlog::handlers::admin::categories::{category_description, required_name};
use vlog::handlers::admin::dashboard::count_with_status;
use vlog::handlers::admin::posts::{
    normalize_status, option_str, parse_category_id, required_title, split_tag_names, tags_csv,
};
use vlog::handlers::admin::settings::{posts_per_page_value, settings_pairs, SettingsForm};
use vlog::handlers::admin::upload::{
    add_csrf_chunk, guess_extension, sanitize_ext, UploadFieldStep, UploadForm, MAX_BYTES,
};
use vlog::handlers::admin::users::{
    check_role_change, check_user_delete, normalize_role, user_taken, validate_new_password,
    validate_username,
};
use vlog::handlers::admin::{
    category_slug_taken, check_slug, missing_category, post_slug_taken, slug_source,
    tag_slug_taken, tag_without_slug,
};
use vlog::domain::{Session, User};
use vlog::services::admin_guard::AuthContext;

fn bad(m: &str) -> AppError {
    AppError::BadRequest(m.to_string())
}

#[test]
fn slug_source_prefers_the_slug_field() {
    assert_eq!(slug_source("Hello World", "  my-post "), "my-post");
    assert_eq!(slug_source("Hello World", "   "), "Hello World");
    assert_eq!(slug_source("Hello World", ""), "Hello World");
}

#[test]
fn empty_slug_is_refused() {
    assert_eq!(check_slug(""), Err(bad("Slug cannot be empty after normalization.")));
    assert_eq!(check_slug("a"), Ok(()));
}

#[test]
fn conflict_messages() {
    assert_eq!(
        post_slug_taken("hello"),
        AppError::Conflict("A post with slug 'hello' already exists.".to_string())
    );
    assert_eq!(
        category_slug_taken("rust"),
        AppError::Conflict("Category slug 'rust' is already taken.".to_string())
    );
    assert_eq!(
        tag_slug_taken("web"),
        AppError::Conflict("Tag slug 'web' is already taken.".to_string())
    );
    assert_eq!(user_taken("bob"), AppError::Conflict("User 'bob' already exists.".to_string()));
    assert_eq!(tag_without_slug("!!"), bad("Tag '!!' does not produce a valid slug."));
    assert_eq!(missing_category(), bad("Selected category does not exist."));
}

#[test]
fn post_status_normalization() {
    assert_eq!(normalize_status("published"), "published");
    assert_eq!(normalize_status("archived"), "archived");
    assert_eq!(normalize_status("draft"), "draft");
    assert_eq!(normalize_status("Published"), "draft");
    assert_eq!(normalize_status(""), "draft");
}

#[test]
fn category_id_field() {
    assert_eq!(parse_category_id(" 7 "), Some(7));
    assert_eq!(parse_category_id("0"), None);
    assert_eq!(parse_category_id("-3"), None);
    assert_eq!(parse_category_id("x"), None);
    assert_eq!(parse_category_id(""), None);
}

#[test]
fn optional_text_fields() {
    assert_eq!(option_str("  cover.png "), Some("cover.png"));
    assert_eq!(option_str(" \n "), None);
    assert_eq!(category_description(" about rust "), Some("about rust"));
    assert_eq!(category_description(""), None);
}

#[test]
fn required_fields() {
    assert_eq!(required_title("  Hi "), Ok("Hi"));
    assert_eq!(required_title("   "), Err(bad("Title is required.")));
    assert_eq!(required_name(" Rust "), Ok("Rust"));
    assert_eq!(required_name(""), Err(bad("Name is required.")));
}

#[test]
fn tag_list_is_split_trimmed_and_blanks_dropped() {
    assert_eq!(split_tag_names(" rust, web ,, ,cli"), vec!["rust", "web", "cli"]);
    assert_eq!(split_tag_names(""), Vec::<String>::new());
    assert_eq!(split_tag_names("one"), vec!["one"]);
}

fn tag(name: &str) -> Tag {
    Tag { id: 1, name: name.to_string(), slug: name.to_lowercase() }
}

#[test]
fn tags_are_joined_for_the_editor() {
    assert_eq!(tags_csv(&vec![tag("rust"), tag("web"), tag("cli")]), "rust, web, cli");
    assert_eq!(tags_csv(&vec![tag("solo")]), "solo");
    assert_eq!(tags_csv(&Vec::new()), "");
}

fn post(status: &str) -> Post {
    Post {
        id: 1,
        title: "t".to_string(),
        slug: "t".to_string(),
        summary: None,
        content_md: String::new(),
        content_html: String::new(),
        cover_image: None,
        status: status.to_string(),
        category_id: None,
        created_at: String::new(),
        updated_at: String::new(),
        published_at: None,
    }
}

#[test]
fn dashboard_counts_by_status() {
    let posts = vec![post("published"), post("draft"), post("published"), post("archived")];
    assert_eq!(count_with_status(&posts, "published"), 2);
    assert_eq!(count_with_status(&posts, "draft"), 1);
    assert_eq!(count_with_status(&posts, "archived"), 1);
    assert_eq!(count_with_status(&posts, "other"), 0);
}

#[test]
fn settings_posts_per_page_field() {
    assert_eq!(posts_per_page_value(" 15 "), 15);
    assert_eq!(posts_per_page_value("abc"), 10);
    assert_eq!(posts_per_page_value("0"), 1);
    assert_eq!(posts_per_page_value("1000"), 100);
}

#[test]
fn settings_form_rows() {
    let form = SettingsForm {
        site_name: " My Site ".to_string(),
        site_subtitle: "sub".to_string(),
        site_description: "desc ".to_string(),
        footer_copyright: "(c)".to_string(),
        about_content: "  keep spaces  ".to_string(),
        posts_per_page: "7".to_string(),
        seo_title_template: " {title} ".to_string(),
        csrf_token: "tok".to_string(),
    };
    let rows = settings_pairs(&form);
    let expected: Vec<(String, String)> = vec![
        ("site_name", "My Site"),
        ("site_subtitle", "sub"),
        ("site_description", "desc"),
        ("footer_copyright", "(c)"),
        ("about_content", "  keep spaces  "),
        ("posts_per_page", "7"),
        ("seo_title_template", "{title}"),
    ]
    .into_iter()
    .map(|(k, v)| (k.to_string(), v.to_string()))
    .collect();
    assert_eq!(rows, expected);
}

#[test]
fn usernames() {
    assert_eq!(validate_username("alice_01-x"), Ok(()));
    assert_eq!(validate_username(""), Err(bad("Username must be 1–40 characters.")));
    assert_eq!(validate_username(&"a".repeat(41)), Err(bad("Username must be 1–40 characters.")));
    assert_eq!(validate_username(&"a".repeat(40)), Ok(()));
    assert_eq!(
        validate_username("bad name"),
        Err(bad("Username may only contain letters, digits, underscores, and dashes."))
    );
    assert_eq!(
        validate_username("émile"),
        Err(bad("Username may only contain letters, digits, underscores, and dashes."))
    );
}

#[test]
fn passwords_need_eight_bytes() {
    assert_eq!(validate_new_password("12345678"), Ok(()));
    assert_eq!(validate_new_password("1234567"), Err(bad("Password must be at least 8 characters.")));
    // Four two-byte characters are eight bytes.
    assert_eq!(validate_new_password("éééé"), Ok(()));
}

#[test]
fn roles() {
    assert_eq!(normalize_role(" admin "), "admin");
    assert_eq!(normalize_role("root"), "user");
    assert_eq!(check_role_change(2, 1, "user"), Ok("user"));
    assert_eq!(check_role_change(1, 1, "admin"), Ok("admin"));
    assert_eq!(check_role_change(1, 1, "user"), Err(bad("You can't demote yourself.")));
    assert_eq!(check_role_change(1, 1, " admin"), Err(bad("You can't demote yourself.")));
    assert_eq!(check_user_delete(2, 1), Ok(()));
    assert_eq!(check_user_delete(1, 1), Err(bad("You can't delete yourself.")));
}

#[test]
fn login_page_messages() {
    assert_eq!(
        login_error_message(&AppError::Unauthorized),
        Some("Invalid username or password.".to_string())
    );
    assert_eq!(
        login_error_message(&AppError::TooManyRequests { retry_after_secs: 42 }),
        Some("Too many failed attempts. Try again in 42s.".to_string())
    );
    assert_eq!(login_error_message(&AppError::Forbidden), None);
}

fn admin() -> AuthContext {
    AuthContext {
        user: User {
            id: 1,
            username: "admin".to_string(),
            password_hash: String::new(),
            created_at: String::new(),
            updated_at: String::new(),
            display_name: None,
            bio: None,
            avatar_url: None,
            role: "admin".to_string(),
        },
        session: Session {
            id: "sid".to_string(),
            user_id: 1,
            csrf_token: "tok123".to_string(),
            created_at: String::new(),
            expires_at: String::new(),
        },
    }
}

#[test]
fn upload_form_steps() {
    let auth = admin();
    let mut form = UploadForm::new();
    assert_eq!(form.step("file"), Err(AppError::Forbidden));
    assert_eq!(form.step("other"), Ok(UploadFieldStep::Skip));
    assert_eq!(form.step("csrf_token"), Ok(UploadFieldStep::ReadCsrf));
    assert_eq!(form.finish(), Err(AppError::Forbidden));
    assert_eq!(form.accept_csrf(&auth, "wrong"), Err(AppError::Forbidden));
    assert!(!form.csrf_verified);
    assert_eq!(form.accept_csrf(&auth, "tok123"), Ok(()));
    assert_eq!(form.step("csrf_token"), Ok(UploadFieldStep::Skip));
    assert_eq!(form.step("file"), Ok(UploadFieldStep::StoreFile));
    assert_eq!(form.finish(), Ok(()));
}

#[test]
fn upload_limits_and_names() {
    assert_eq!(MAX_BYTES, 5 * 1024 * 1024);
    assert_eq!(add_csrf_chunk(1000, 24), Ok(1024));
    assert_eq!(add_csrf_chunk(1000, 25), Err(bad("CSRF token is too large.")));
    assert_eq!(guess_extension("image/jpeg"), "jpg");
    assert_eq!(guess_extension("text/plain"), "bin");
    assert_eq!(sanitize_ext("P.N-G!"), "png");
    assert_eq!(sanitize_ext("abcdefghijk"), "abcdefgh");
}
