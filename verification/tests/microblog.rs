use vlog::domain::{Session, User};
use vlog::error::AppError;
use vlog::handlers::microblog::hashtag::normalize_tag;
use vlog::handlers::microblog::me::{
    add_csrf_chunk, avatar_field_kind, profile_value, AvatarFieldKind, AvatarForm,
};
use vlog::handlers::microblog::profile::{check_follow_target, follow_state_viewer, profile_path};
use vlog::handlers::microblog::status::{
    add_text_chunk, apply_id_field, check_delete, check_repost, compose_field_kind,
    compose_redirect_target, file_field_decision, redirect_back, status_path, ComposeFieldKind,
    ComposeForm,
};
use vlog::handlers::microblog::{page_number, total_pages, viewer_from, PER_PAGE};
use vlog::handlers::post;
use vlog::services::admin_guard::AuthContext;

fn bad(m: &str) -> AppError {
    AppError::BadRequest(m.to_string())
}

fn signed_in(id: i64, token: &str) -> AuthContext {
    AuthContext {
        user: User {
            id,
            username: "carol".to_string(),
            password_hash: String::new(),
            created_at: String::new(),
            updated_at: String::new(),
            display_name: None,
            bio: None,
            avatar_url: None,
            role: "user".to_string(),
        },
        session: Session {
            id: "sid".to_string(),
            user_id: id,
            csrf_token: token.to_string(),
            created_at: String::new(),
            expires_at: String::new(),
        },
    }
}

#[test]
fn pages() {
    assert_eq!(page_number(None), 1);
    assert_eq!(page_number(Some(0)), 1);
    assert_eq!(page_number(Some(3)), 3);
    assert_eq!(PER_PAGE, 20);
    assert_eq!(total_pages(0, 20), 1);
    assert_eq!(total_pages(-5, 20), 1);
    assert_eq!(total_pages(20, 20), 1);
    assert_eq!(total_pages(21, 20), 2);
    assert_eq!(total_pages(41, 0), 41);
    assert_eq!(post::total_pages(95, 10), 10);
    assert_eq!(post::posts_per_page(0), 1);
    assert_eq!(post::posts_per_page(12), 12);
}

#[test]
fn viewer_of_a_page() {
    assert!(viewer_from(None).is_none());
    let auth = signed_in(4, "t");
    let v = viewer_from(Some(&auth)).unwrap();
    assert_eq!(v.user.id, 4);
    assert_eq!(v.csrf_token, "t");
}

#[test]
fn hashtag_path_keeps_word_characters() {
    assert_eq!(normalize_tag("rust-lang!"), "rustlang");
    assert_eq!(normalize_tag("日本_語"), "日本_語");
    assert_eq!(normalize_tag("%%"), "");
}

#[test]
fn profile_fields() {
    assert_eq!(profile_value("  Carol "), Some("Carol"));
    assert_eq!(profile_value("   "), None);
    assert_eq!(profile_path("carol"), "/u/carol");
}

#[test]
fn follows() {
    assert_eq!(check_follow_target(2, 1), Ok(()));
    assert_eq!(check_follow_target(1, 1), Err(bad("You can't follow yourself.")));
    assert_eq!(follow_state_viewer(Some(1), 2), Some(1));
    assert_eq!(follow_state_viewer(Some(2), 2), None);
    assert_eq!(follow_state_viewer(None, 2), None);
}

#[test]
fn status_paths() {
    assert_eq!(status_path(42), "/s/42");
    assert_eq!(status_path(-1), "/s/-1");
    assert_eq!(compose_redirect_target(Some(7), 9), "/s/7");
    assert_eq!(compose_redirect_target(None, 9), "/s/9");
}

#[test]
fn id_fields() {
    assert_eq!(apply_id_field(None, " 12 "), Some(12));
    assert_eq!(apply_id_field(Some(3), "  "), Some(3));
    assert_eq!(apply_id_field(Some(3), "abc"), None);
}

#[test]
fn file_fields() {
    assert_eq!(file_field_decision(false, Some("a.png"), 0), Err(AppError::Forbidden));
    assert_eq!(file_field_decision(true, None, 0), Ok(false));
    assert_eq!(file_field_decision(true, Some(""), 0), Ok(false));
    assert_eq!(file_field_decision(true, Some("a.png"), 3), Ok(true));
    assert_eq!(
        file_field_decision(true, Some("a.png"), 4),
        Err(bad("Up to 4 attachments per status."))
    );
}

#[test]
fn text_field_limit() {
    assert_eq!(add_text_chunk(16000, 384), Ok(16384));
    assert_eq!(add_text_chunk(16000, 385), Err(bad("Field is too long.")));
}

#[test]
fn reposts_and_deletes() {
    assert_eq!(check_repost(1, 2), Ok(()));
    assert_eq!(check_repost(2, 2), Err(bad("You can't repost your own status.")));
    assert_eq!(check_delete(1, 1, false), Ok(()));
    assert_eq!(check_delete(1, 2, true), Ok(()));
    assert_eq!(check_delete(1, 2, false), Err(AppError::Forbidden));
}

#[test]
fn redirect_back_accepts_paths_and_urls_only() {
    assert_eq!(redirect_back(Some("/home"), "/s/1"), "/home");
    assert_eq!(redirect_back(Some("https://x.org/a"), "/s/1"), "https://x.org/a");
    assert_eq!(redirect_back(Some("javascript:alert(1)"), "/s/1"), "/s/1");
    assert_eq!(redirect_back(Some(""), "/s/1"), "/s/1");
    assert_eq!(redirect_back(None, "/s/1"), "/s/1");
}

#[test]
fn compose_field_names() {
    assert_eq!(compose_field_kind("csrf_token"), ComposeFieldKind::CsrfToken);
    assert_eq!(compose_field_kind("parent_id"), ComposeFieldKind::ParentId);
    assert_eq!(compose_field_kind("repost_of_id"), ComposeFieldKind::RepostOfId);
    assert_eq!(compose_field_kind("content_md"), ComposeFieldKind::ContentMd);
    assert_eq!(compose_field_kind("files"), ComposeFieldKind::Files);
    assert_eq!(compose_field_kind("file"), ComposeFieldKind::Other);
}

#[test]
fn compose_form_reads_fields() {
    let auth = signed_in(5, "tok");
    let mut form = ComposeForm::new();
    assert_eq!(form.accept_file(Some("a.png")), Err(AppError::Forbidden));
    assert_eq!(
        form.accept_text(&auth, ComposeFieldKind::CsrfToken, "nope".to_string()),
        Err(AppError::Forbidden)
    );
    assert!(!form.csrf_verified);
    assert_eq!(form.finish(), Err(AppError::Forbidden));
    assert_eq!(form.accept_text(&auth, ComposeFieldKind::CsrfToken, "tok".to_string()), Ok(()));
    assert_eq!(form.accept_text(&auth, ComposeFieldKind::ParentId, " 8 ".to_string()), Ok(()));
    assert_eq!(form.accept_text(&auth, ComposeFieldKind::RepostOfId, "".to_string()), Ok(()));
    assert_eq!(
        form.accept_text(&auth, ComposeFieldKind::ContentMd, "hello #rust".to_string()),
        Ok(())
    );
    assert_eq!(form.accept_text(&auth, ComposeFieldKind::Other, "x".to_string()), Ok(()));
    for id in [11, 12, 13, 14] {
        assert_eq!(form.accept_file(Some("a.png")), Ok(true));
        form.file_stored(id);
    }
    assert_eq!(form.accept_file(Some("e.png")), Err(bad("Up to 4 attachments per status.")));
    assert_eq!(form.finish(), Ok(()));
    let input = form.compose_input(5);
    assert_eq!(input.user_id, 5);
    assert_eq!(input.content_md, "hello #rust");
    assert_eq!(input.parent_id, Some(8));
    assert_eq!(input.repost_of_id, None);
    assert_eq!(input.asset_ids, &[11, 12, 13, 14]);
}

#[test]
fn avatar_form() {
    let auth = signed_in(5, "tok");
    assert_eq!(avatar_field_kind("csrf_token"), AvatarFieldKind::CsrfToken);
    assert_eq!(avatar_field_kind("file"), AvatarFieldKind::File);
    assert_eq!(avatar_field_kind("files"), AvatarFieldKind::Other);
    let mut form = AvatarForm::new();
    assert_eq!(form.accept_file(Some("me.png")), Err(AppError::Forbidden));
    assert_eq!(form.accept_csrf(&auth, "bad"), Err(AppError::Forbidden));
    assert_eq!(form.finish(), Err(AppError::Forbidden));
    assert_eq!(form.accept_csrf(&auth, "tok"), Ok(()));
    assert_eq!(form.finish(), Ok(None));
    assert_eq!(form.accept_file(None), Ok(false));
    assert_eq!(form.accept_file(Some("")), Ok(false));
    assert_eq!(form.accept_file(Some("me.png")), Ok(true));
    form.file_stored("/static/uploads/a.png".to_string());
    form.file_stored("/static/uploads/b.png".to_string());
    assert_eq!(form.finish(), Ok(Some("/static/uploads/b.png")));
    assert_eq!(add_csrf_chunk(4000, 96), Ok(4096));
    assert_eq!(add_csrf_chunk(4000, 97), Err(bad("CSRF token too large.")));
}
