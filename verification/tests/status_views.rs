use vlog::domain::{Asset, Status, User};
use vlog::error::AppError;
use vlog::services::status_service::{
    assemble_from_lookups, author_ids, lookup_status_ids, prepare_status, render_status_html,
    repost_target_ids, ComposeInput, StatusLookups, MAX_STATUS_BYTES,
};

fn bad(m: &str) -> AppError {
    AppError::BadRequest(m.to_string())
}

fn input<'a>(body: &'a str, repost: Option<i64>) -> ComposeInput<'a> {
    ComposeInput { user_id: 1, content_md: body, parent_id: None, repost_of_id: repost, asset_ids: &[] }
}

#[test]
fn empty_status_is_refused_unless_a_repost() {
    assert_eq!(prepare_status(&input("  \n ", None)), Err(bad("Status body cannot be empty.")));
    let (body, html) = prepare_status(&input("   ", Some(4))).unwrap();
    assert_eq!(body, "");
    assert_eq!(html, "");
}

#[test]
fn long_status_is_refused() {
    let just_right = "a".repeat(MAX_STATUS_BYTES);
    assert!(prepare_status(&input(&just_right, None)).is_ok());
    let too_long = "a".repeat(MAX_STATUS_BYTES + 1);
    assert_eq!(prepare_status(&input(&too_long, None)), Err(bad("Status is too long (max 8 KiB).")));
    // Multi-byte characters count by their bytes: 4097 two-byte characters are too long.
    let wide = "é".repeat(4097);
    assert_eq!(prepare_status(&input(&wide, None)), Err(bad("Status is too long (max 8 KiB).")));
}

#[test]
fn composed_status_is_trimmed_and_rendered() {
    let (body, html) = prepare_status(&input("  hi @bob  ", None)).unwrap();
    assert_eq!(body, "hi @bob");
    assert_eq!(html, "<p>hi <a class=\"mention\" href=\"/u/bob\">@bob</a></p>\n");
}

#[test]
fn status_markdown_is_rendered_then_linked() {
    let html = render_status_html("**bold** and #tag");
    assert_eq!(
        html,
        "<p><strong>bold</strong> and <a class=\"hashtag\" href=\"/h/tag\">#tag</a></p>\n"
    );
    let code = render_status_html("`#nope` #yes");
    assert!(code.contains("<code>#nope</code>"));
    assert!(code.contains("href=\"/h/yes\""));
}

fn status(id: i64, user_id: i64, repost: Option<i64>) -> Status {
    Status {
        id,
        user_id,
        content_md: format!("status {id}"),
        content_html: String::new(),
        parent_id: None,
        repost_of_id: repost,
        reply_count: 0,
        like_count: 0,
        repost_count: 0,
        created_at: "2024-01-01 00:00:00".to_string(),
    }
}

fn user(id: i64, name: &str) -> User {
    User {
        id,
        username: name.to_string(),
        password_hash: String::new(),
        created_at: String::new(),
        updated_at: String::new(),
        display_name: None,
        bio: None,
        avatar_url: None,
        role: "user".to_string(),
    }
}

fn asset(id: i64) -> Asset {
    Asset {
        id,
        original_name: format!("{id}.png"),
        stored_path: format!("/static/uploads/{id}.png"),
        mime: "image/png".to_string(),
        byte_size: 10,
        created_at: String::new(),
    }
}

#[test]
fn lookup_ids_of_a_page() {
    let page = vec![status(1, 10, None), status(2, 11, Some(7)), status(3, 10, Some(8))];
    assert_eq!(repost_target_ids(&page), vec![7, 8]);
    let originals = vec![status(7, 12, None), status(8, 10, None)];
    assert_eq!(lookup_status_ids(&page, &originals), vec![1, 2, 3, 7, 8]);
    let mut authors = author_ids(&page, &originals);
    authors.sort();
    assert_eq!(authors, vec![10, 11, 12]);
}

#[test]
fn views_carry_authors_assets_and_viewer_state() {
    let page = vec![
        status(1, 10, None),
        status(2, 11, Some(7)),
        status(3, 99, None),
        status(4, 10, Some(404)),
    ];
    let lookups = StatusLookups {
        originals: vec![status(7, 12, None)],
        users: vec![user(10, "ann"), user(11, "ben"), user(12, "cy")],
        assets: vec![(1, asset(100)), (7, asset(700)), (1, asset(101))],
        liked_ids: vec![1, 7],
        reposted_ids: vec![7],
    };
    let views = assemble_from_lookups(page, &lookups);
    // Status 3's author is unknown: it is left out.
    assert_eq!(views.len(), 3);

    assert_eq!(views[0].status.id, 1);
    assert_eq!(views[0].author.username, "ann");
    assert_eq!(views[0].assets.iter().map(|a| a.id).collect::<Vec<_>>(), vec![100, 101]);
    assert!(views[0].viewer_liked);
    assert!(!views[0].viewer_reposted);
    assert!(views[0].original.is_none());

    assert_eq!(views[1].status.id, 2);
    assert_eq!(views[1].author.username, "ben");
    assert!(views[1].assets.is_empty());
    let original = views[1].original.as_ref().unwrap();
    assert_eq!(original.status.id, 7);
    assert_eq!(original.author.username, "cy");
    assert_eq!(original.assets.iter().map(|a| a.id).collect::<Vec<_>>(), vec![700]);
    assert!(original.viewer_liked);
    assert!(original.viewer_reposted);
    assert!(original.original.is_none());

    // A repost whose original is gone is shown without it.
    assert_eq!(views[2].status.id, 4);
    assert!(views[2].original.is_none());
}

#[test]
fn later_user_rows_win() {
    let lookups = StatusLookups {
        originals: Vec::new(),
        users: vec![user(10, "old"), user(10, "new")],
        assets: Vec::new(),
        liked_ids: Vec::new(),
        reposted_ids: Vec::new(),
    };
    let views = assemble_from_lookups(vec![status(1, 10, None)], &lookups);
    assert_eq!(views[0].author.username, "new");
}

#[test]
fn empty_page_gives_no_views() {
    let lookups = StatusLookups {
        originals: Vec::new(),
        users: Vec::new(),
        assets: Vec::new(),
        liked_ids: Vec::new(),
        reposted_ids: Vec::new(),
    };
    assert!(assemble_from_lookups(Vec::new(), &lookups).is_empty());
}
