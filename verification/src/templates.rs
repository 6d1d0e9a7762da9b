//! The data each page template is rendered from.

use vstd::prelude::*;
use crate::domain::{ArchiveMonth, Category, Post, PostListItem, SiteSettings, Tag, User};

verus! {

/// The signed-in viewer as pages show them: the account and the token its forms send.
#[derive(Debug, Clone)]
pub struct ViewerContext {
    pub user: User,
    pub csrf_token: String,
}

impl ViewerContext {
    /// The viewer context of `user` with the session's CSRF token.
    pub fn from_user(user: &User, csrf_token: &String) -> (r: Self)
        ensures
            r.user == *user,
            r.csrf_token@ == csrf_token@,
    {
        ViewerContext { user: user.clone(), csrf_token: csrf_token.clone() }
    }
}

/// The blog index.
#[derive(Debug)]
pub struct IndexTemplate {
    pub site_name: String,
    pub site_description: String,
    pub posts: Vec<PostListItem>,
    pub page: u32,
    pub total_pages: u32,
    pub categories: Vec<Category>,
    pub tags: Vec<Tag>,
}

/// One blog post.
#[derive(Debug)]
pub struct PostDetailTemplate {
    pub site_name: String,
    pub site_description: String,
    pub site_url: String,
    pub post: Post,
    pub category: Option<Category>,
    pub tags: Vec<Tag>,
}

/// The posts of a category.
#[derive(Debug)]
pub struct CategoryTemplate {
    pub site_name: String,
    pub site_description: String,
    pub category: Category,
    pub posts: Vec<PostListItem>,
    pub page: u32,
    pub total_pages: u32,
}

/// The posts of a tag.
#[derive(Debug)]
pub struct TagTemplate {
    pub site_name: String,
    pub site_description: String,
    pub tag: Tag,
    pub posts: Vec<PostListItem>,
    pub page: u32,
    pub total_pages: u32,
}

/// Published posts by month.
#[derive(Debug)]
pub struct ArchiveTemplate {
    pub site_name: String,
    pub site_description: String,
    pub months: Vec<ArchiveMonth>,
}

/// Search results.
#[derive(Debug)]
pub struct SearchTemplate {
    pub site_name: String,
    pub site_description: String,
    pub query: String,
    pub posts: Vec<PostListItem>,
}

/// The about page.
#[derive(Debug)]
pub struct AboutTemplate {
    pub site_name: String,
    pub site_description: String,
}

/// The page for an unknown path.
#[derive(Debug)]
pub struct NotFoundTemplate {
    pub site_name: String,
    pub site_description: String,
}

/// One entry of the RSS feed.
#[derive(Debug, Clone)]
pub struct FeedItem {
    pub title: String,
    pub url: String,
    pub pub_date_rfc2822: String,
    pub summary: String,
}

/// One entry of the sitemap.
#[derive(Debug, Clone)]
pub struct SitemapItem {
    pub url: String,
    pub lastmod: String,
}

/// The RSS feed.
#[derive(Debug)]
pub struct RssTemplate {
    pub site_name: String,
    pub site_description: String,
    pub site_url: String,
    pub last_build_rfc2822: String,
    pub items: Vec<FeedItem>,
}

/// The sitemap.
#[derive(Debug)]
pub struct SitemapTemplate {
    pub site_url: String,
    pub items: Vec<SitemapItem>,
}

/// The admin login form.
#[derive(Debug)]
pub struct AdminLoginTemplate {
    pub site_name: String,
    pub site_description: String,
    pub error: Option<String>,
    pub username: String,
}

/// The admin dashboard.
#[derive(Debug)]
pub struct AdminDashboardTemplate {
    pub site_name: String,
    pub site_description: String,
    pub username: String,
    pub csrf_token: String,
    pub total_posts: usize,
    pub published: usize,
    pub drafts: usize,
    pub archived: usize,
    pub category_count: usize,
    pub tag_count: usize,
}

/// The admin list of posts.
#[derive(Debug)]
pub struct AdminPostsTemplate {
    pub site_name: String,
    pub site_description: String,
    pub username: String,
    pub csrf_token: String,
    pub posts: Vec<Post>,
}

/// The admin post editor.
#[derive(Debug)]
pub struct AdminPostEditTemplate {
    pub site_name: String,
    pub site_description: String,
    pub username: String,
    pub csrf_token: String,
    pub is_edit: bool,
    pub post_id: Option<i64>,
    pub title: String,
    pub slug: String,
    pub summary: String,
    pub content_md: String,
    pub cover_image: String,
    pub status: String,
    pub category_id: i64,
    pub tags_csv: String,
    pub categories: Vec<Category>,
    pub all_tags: Vec<Tag>,
    pub error: Option<String>,
}

/// The admin list of categories.
#[derive(Debug)]
pub struct AdminCategoriesTemplate {
    pub site_name: String,
    pub site_description: String,
    pub username: String,
    pub csrf_token: String,
    pub categories: Vec<Category>,
}

/// The admin list of tags.
#[derive(Debug)]
pub struct AdminTagsTemplate {
    pub site_name: String,
    pub site_description: String,
    pub username: String,
    pub csrf_token: String,
    pub tags: Vec<Tag>,
}

/// The admin settings form.
#[derive(Debug)]
pub struct AdminSettingsTemplate {
    pub site_name: String,
    pub site_description: String,
    pub username: String,
    pub csrf_token: String,
    pub settings: SiteSettings,
    pub message: Option<String>,
}

/// The kinds of rendered response.
#[derive(Debug, Clone, Copy, PartialEq, Eq, Structural)]
pub enum RenderedKind {
    Html,
    Xml,
}

/// The headers of a rendered page, in order: its content type, then `nosniff`, and for
/// HTML a same-origin referrer policy.
pub open spec fn rendered_headers_spec(kind: RenderedKind) -> Seq<(Seq<char>, Seq<char>)> {
    match kind {
        RenderedKind::Html => seq![
            ("content-type"@, "text/html; charset=utf-8"@),
            ("x-content-type-options"@, "nosniff"@),
            ("referrer-policy"@, "same-origin"@),
        ],
        RenderedKind::Xml => seq![
            ("content-type"@, "application/xml; charset=utf-8"@),
            ("x-content-type-options"@, "nosniff"@),
        ],
    }
}

/// The headers of a rendered page, in order.
pub fn rendered_headers(kind: RenderedKind) -> (r: Vec<(&'static str, &'static str)>)
    ensures
        r@.map_values(|h: (&'static str, &'static str)| (h.0@, h.1@)) == rendered_headers_spec(
            kind,
        ),
{
    let mut r: Vec<(&'static str, &'static str)> = Vec::new();
    match kind {
        RenderedKind::Html => {
            r.push(("content-type", "text/html; charset=utf-8"));
            r.push(("x-content-type-options", "nosniff"));
            r.push(("referrer-policy", "same-origin"));
        },
        RenderedKind::Xml => {
            r.push(("content-type", "application/xml; charset=utf-8"));
            r.push(("x-content-type-options", "nosniff"));
        },
    }
    assert(r@.map_values(|h: (&'static str, &'static str)| (h.0@, h.1@)) =~= rendered_headers_spec(
        kind,
    ));
    r
}

} // verus!
