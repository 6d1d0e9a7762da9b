//! The records the site stores and shows: posts, statuses, users and their relations.

use vstd::prelude::*;
use crate::text::{all_white_space, is_blank, parse_u32, parse_u32_spec, str_eq};

verus! {

broadcast use vstd::string::group_string_axioms;

/// An uploaded file.
#[derive(Debug)]
pub struct Asset {
    pub id: i64,
    pub original_name: String,
    pub stored_path: String,
    pub mime: String,
    pub byte_size: i64,
    pub created_at: String,
}

/// A blog category.
#[derive(Debug, Clone)]
pub struct Category {
    pub id: i64,
    pub name: String,
    pub slug: String,
    pub description: Option<String>,
}

/// One account following another.
#[derive(Debug, Clone)]
pub struct Follow {
    pub follower_id: i64,
    pub followee_id: i64,
    pub created_at: String,
}

/// A user's like of a status.
#[derive(Debug, Clone)]
pub struct Like {
    pub user_id: i64,
    pub status_id: i64,
    pub created_at: String,
}

/// A blog post.
#[derive(Debug, Clone)]
pub struct Post {
    pub id: i64,
    pub title: String,
    pub slug: String,
    pub summary: Option<String>,
    pub content_md: String,
    pub content_html: String,
    pub cover_image: Option<String>,
    pub status: String,
    pub category_id: Option<i64>,
    pub created_at: String,
    pub updated_at: String,
    pub published_at: Option<String>,
}

/// A post with its category and tags, as listed.
#[derive(Debug, Clone)]
pub struct PostListItem {
    pub post: Post,
    pub category: Option<Category>,
    pub tags: Vec<Tag>,
}

/// The published posts of one month.
#[derive(Debug, Clone)]
pub struct ArchiveMonth {
    pub year: String,
    pub month: String,
    pub posts: Vec<Post>,
}

/// A signed-in session.
#[derive(Debug)]
pub struct Session {
    pub id: String,
    pub user_id: i64,
    pub csrf_token: String,
    pub created_at: String,
    pub expires_at: String,
}

/// Editable site settings.
#[derive(Debug, Clone)]
pub struct SiteSettings {
    pub site_name: String,
    pub site_subtitle: String,
    pub site_description: String,
    pub footer_copyright: String,
    pub about_content: String,
    pub posts_per_page: u32,
    pub seo_title_template: String,
}

/// The value stored for `key` among the `(key, value)` rows; a later row overrides an
/// earlier one, as when the rows are collected into a map.
pub open spec fn setting_value(rows: Seq<(String, String)>, key: Seq<char>) -> Option<Seq<char>>
    decreases rows.len(),
{
    if rows.len() == 0 {
        None
    } else if rows.last().0@ == key {
        Some(rows.last().1@)
    } else {
        setting_value(rows.drop_last(), key)
    }
}

/// A text setting, or the empty string when it is missing.
pub open spec fn text_setting(rows: Seq<(String, String)>, key: Seq<char>) -> Seq<char> {
    match setting_value(rows, key) {
        Some(v) => v,
        None => seq![],
    }
}

/// `posts_per_page`: the stored value when it parses as a `u32`, else 10.
pub open spec fn posts_per_page_setting(rows: Seq<(String, String)>) -> u32 {
    match setting_value(rows, "posts_per_page"@) {
        Some(v) => match parse_u32_spec(v) {
            Some(n) => n,
            None => 10,
        },
        None => 10,
    }
}

/// The value stored for `key`, scanning from the last row.
fn find_setting<'a>(rows: &'a Vec<(String, String)>, key: &str) -> (r: Option<&'a String>)
    ensures
        match r {
            Some(v) => setting_value(rows@, key@) == Some(v@),
            None => setting_value(rows@, key@) is None,
        },
{
    let mut i = rows.len();
    assert(rows@.take(i as int) =~= rows@);
    while i > 0
        invariant
            i <= rows.len(),
            setting_value(rows@, key@) == setting_value(rows@.take(i as int), key@),
        decreases i,
    {
        let ghost t = rows@.take(i as int);
        assert(t.drop_last() =~= rows@.take(i - 1));
        assert(t.last() == rows@[i - 1]);
        if str_eq(rows[i - 1].0.as_str(), key) {
            return Some(&rows[i - 1].1);
        }
        i -= 1;
    }
    None
}

/// A text setting, or the empty string.
fn text_or_empty(rows: &Vec<(String, String)>, key: &str) -> (r: String)
    ensures
        r@ == text_setting(rows@, key@),
{
    match find_setting(rows, key) {
        Some(v) => v.clone(),
        None => String::new(),
    }
}

impl Default for SiteSettings {
    /// Empty settings: every text empty and no posts per page.
    fn default() -> (r: Self)
        ensures
            r.site_name@ == Seq::<char>::empty(),
            r.site_subtitle@ == Seq::<char>::empty(),
            r.site_description@ == Seq::<char>::empty(),
            r.footer_copyright@ == Seq::<char>::empty(),
            r.about_content@ == Seq::<char>::empty(),
            r.posts_per_page == 0,
            r.seo_title_template@ == Seq::<char>::empty(),
    {
        SiteSettings {
            site_name: String::new(),
            site_subtitle: String::new(),
            site_description: String::new(),
            footer_copyright: String::new(),
            about_content: String::new(),
            posts_per_page: 0,
            seo_title_template: String::new(),
        }
    }
}

impl SiteSettings {
    /// Builds the settings from stored `(key, value)` rows: missing text settings are
    /// empty, `posts_per_page` falls back to 10 and `seo_title_template` to
    /// `{title} | {site_name}`.
    pub fn from_map(map: &Vec<(String, String)>) -> (r: Self)
        ensures
            r.site_name@ == text_setting(map@, "site_name"@),
            r.site_subtitle@ == text_setting(map@, "site_subtitle"@),
            r.site_description@ == text_setting(map@, "site_description"@),
            r.footer_copyright@ == text_setting(map@, "footer_copyright"@),
            r.about_content@ == text_setting(map@, "about_content"@),
            r.posts_per_page == posts_per_page_setting(map@),
            r.seo_title_template@ == match setting_value(map@, "seo_title_template"@) {
                Some(v) => v,
                None => "{title} | {site_name}"@,
            },
    {
        let posts_per_page = match find_setting(map, "posts_per_page") {
            Some(v) => match parse_u32(v.as_str()) {
                Some(n) => n,
                None => 10,
            },
            None => 10,
        };
        let seo_title_template = match find_setting(map, "seo_title_template") {
            Some(v) => v.clone(),
            None => String::from_str("{title} | {site_name}"),
        };
        SiteSettings {
            site_name: text_or_empty(map, "site_name"),
            site_subtitle: text_or_empty(map, "site_subtitle"),
            site_description: text_or_empty(map, "site_description"),
            footer_copyright: text_or_empty(map, "footer_copyright"),
            about_content: text_or_empty(map, "about_content"),
            posts_per_page,
            seo_title_template,
        }
    }
}

/// A microblog status: a post, a reply (with `parent_id`) or a repost (with
/// `repost_of_id`, and a quote when it has a body).
#[derive(Debug)]
pub struct Status {
    pub id: i64,
    pub user_id: i64,
    pub content_md: String,
    pub content_html: String,
    pub parent_id: Option<i64>,
    pub repost_of_id: Option<i64>,
    pub reply_count: i64,
    pub like_count: i64,
    pub repost_count: i64,
    pub created_at: String,
}

impl Status {
    /// A reply to another status.
    pub fn is_reply(&self) -> (b: bool)
        ensures
            b == self.parent_id is Some,
    {
        self.parent_id.is_some()
    }

    /// A repost of another status.
    pub fn is_repost(&self) -> (b: bool)
        ensures
            b == self.repost_of_id is Some,
    {
        self.repost_of_id.is_some()
    }

    /// A repost with a body of its own.
    pub fn is_quote_repost(&self) -> (b: bool)
        ensures
            b == (self.repost_of_id is Some && !all_white_space(self.content_md@)),
    {
        self.is_repost() && !is_blank(self.content_md.as_str())
    }
}

/// A status ready to render, with its author, attachments, what the viewer did to it,
/// and, for a repost, the original.
#[derive(Debug)]
pub struct StatusView {
    pub status: Status,
    pub author: User,
    pub assets: Vec<Asset>,
    pub viewer_liked: bool,
    pub viewer_reposted: bool,
    pub original: Option<Box<StatusView>>,
}

/// A tag of blog posts.
#[derive(Debug, Clone)]
pub struct Tag {
    pub id: i64,
    pub name: String,
    pub slug: String,
}

/// An account.
#[derive(Debug)]
pub struct User {
    pub id: i64,
    pub username: String,
    pub password_hash: String,
    pub created_at: String,
    pub updated_at: String,
    pub display_name: Option<String>,
    pub bio: Option<String>,
    pub avatar_url: Option<String>,
    pub role: String,
}

/// The name shown for a user: the display name when it is not blank, else the username.
pub open spec fn display_label_spec(user: User) -> Seq<char> {
    match user.display_name {
        Some(name) if !all_white_space(name@) => name@,
        _ => user.username@,
    }
}

impl User {
    /// The account has the `admin` role.
    pub fn is_admin(&self) -> (b: bool)
        ensures
            b == (self.role@ == "admin"@),
    {
        str_eq(self.role.as_str(), "admin")
    }

    /// The display name when it is not blank, else the username.
    pub fn display_label(&self) -> (r: &str)
        ensures
            r@ == display_label_spec(*self),
    {
        match &self.display_name {
            Some(name) => {
                if !is_blank(name.as_str()) {
                    name.as_str()
                } else {
                    self.username.as_str()
                }
            },
            None => self.username.as_str(),
        }
    }
}

/// A copy of an optional string.
pub fn clone_opt_string(o: &Option<String>) -> (r: Option<String>)
    ensures
        r == *o,
{
    match o {
        Some(s) => Some(s.clone()),
        None => None,
    }
}

impl Clone for Asset {
    fn clone(&self) -> (r: Self)
        ensures
            r == *self,
    {
        Asset {
            id: self.id,
            original_name: self.original_name.clone(),
            stored_path: self.stored_path.clone(),
            mime: self.mime.clone(),
            byte_size: self.byte_size,
            created_at: self.created_at.clone(),
        }
    }
}

impl Clone for Session {
    fn clone(&self) -> (r: Self)
        ensures
            r == *self,
    {
        Session {
            id: self.id.clone(),
            user_id: self.user_id,
            csrf_token: self.csrf_token.clone(),
            created_at: self.created_at.clone(),
            expires_at: self.expires_at.clone(),
        }
    }
}

impl Clone for Status {
    fn clone(&self) -> (r: Self)
        ensures
            r == *self,
    {
        Status {
            id: self.id,
            user_id: self.user_id,
            content_md: self.content_md.clone(),
            content_html: self.content_html.clone(),
            parent_id: self.parent_id,
            repost_of_id: self.repost_of_id,
            reply_count: self.reply_count,
            like_count: self.like_count,
            repost_count: self.repost_count,
            created_at: self.created_at.clone(),
        }
    }
}

impl Clone for User {
    fn clone(&self) -> (r: Self)
        ensures
            r == *self,
    {
        User {
            id: self.id,
            username: self.username.clone(),
            password_hash: self.password_hash.clone(),
            created_at: self.created_at.clone(),
            updated_at: self.updated_at.clone(),
            display_name: clone_opt_string(&self.display_name),
            bio: clone_opt_string(&self.bio),
            avatar_url: clone_opt_string(&self.avatar_url),
            role: self.role.clone(),
        }
    }
}

} // verus!
