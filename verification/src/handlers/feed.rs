//! The RSS feed, the sitemap and `robots.txt`.

use vstd::prelude::*;
use crate::domain::Post;
use crate::templates::{FeedItem, SitemapItem};
use crate::text::append_str;
use crate::utils::datetime::{iso_date, iso_date_spec, rfc2822, rfc2822_of};

verus! {

broadcast use vstd::string::group_string_axioms;

/// How many posts the RSS feed lists.
pub const RSS_LIMIT: i64 = 20;

/// The public address of a post: the site URL, `/blog/posts/` and the slug.
pub fn post_url(site_url: &str, slug: &str) -> (r: String)
    ensures
        r@ == site_url@ + "/blog/posts/"@ + slug@,
{
    let mut out = String::new();
    append_str(&mut out, site_url);
    append_str(&mut out, "/blog/posts/");
    append_str(&mut out, slug);
    out
}

/// The body of `robots.txt`: everything but the admin area may be crawled, and the
/// sitemap is named.
pub fn robots_body(site_url: &str) -> (r: String)
    ensures
        r@ == "User-agent: *\nAllow: /\nDisallow: /admin\nSitemap: "@ + site_url@
            + "/sitemap.xml\n"@,
{
    let mut out = String::from_str("User-agent: *\nAllow: /\nDisallow: /admin\nSitemap: ");
    append_str(&mut out, site_url);
    append_str(&mut out, "/sitemap.xml\n");
    out
}

/// When a post was published, else when it was last updated.
pub open spec fn entry_timestamp_spec(post: Post) -> Seq<char> {
    match post.published_at {
        Some(p) => p@,
        None => post.updated_at@,
    }
}

/// The timestamp a feed or sitemap entry is dated by: when the post was published,
/// else when it was last updated.
pub fn entry_timestamp(post: &Post) -> (r: &str)
    ensures
        r@ == entry_timestamp_spec(*post),
{
    match &post.published_at {
        Some(p) => p.as_str(),
        None => post.updated_at.as_str(),
    }
}

/// The summary a feed entry shows: the post's summary, or nothing.
pub fn entry_summary(post: &Post) -> (r: String)
    ensures
        r@ == match post.summary {
            Some(s) => s@,
            None => Seq::<char>::empty(),
        },
{
    match &post.summary {
        Some(s) => s.clone(),
        None => String::new(),
    }
}

/// The RSS entry of a post: its title, its public address, its date in RFC 2822 form and
/// its summary.
pub fn feed_item(post: &Post, site_url: &str) -> (i: FeedItem)
    ensures
        i.title@ == post.title@,
        i.url@ == site_url@ + "/blog/posts/"@ + post.slug@,
        i.pub_date_rfc2822@ == rfc2822_of(entry_timestamp_spec(*post)),
        i.summary@ == match post.summary {
            Some(s) => s@,
            None => Seq::<char>::empty(),
        },
{
    FeedItem {
        title: post.title.clone(),
        url: post_url(site_url, post.slug.as_str()),
        pub_date_rfc2822: rfc2822(entry_timestamp(post)),
        summary: entry_summary(post),
    }
}

/// The sitemap entry of a post: its public address and the date it was last changed.
pub fn sitemap_item(post: &Post, site_url: &str) -> (i: SitemapItem)
    ensures
        i.url@ == site_url@ + "/blog/posts/"@ + post.slug@,
        i.lastmod@ == iso_date_spec(entry_timestamp_spec(*post)),
{
    SitemapItem { url: post_url(site_url, post.slug.as_str()), lastmod: iso_date(entry_timestamp(post)) }
}

} // verus!
