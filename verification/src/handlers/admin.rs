//! The admin area, and the checks its forms share.

pub mod auth;
pub mod categories;
pub mod dashboard;
pub mod posts;
pub mod settings;
pub mod tags;
pub mod upload;
pub mod users;

use vstd::prelude::*;
use crate::error::{is_bad_request, AppError};
use crate::utils::slug::{slug_spec, slugify};
use crate::text::{append_str, trim, trimmed};

verus! {

broadcast use vstd::string::group_string_axioms;

/// What a slug is made from: the slug field when it is not blank (trimmed), else `name`.
pub open spec fn slug_source_spec(name: Seq<char>, slug_field: Seq<char>) -> Seq<char> {
    if trim(slug_field).len() == 0 {
        name
    } else {
        trim(slug_field)
    }
}

/// What a slug is made from: the slug field when it is not blank (trimmed), else `name`.
pub fn slug_source<'a>(name: &'a str, slug_field: &'a str) -> (r: &'a str)
    ensures
        r@ == slug_source_spec(name@, slug_field@),
{
    let t = trimmed(slug_field);
    if t.is_empty() {
        name
    } else {
        t
    }
}

/// A slug must not normalise to nothing.
pub fn check_slug(slug: &str) -> (r: Result<(), AppError>)
    ensures
        r is Ok <==> slug@.len() > 0,
        r matches Err(e) ==> e matches AppError::BadRequest(m) && m@
            == "Slug cannot be empty after normalization."@,
{
    if slug.is_empty() {
        Err(AppError::BadRequest(String::from_str("Slug cannot be empty after normalization.")))
    } else {
        Ok(())
    }
}

/// `before`, then `value`, then `after`.
pub fn quoted_message(before: &str, value: &str, after: &str) -> (r: String)
    ensures
        r@ == before@ + value@ + after@,
{
    let mut out = String::new();
    append_str(&mut out, before);
    append_str(&mut out, value);
    append_str(&mut out, after);
    out
}

/// The conflict of a post slug that another post has.
pub fn post_slug_taken(slug: &str) -> (e: AppError)
    ensures
        e matches AppError::Conflict(m) && m@ == "A post with slug '"@ + slug@ + "' already exists."@,
{
    AppError::Conflict(quoted_message("A post with slug '", slug, "' already exists."))
}

/// The conflict of a category slug that another category has.
pub fn category_slug_taken(slug: &str) -> (e: AppError)
    ensures
        e matches AppError::Conflict(m) && m@ == "Category slug '"@ + slug@ + "' is already taken."@,
{
    AppError::Conflict(quoted_message("Category slug '", slug, "' is already taken."))
}

/// The conflict of a tag slug that another tag has.
pub fn tag_slug_taken(slug: &str) -> (e: AppError)
    ensures
        e matches AppError::Conflict(m) && m@ == "Tag slug '"@ + slug@ + "' is already taken."@,
{
    AppError::Conflict(quoted_message("Tag slug '", slug, "' is already taken."))
}

/// The refusal of a tag name whose slug is empty.
pub fn tag_without_slug(name: &str) -> (e: AppError)
    ensures
        e matches AppError::BadRequest(m) && m@ == "Tag '"@ + name@
            + "' does not produce a valid slug."@,
{
    AppError::BadRequest(quoted_message("Tag '", name, "' does not produce a valid slug."))
}

/// The refusal of a category id that names no category.
pub fn missing_category() -> (e: AppError)
    ensures
        e matches AppError::BadRequest(m) && m@ == "Selected category does not exist."@,
{
    AppError::BadRequest(String::from_str("Selected category does not exist."))
}

/// The first checks of a submitted post, category or tag, in their order: the trimmed
/// name (or title) must not be blank, else `blank_message`; its slug, made from the slug
/// field or else the name, must not be empty. Answers the trimmed name and the slug.
pub open spec fn named_slug_ok(name_field: Seq<char>, slug_field: Seq<char>) -> bool {
    trim(name_field).len() > 0 && slug_spec(slug_source_spec(trim(name_field), slug_field)).len()
        > 0
}

fn named_slug<'a>(name_field: &'a str, slug_field: &'a str, blank_message: &str) -> (r: Result<
    (&'a str, String),
    AppError,
>)
    ensures
        r is Ok <==> named_slug_ok(name_field@, slug_field@),
        trim(name_field@).len() == 0 ==> is_bad_request(r, blank_message@),
        trim(name_field@).len() > 0 && !named_slug_ok(name_field@, slug_field@) ==> is_bad_request(
            r,
            "Slug cannot be empty after normalization."@,
        ),
        r matches Ok(p) ==> p.0@ == trim(name_field@) && p.1@ == slug_spec(
            slug_source_spec(trim(name_field@), slug_field@),
        ),
{
    let name = trimmed(name_field);
    if name.is_empty() {
        return Err(AppError::BadRequest(String::from_str(blank_message)));
    }
    let slug = slugify(slug_source(name, slug_field));
    check_slug(slug.as_str())?;
    Ok((name, slug))
}

/// The title of a submitted post and its slug: `Title is required.` for a blank title,
/// then `Slug cannot be empty after normalization.` for an empty slug.
pub fn post_title_and_slug<'a>(title_field: &'a str, slug_field: &'a str) -> (r: Result<
    (&'a str, String),
    AppError,
>)
    ensures
        r is Ok <==> named_slug_ok(title_field@, slug_field@),
        trim(title_field@).len() == 0 ==> is_bad_request(r, "Title is required."@),
        trim(title_field@).len() > 0 && !named_slug_ok(title_field@, slug_field@) ==> is_bad_request(
            r,
            "Slug cannot be empty after normalization."@,
        ),
        r matches Ok(p) ==> p.0@ == trim(title_field@) && p.1@ == slug_spec(
            slug_source_spec(trim(title_field@), slug_field@),
        ),
{
    named_slug(title_field, slug_field, "Title is required.")
}

/// The name of a submitted category or tag and its slug: `Name is required.` for a blank
/// name, then `Slug cannot be empty after normalization.` for an empty slug.
pub fn name_and_slug<'a>(name_field: &'a str, slug_field: &'a str) -> (r: Result<
    (&'a str, String),
    AppError,
>)
    ensures
        r is Ok <==> named_slug_ok(name_field@, slug_field@),
        trim(name_field@).len() == 0 ==> is_bad_request(r, "Name is required."@),
        trim(name_field@).len() > 0 && !named_slug_ok(name_field@, slug_field@) ==> is_bad_request(
            r,
            "Slug cannot be empty after normalization."@,
        ),
        r matches Ok(p) ==> p.0@ == trim(name_field@) && p.1@ == slug_spec(
            slug_source_spec(trim(name_field@), slug_field@),
        ),
{
    named_slug(name_field, slug_field, "Name is required.")
}

/// The slug of a tag named in the post form; a name without one is refused with
/// `Tag '…' does not produce a valid slug.`.
pub fn tag_slug(name: &str) -> (r: Result<String, AppError>)
    ensures
        r is Ok <==> slug_spec(name@).len() > 0,
        r matches Ok(s) ==> s@ == slug_spec(name@),
        r matches Err(e) ==> e matches AppError::BadRequest(m) && m@ == "Tag '"@ + name@
            + "' does not produce a valid slug."@,
{
    let slug = slugify(name);
    if slug.as_str().is_empty() {
        return Err(tag_without_slug(name));
    }
    Ok(slug)
}

} // verus!
