//! Writing statuses: composing, liking, reposting and deleting.

use vstd::prelude::*;
use crate::error::AppError;
use crate::services::admin_guard::{verify_csrf, AuthContext};
use crate::services::status_service::ComposeInput;
use crate::text::{
    chars_of, i64_to_string, int_decimal, parse_i64, parse_i64_spec, str_eq, trim, trimmed,
};

verus! {

broadcast use vstd::string::group_string_axioms;

/// Most bytes accepted for a text field of the compose form.
pub const MAX_TEXT_FIELD_BYTES: usize = 16384;

/// Most files attached to one status.
pub const MAX_FILES_PER_STATUS: usize = 4;

/// A form that carries only its CSRF token.
#[derive(Debug, Clone)]
pub struct CsrfOnly {
    pub csrf_token: String,
}

/// The path of a status: `/s/` and its id.
pub open spec fn status_path_spec(id: i64) -> Seq<char> {
    "/s/"@ + int_decimal(id as int)
}

/// The path of a status.
pub fn status_path(id: i64) -> (r: String)
    ensures
        r@ == status_path_spec(id),
{
    let mut p = String::from_str("/s/");
    let n = i64_to_string(id);
    p.append(n.as_str());
    p
}

/// Where a new status leads: to its parent for a reply, else to itself.
pub fn compose_redirect_target(parent_id: Option<i64>, new_id: i64) -> (r: String)
    ensures
        r@ == status_path_spec(
            match parent_id {
                Some(p) => p,
                None => new_id,
            },
        ),
{
    match parent_id {
        Some(pid) => status_path(pid),
        None => status_path(new_id),
    }
}

/// An id field of the compose form: a blank value leaves `current` as it is, any other
/// value is parsed after trimming (`None` when it is no `i64`).
pub fn apply_id_field(current: Option<i64>, value: &str) -> (r: Option<i64>)
    ensures
        r == if trim(value@).len() == 0 {
            current
        } else {
            parse_i64_spec(trim(value@))
        },
{
    let t = trimmed(value);
    if t.is_empty() {
        current
    } else {
        parse_i64(t)
    }
}

/// What to do with a `files` field: refuse it before the CSRF token was verified, skip it
/// without a file name, refuse a file past the limit, else store it (`Ok(true)`).
pub fn file_field_decision(csrf_verified: bool, file_name: Option<&str>, uploaded: usize) -> (r:
    Result<bool, AppError>)
    ensures
        !csrf_verified ==> r == Err::<bool, AppError>(AppError::Forbidden),
        csrf_verified ==> match file_name {
            None => r == Ok::<bool, AppError>(false),
            Some(n) => if n@.len() == 0 {
                r == Ok::<bool, AppError>(false)
            } else if uploaded >= MAX_FILES_PER_STATUS {
                r matches Err(e) && e matches AppError::BadRequest(m) && m@
                    == "Up to 4 attachments per status."@
            } else {
                r == Ok::<bool, AppError>(true)
            },
        },
{
    if !csrf_verified {
        return Err(AppError::Forbidden);
    }
    match file_name {
        None => Ok(false),
        Some(n) => {
            if n.is_empty() {
                Ok(false)
            } else if uploaded >= MAX_FILES_PER_STATUS {
                Err(AppError::BadRequest(String::from_str("Up to 4 attachments per status.")))
            } else {
                Ok(true)
            }
        },
    }
}

/// What an id field of the compose form leaves: `current` for a blank value, else the
/// trimmed value parsed.
pub open spec fn id_field_spec(current: Option<i64>, value: Seq<char>) -> Option<i64> {
    if trim(value).len() == 0 {
        current
    } else {
        parse_i64_spec(trim(value))
    }
}

/// The fields of the compose form, by name.
#[derive(Debug, Clone, Copy, PartialEq, Eq, Structural)]
pub enum ComposeFieldKind {
    CsrfToken,
    ParentId,
    RepostOfId,
    ContentMd,
    Files,
    Other,
}

/// The kind of a compose form field named `name`.
pub open spec fn compose_field_kind_spec(name: Seq<char>) -> ComposeFieldKind {
    if name == "csrf_token"@ {
        ComposeFieldKind::CsrfToken
    } else if name == "parent_id"@ {
        ComposeFieldKind::ParentId
    } else if name == "repost_of_id"@ {
        ComposeFieldKind::RepostOfId
    } else if name == "content_md"@ {
        ComposeFieldKind::ContentMd
    } else if name == "files"@ {
        ComposeFieldKind::Files
    } else {
        ComposeFieldKind::Other
    }
}

/// The kind of a compose form field, from its name.
pub fn compose_field_kind(name: &str) -> (k: ComposeFieldKind)
    ensures
        k == compose_field_kind_spec(name@),
{
    if str_eq(name, "csrf_token") {
        ComposeFieldKind::CsrfToken
    } else if str_eq(name, "parent_id") {
        ComposeFieldKind::ParentId
    } else if str_eq(name, "repost_of_id") {
        ComposeFieldKind::RepostOfId
    } else if str_eq(name, "content_md") {
        ComposeFieldKind::ContentMd
    } else if str_eq(name, "files") {
        ComposeFieldKind::Files
    } else {
        ComposeFieldKind::Other
    }
}

/// The compose form as read so far: whether its CSRF token was verified, the body,
/// what it replies to or reposts, and the assets stored from its files.
#[derive(Debug)]
pub struct ComposeForm {
    pub csrf_verified: bool,
    pub content_md: String,
    pub parent_id: Option<i64>,
    pub repost_of_id: Option<i64>,
    pub asset_ids: Vec<i64>,
}

impl ComposeForm {
    /// A form of which nothing was read yet.
    pub fn new() -> (f: Self)
        ensures
            !f.csrf_verified,
            f.content_md@ == Seq::<char>::empty(),
            f.parent_id is None,
            f.repost_of_id is None,
            f.asset_ids@ == Seq::<i64>::empty(),
    {
        ComposeForm {
            csrf_verified: false,
            content_md: String::new(),
            parent_id: None,
            repost_of_id: None,
            asset_ids: Vec::new(),
        }
    }

    /// Takes in the text of a field that is not a file: the CSRF token is checked
    /// (a wrong one ends the form with `Forbidden`), an id field is applied as
    /// `apply_id_field` says, the body is kept, any other field is ignored.
    pub fn accept_text(&mut self, auth: &AuthContext, kind: ComposeFieldKind, value: String) -> (r:
        Result<(), AppError>)
        ensures
            r is Err <==> (kind == ComposeFieldKind::CsrfToken && value@ != auth.session.csrf_token@),
            r is Err ==> r == Err::<(), AppError>(AppError::Forbidden) && *final(self) == *old(self),
            r is Ok ==> {
                &&& final(self).csrf_verified == (old(self).csrf_verified || kind
                    == ComposeFieldKind::CsrfToken)
                &&& final(self).content_md@ == (if kind == ComposeFieldKind::ContentMd {
                    value@
                } else {
                    old(self).content_md@
                })
                &&& final(self).parent_id == (if kind == ComposeFieldKind::ParentId {
                    id_field_spec(old(self).parent_id, value@)
                } else {
                    old(self).parent_id
                })
                &&& final(self).repost_of_id == (if kind == ComposeFieldKind::RepostOfId {
                    id_field_spec(old(self).repost_of_id, value@)
                } else {
                    old(self).repost_of_id
                })
                &&& final(self).asset_ids@ == old(self).asset_ids@
            },
    {
        match kind {
            ComposeFieldKind::CsrfToken => {
                verify_csrf(auth, Some(value.as_str()))?;
                self.csrf_verified = true;
            },
            ComposeFieldKind::ParentId => {
                self.parent_id = apply_id_field(self.parent_id, value.as_str());
            },
            ComposeFieldKind::RepostOfId => {
                self.repost_of_id = apply_id_field(self.repost_of_id, value.as_str());
            },
            ComposeFieldKind::ContentMd => {
                self.content_md = value;
            },
            _ => {},
        }
        Ok(())
    }

    /// What to do with a `files` field: as `file_field_decision` says, given the
    /// files stored so far.
    pub fn accept_file(&self, file_name: Option<&str>) -> (r: Result<bool, AppError>)
        ensures
            !self.csrf_verified ==> r == Err::<bool, AppError>(AppError::Forbidden),
            self.csrf_verified ==> match file_name {
                None => r == Ok::<bool, AppError>(false),
                Some(n) => if n@.len() == 0 {
                    r == Ok::<bool, AppError>(false)
                } else if self.asset_ids@.len() >= MAX_FILES_PER_STATUS {
                    r matches Err(e) && e matches AppError::BadRequest(m) && m@
                        == "Up to 4 attachments per status."@
                } else {
                    r == Ok::<bool, AppError>(true)
                },
            },
    {
        file_field_decision(self.csrf_verified, file_name, self.asset_ids.len())
    }

    /// Records the asset stored from a `files` field.
    pub fn file_stored(&mut self, asset_id: i64)
        ensures
            final(self).asset_ids@ == old(self).asset_ids@.push(asset_id),
            final(self).csrf_verified == old(self).csrf_verified,
            final(self).content_md == old(self).content_md,
            final(self).parent_id == old(self).parent_id,
            final(self).repost_of_id == old(self).repost_of_id,
    {
        self.asset_ids.push(asset_id);
    }

    /// The form is complete only with a verified CSRF token.
    pub fn finish(&self) -> (r: Result<(), AppError>)
        ensures
            r is Ok <==> self.csrf_verified,
            r is Err ==> r == Err::<(), AppError>(AppError::Forbidden),
    {
        if self.csrf_verified {
            Ok(())
        } else {
            Err(AppError::Forbidden)
        }
    }

    /// The status that the form composes for `user_id`.
    pub fn compose_input(&self, user_id: i64) -> (r: ComposeInput<'_>)
        ensures
            r.user_id == user_id,
            r.content_md@ == self.content_md@,
            r.parent_id == self.parent_id,
            r.repost_of_id == self.repost_of_id,
            r.asset_ids@ == self.asset_ids@,
    {
        ComposeInput {
            user_id,
            content_md: self.content_md.as_str(),
            parent_id: self.parent_id,
            repost_of_id: self.repost_of_id,
            asset_ids: self.asset_ids.as_slice(),
        }
    }
}

/// Adds a chunk of a text field to the bytes read so far; refuses past
/// `MAX_TEXT_FIELD_BYTES`.
pub fn add_text_chunk(read: usize, chunk_len: usize) -> (r: Result<usize, AppError>)
    requires
        read + chunk_len <= usize::MAX,
    ensures
        r is Ok <==> read + chunk_len <= MAX_TEXT_FIELD_BYTES,
        r matches Ok(n) ==> n == read + chunk_len,
        r matches Err(e) ==> e matches AppError::BadRequest(m) && m@ == "Field is too long."@,
{
    if read + chunk_len > MAX_TEXT_FIELD_BYTES {
        Err(AppError::BadRequest(String::from_str("Field is too long.")))
    } else {
        Ok(read + chunk_len)
    }
}

/// Nobody reposts their own status.
pub fn check_repost(original_user_id: i64, viewer_id: i64) -> (r: Result<(), AppError>)
    ensures
        r is Ok <==> original_user_id != viewer_id,
        r matches Err(e) ==> e matches AppError::BadRequest(m) && m@
            == "You can't repost your own status."@,
{
    if original_user_id == viewer_id {
        Err(AppError::BadRequest(String::from_str("You can't repost your own status.")))
    } else {
        Ok(())
    }
}

/// Only the author or an administrator deletes a status.
pub fn check_delete(status_user_id: i64, viewer_id: i64, viewer_is_admin: bool) -> (r: Result<
    (),
    AppError,
>)
    ensures
        r is Ok <==> (status_user_id == viewer_id || viewer_is_admin),
        r is Err ==> r == Err::<(), AppError>(AppError::Forbidden),
{
    if status_user_id != viewer_id && !viewer_is_admin {
        Err(AppError::Forbidden)
    } else {
        Ok(())
    }
}

/// `s` holds `://`.
pub open spec fn has_scheme_separator(s: Seq<char>) -> bool {
    exists|i: int| 0 <= i && i + 3 <= s.len() && s[i] == ':' && s[i + 1] == '/' && #[trigger] s[i + 2] == '/'
}

/// A referer to send the browser back to: a path, or a URL with a scheme.
pub open spec fn acceptable_referer(s: Seq<char>) -> bool {
    (s.len() > 0 && s[0] == '/') || has_scheme_separator(s)
}

/// Where to send the browser after a like or repost: the referer when it is acceptable,
/// else `fallback`.
pub fn redirect_back(referer: Option<&str>, fallback: &str) -> (r: String)
    ensures
        r@ == match referer {
            Some(v) if acceptable_referer(v@) => v@,
            _ => fallback@,
        },
{
    if let Some(v) = referer {
        let c = chars_of(v);
        if c.len() > 0 && c[0] == '/' {
            assert(acceptable_referer(v@));
            return String::from_str(v);
        }
        let mut i: usize = 0;
        while i < c.len() && c.len() - i >= 3
            invariant
                i <= c.len(),
                c@ == v@,
                referer == Some(v),
                forall|j: int|
                    0 <= j < i && j + 3 <= c@.len() ==> !(c@[j] == ':' && c@[j + 1] == '/'
                        && #[trigger] c@[j + 2] == '/'),
            decreases c.len() - i,
        {
            if c[i] == ':' && c[i + 1] == '/' && c[i + 2] == '/' {
                assert(c@[i + 2] == '/');
                assert(has_scheme_separator(v@));
                return String::from_str(v);
            }
            i += 1;
        }
        assert(!has_scheme_separator(v@));
    }
    String::from_str(fallback)
}

} // verus!
