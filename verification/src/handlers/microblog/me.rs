//! The signed-in user's own profile: its text fields, its password and its avatar.

use vstd::prelude::*;
use crate::error::AppError;
use crate::services::admin_guard::{verify_csrf, AuthContext};
use crate::text::{str_eq, trim, trimmed};

verus! {

broadcast use vstd::string::group_string_axioms;

/// The profile form.
#[derive(Debug, Clone)]
pub struct ProfileForm {
    pub csrf_token: String,
    pub display_name: String,
    pub bio: String,
}

/// The password form.
#[derive(Debug, Clone)]
pub struct PasswordForm {
    pub csrf_token: String,
    pub new_password: String,
}

/// Most bytes accepted for a text field of the avatar form.
pub const MAX_TEXT_FIELD_BYTES: usize = 4096;

/// What a profile text field stores: its trimmed value, or nothing when that is empty.
pub fn profile_value(value: &str) -> (r: Option<&str>)
    ensures
        trim(value@).len() == 0 ==> r is None,
        trim(value@).len() > 0 ==> (r matches Some(t) && t@ == trim(value@)),
{
    let t = trimmed(value);
    if t.is_empty() {
        None
    } else {
        Some(t)
    }
}

/// Adds a chunk of the avatar form's CSRF field to the bytes read so far; refuses
/// past `MAX_TEXT_FIELD_BYTES`.
pub fn add_csrf_chunk(read: usize, chunk_len: usize) -> (r: Result<usize, AppError>)
    requires
        read + chunk_len <= usize::MAX,
    ensures
        r is Ok <==> read + chunk_len <= MAX_TEXT_FIELD_BYTES,
        r matches Ok(n) ==> n == read + chunk_len,
        r matches Err(e) ==> e matches AppError::BadRequest(m) && m@ == "CSRF token too large."@,
{
    if read + chunk_len > MAX_TEXT_FIELD_BYTES {
        Err(AppError::BadRequest(String::from_str("CSRF token too large.")))
    } else {
        Ok(read + chunk_len)
    }
}

/// The fields of the avatar form, by name.
#[derive(Debug, Clone, Copy, PartialEq, Eq, Structural)]
pub enum AvatarFieldKind {
    CsrfToken,
    File,
    Other,
}

/// The kind of an avatar form field named `name`.
pub open spec fn avatar_field_kind_spec(name: Seq<char>) -> AvatarFieldKind {
    if name == "csrf_token"@ {
        AvatarFieldKind::CsrfToken
    } else if name == "file"@ {
        AvatarFieldKind::File
    } else {
        AvatarFieldKind::Other
    }
}

/// The kind of an avatar form field, from its name.
pub fn avatar_field_kind(name: &str) -> (k: AvatarFieldKind)
    ensures
        k == avatar_field_kind_spec(name@),
{
    if str_eq(name, "csrf_token") {
        AvatarFieldKind::CsrfToken
    } else if str_eq(name, "file") {
        AvatarFieldKind::File
    } else {
        AvatarFieldKind::Other
    }
}

/// The avatar form as read so far: whether its CSRF token was verified, and the public
/// path of the last image stored from it.
#[derive(Debug)]
pub struct AvatarForm {
    pub csrf_verified: bool,
    pub new_avatar: Option<String>,
}

impl AvatarForm {
    /// A form of which nothing was read yet.
    pub fn new() -> (f: Self)
        ensures
            !f.csrf_verified,
            f.new_avatar is None,
    {
        AvatarForm { csrf_verified: false, new_avatar: None }
    }

    /// Checks the CSRF token; a wrong one ends the form with `Forbidden`.
    pub fn accept_csrf(&mut self, auth: &AuthContext, token: &str) -> (r: Result<(), AppError>)
        ensures
            r is Ok <==> token@ == auth.session.csrf_token@,
            r is Ok ==> final(self).csrf_verified && final(self).new_avatar == old(
                self,
            ).new_avatar,
            r is Err ==> r == Err::<(), AppError>(AppError::Forbidden) && *final(self) == *old(
                self,
            ),
    {
        verify_csrf(auth, Some(token))?;
        self.csrf_verified = true;
        Ok(())
    }

    /// What to do with a `file` field: refuse it before the CSRF token was verified,
    /// skip it without a file name, else store it (`Ok(true)`).
    pub fn accept_file(&self, file_name: Option<&str>) -> (r: Result<bool, AppError>)
        ensures
            !self.csrf_verified ==> r == Err::<bool, AppError>(AppError::Forbidden),
            self.csrf_verified ==> r == Ok::<bool, AppError>(
                file_name matches Some(n) && n@.len() > 0,
            ),
    {
        if !self.csrf_verified {
            return Err(AppError::Forbidden);
        }
        match file_name {
            Some(n) => Ok(!n.is_empty()),
            None => Ok(false),
        }
    }

    /// Records the public path of an image stored from a `file` field; the last one
    /// becomes the avatar.
    pub fn file_stored(&mut self, public_path: String)
        ensures
            final(self).csrf_verified == old(self).csrf_verified,
            final(self).new_avatar == Some(public_path),
    {
        self.new_avatar = Some(public_path);
    }

    /// The new avatar, if an image was stored; the form is complete only with a
    /// verified CSRF token.
    pub fn finish(&self) -> (r: Result<Option<&str>, AppError>)
        ensures
            r is Err <==> !self.csrf_verified,
            r is Err ==> r == Err::<Option<&str>, AppError>(AppError::Forbidden),
            r matches Ok(a) ==> match self.new_avatar {
                Some(p) => (a matches Some(q) && q@ == p@),
                None => a is None,
            },
    {
        if !self.csrf_verified {
            return Err(AppError::Forbidden);
        }
        match &self.new_avatar {
            Some(p) => Ok(Some(p.as_str())),
            None => Ok(None),
        }
    }
}

} // verus!
