//! The admin upload form.

use vstd::prelude::*;
use crate::error::AppError;
use crate::services::admin_guard::{verify_csrf, AuthContext};
use crate::text::str_eq;
use crate::services::upload_service::{
    guess_image_extension, image_extension, sanitize_extension, sanitized_extension,
};

verus! {

broadcast use vstd::string::group_string_axioms;

/// Most bytes of an uploaded file (5 MiB).
pub const MAX_BYTES: usize = 5_242_880;

/// Most bytes of the CSRF field of the upload form.
pub const MAX_CSRF_BYTES: usize = 1024;

/// The extension for an image type; `bin` for any other type.
pub fn guess_extension(mime: &str) -> (r: &'static str)
    ensures
        r@ == image_extension(mime@),
{
    guess_image_extension(mime)
}

/// Keeps the ASCII letters and digits of `ext`, at most eight, lowered.
pub fn sanitize_ext(ext: &str) -> (r: String)
    ensures
        r@ == sanitized_extension(ext@),
{
    sanitize_extension(ext)
}

/// Adds a chunk of the CSRF field to the bytes read so far; refuses past
/// `MAX_CSRF_BYTES`.
pub fn add_csrf_chunk(read: usize, chunk_len: usize) -> (r: Result<usize, AppError>)
    requires
        read + chunk_len <= usize::MAX,
    ensures
        r is Ok <==> read + chunk_len <= MAX_CSRF_BYTES,
        r matches Ok(n) ==> n == read + chunk_len,
        r matches Err(e) ==> e matches AppError::BadRequest(m) && m@ == "CSRF token is too large."@,
{
    if read + chunk_len > MAX_CSRF_BYTES {
        Err(AppError::BadRequest(String::from_str("CSRF token is too large.")))
    } else {
        Ok(read + chunk_len)
    }
}

/// What the admin upload form does with its next field.
#[derive(Debug, Clone, Copy, PartialEq, Eq, Structural)]
pub enum UploadFieldStep {
    /// Read the CSRF token and check it.
    ReadCsrf,
    /// Store the file of the field.
    StoreFile,
    /// Pass over the field.
    Skip,
}

/// The admin upload form as read so far.
#[derive(Debug)]
pub struct UploadForm {
    pub csrf_verified: bool,
}

impl UploadForm {
    /// A form of which nothing was read yet.
    pub fn new() -> (f: Self)
        ensures
            !f.csrf_verified,
    {
        UploadForm { csrf_verified: false }
    }

    /// The step for a field named `name`: the first `csrf_token` is read and checked,
    /// later ones are passed over; a `file` is stored once the token was verified and
    /// refused before; any other field is passed over.
    pub fn step(&self, name: &str) -> (r: Result<UploadFieldStep, AppError>)
        ensures
            name@ == "csrf_token"@ ==> r == Ok::<UploadFieldStep, AppError>(
                if self.csrf_verified {
                    UploadFieldStep::Skip
                } else {
                    UploadFieldStep::ReadCsrf
                },
            ),
            name@ == "file"@ && self.csrf_verified ==> r == Ok::<UploadFieldStep, AppError>(
                UploadFieldStep::StoreFile,
            ),
            name@ == "file"@ && !self.csrf_verified ==> r == Err::<UploadFieldStep, AppError>(
                AppError::Forbidden,
            ),
            name@ != "csrf_token"@ && name@ != "file"@ ==> r == Ok::<UploadFieldStep, AppError>(
                UploadFieldStep::Skip,
            ),
    {
        proof {
            reveal_strlit("csrf_token");
            reveal_strlit("file");
            assert("file"@.len() != "csrf_token"@.len());
        }
        if str_eq(name, "csrf_token") {
            if self.csrf_verified {
                Ok(UploadFieldStep::Skip)
            } else {
                Ok(UploadFieldStep::ReadCsrf)
            }
        } else if str_eq(name, "file") {
            if self.csrf_verified {
                Ok(UploadFieldStep::StoreFile)
            } else {
                Err(AppError::Forbidden)
            }
        } else {
            Ok(UploadFieldStep::Skip)
        }
    }

    /// Checks the CSRF token read from the form; a wrong one ends the form with
    /// `Forbidden`.
    pub fn accept_csrf(&mut self, auth: &AuthContext, token: &str) -> (r: Result<(), AppError>)
        ensures
            r is Ok <==> token@ == auth.session.csrf_token@,
            r is Ok ==> final(self).csrf_verified,
            r is Err ==> r == Err::<(), AppError>(AppError::Forbidden) && final(self).csrf_verified
                == old(self).csrf_verified,
    {
        verify_csrf(auth, Some(token))?;
        self.csrf_verified = true;
        Ok(())
    }

    /// The form is complete only with a verified CSRF token.
    pub fn finish(&self) -> (r: Result<(), AppError>)
        ensures
            r is Ok <==> self.csrf_verified,
            r is Err ==> r == Err::<(), AppError>(AppError::Forbidden),
    {
        if self.csrf_verified {
            Ok(())
        } else {
            Err(AppError::Forbidden)
        }
    }
}

} // verus!
