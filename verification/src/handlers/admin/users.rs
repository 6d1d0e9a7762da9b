//! Admin user management.

use vstd::prelude::*;
use crate::error::{is_bad_request, AppError};
use crate::handlers::admin::quoted_message;
use crate::text::{byte_len, chars_of, is_ascii_alnum, str_eq, trim, trimmed};

verus! {

broadcast use vstd::string::group_string_axioms;

/// The form that creates an account.
#[derive(Debug, Clone)]
pub struct CreateForm {
    pub csrf_token: String,
    pub username: String,
    pub password: String,
    pub role: String,
}

/// The form that resets a password.
#[derive(Debug, Clone)]
pub struct ResetForm {
    pub csrf_token: String,
    pub new_password: String,
}

/// The form that sets a role.
#[derive(Debug, Clone)]
pub struct RoleForm {
    pub csrf_token: String,
    pub role: String,
}

/// A form that carries only its CSRF token.
#[derive(Debug, Clone)]
pub struct CsrfOnly {
    pub csrf_token: String,
}

/// A character allowed in a username: ASCII letters and digits, `_` and `-`.
pub open spec fn is_username_char(c: char) -> bool {
    ('a' <= c && c <= 'z') || ('A' <= c && c <= 'Z') || ('0' <= c && c <= '9') || c == '_' || c
        == '-'
}

/// Usernames are 1 to 40 bytes of ASCII letters, digits, `_` and `-`.
pub fn validate_username(name: &str) -> (r: Result<(), AppError>)
    ensures
        r is Ok <==> (name@.len() > 0 && byte_len(name@) <= 40 && forall|i: int|
            0 <= i < name@.len() ==> is_username_char(#[trigger] name@[i])),
        (name@.len() == 0 || byte_len(name@) > 40) ==> is_bad_request(
            r,
            "Username must be 1–40 characters."@,
        ),
        (name@.len() > 0 && byte_len(name@) <= 40 && !(forall|i: int|
            0 <= i < name@.len() ==> is_username_char(#[trigger] name@[i]))) ==> is_bad_request(
            r,
            "Username may only contain letters, digits, underscores, and dashes."@,
        ),
{
    if name.is_empty() || name.len() > 40 {
        return Err(AppError::BadRequest(String::from_str("Username must be 1–40 characters.")));
    }
    let v = chars_of(name);
    let mut i: usize = 0;
    while i < v.len()
        invariant
            i <= v.len(),
            v@ == name@,
            name@.len() > 0,
            byte_len(name@) <= 40,
            forall|j: int| 0 <= j < i ==> is_username_char(#[trigger] v@[j]),
        decreases v.len() - i,
    {
        let c = v[i];
        if !(('a' <= c && c <= 'z') || ('A' <= c && c <= 'Z') || ('0' <= c && c <= '9') || c == '_'
            || c == '-') {
            return Err(
                AppError::BadRequest(
                    String::from_str(
                        "Username may only contain letters, digits, underscores, and dashes.",
                    ),
                ),
            );
        }
        i += 1;
    }
    Ok(())
}

/// New passwords have at least 8 bytes.
pub fn validate_new_password(password: &str) -> (r: Result<(), AppError>)
    ensures
        r is Ok <==> byte_len(password@) >= 8,
        r matches Err(e) ==> e matches AppError::BadRequest(m) && m@
            == "Password must be at least 8 characters."@,
{
    if password.len() < 8 {
        Err(AppError::BadRequest(String::from_str("Password must be at least 8 characters.")))
    } else {
        Ok(())
    }
}

/// The role stored for a submitted role: `admin` when it trims to `admin`, else `user`.
pub open spec fn role_for(role: Seq<char>) -> Seq<char> {
    if trim(role) == "admin"@ {
        "admin"@
    } else {
        "user"@
    }
}

/// The role stored for a submitted role.
pub fn normalize_role(role: &str) -> (r: &'static str)
    ensures
        r@ == role_for(role@),
{
    if str_eq(trimmed(role), "admin") {
        "admin"
    } else {
        "user"
    }
}

/// A role change: an administrator cannot take their own `admin` role away (the role is
/// compared untrimmed here); otherwise the stored role.
pub fn check_role_change(target_id: i64, current_user_id: i64, role: &str) -> (r: Result<
    &'static str,
    AppError,
>)
    ensures
        (target_id == current_user_id && role@ != "admin"@) ==> is_bad_request(
            r,
            "You can't demote yourself."@,
        ),
        !(target_id == current_user_id && role@ != "admin"@) ==> (r matches Ok(s) && s@
            == role_for(role@)),
{
    if target_id == current_user_id && !str_eq(role, "admin") {
        return Err(AppError::BadRequest(String::from_str("You can't demote yourself.")));
    }
    Ok(normalize_role(role))
}

/// An administrator cannot delete their own account.
pub fn check_user_delete(target_id: i64, current_user_id: i64) -> (r: Result<(), AppError>)
    ensures
        r is Ok <==> target_id != current_user_id,
        r matches Err(e) ==> e matches AppError::BadRequest(m) && m@
            == "You can't delete yourself."@,
{
    if target_id == current_user_id {
        Err(AppError::BadRequest(String::from_str("You can't delete yourself.")))
    } else {
        Ok(())
    }
}

/// The conflict of a username that another account has.
pub fn user_taken(username: &str) -> (e: AppError)
    ensures
        e matches AppError::Conflict(m) && m@ == "User '"@ + username@ + "' already exists."@,
{
    AppError::Conflict(quoted_message("User '", username, "' already exists."))
}

/// The characters of a username are exactly the ASCII letters of either case, the digits,
/// `_` and `-`: a 1 to 40 byte name made of them (such as `Alice`) is accepted by
/// `validate_username`, and an accepted name holds no other character.
pub proof fn law_usernames_are_ascii_words(name: Seq<char>)
    ensures
        (name.len() > 0 && byte_len(name) <= 40 && forall|i: int|
            0 <= i < name.len() ==> is_ascii_alnum(#[trigger] name[i]) || name[i] == '_' || name[i]
                == '-') <==> (name.len() > 0 && byte_len(name) <= 40 && forall|i: int|
            0 <= i < name.len() ==> is_username_char(#[trigger] name[i])),
{
}

} // verus!
