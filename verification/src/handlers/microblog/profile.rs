//! Profiles and following.

use vstd::prelude::*;
use crate::error::AppError;

verus! {

broadcast use vstd::string::group_string_axioms;

/// A form that carries only its CSRF token.
#[derive(Debug, Clone)]
pub struct CsrfOnly {
    pub csrf_token: String,
}

/// Nobody follows or unfollows themselves.
pub fn check_follow_target(target_id: i64, viewer_id: i64) -> (r: Result<(), AppError>)
    ensures
        r is Ok <==> target_id != viewer_id,
        r matches Err(e) ==> e matches AppError::BadRequest(m) && m@
            == "You can't follow yourself."@,
{
    if target_id == viewer_id {
        Err(AppError::BadRequest(String::from_str("You can't follow yourself.")))
    } else {
        Ok(())
    }
}

/// Whose follow state a profile page looks up: the viewer's, unless the viewer is absent
/// or is the profile's owner.
pub fn follow_state_viewer(viewer_id: Option<i64>, profile_id: i64) -> (r: Option<i64>)
    ensures
        r == match viewer_id {
            Some(v) if v != profile_id => Some(v),
            _ => None::<i64>,
        },
{
    match viewer_id {
        Some(v) => {
            if v != profile_id {
                Some(v)
            } else {
                None
            }
        },
        None => None,
    }
}

/// The path of a profile: `/u/` and the username.
pub fn profile_path(username: &str) -> (r: String)
    ensures
        r@ == "/u/"@ + username@,
{
    let mut p = String::from_str("/u/");
    p.append(username);
    p
}

} // verus!
