//! Who is signed in, and the CSRF check of every write.

use vstd::prelude::*;
use crate::domain::{Session, User};
use crate::error::AppError;

verus! {

broadcast use vstd::string::group_string_axioms;

/// The signed-in user and the session that carries them.
#[derive(Debug, Clone)]
pub struct AuthContext {
    pub user: User,
    pub session: Session,
}

impl AuthContext {
    /// The token that forms of this session must send back.
    pub fn csrf_token(&self) -> (r: &str)
        ensures
            r@ == self.session.csrf_token@,
    {
        self.session.csrf_token.as_str()
    }

    /// The signed-in user is an administrator.
    pub fn is_admin(&self) -> (b: bool)
        ensures
            b == (self.user.role@ == "admin"@),
    {
        self.user.is_admin()
    }
}

/// Accepts a write only when the submitted token equals the session's token.
pub fn verify_csrf(auth: &AuthContext, submitted: Option<&str>) -> (r: Result<(), AppError>)
    ensures
        r is Ok <==> (submitted matches Some(t) && t@ == auth.session.csrf_token@),
        r is Err ==> r == Err::<(), AppError>(AppError::Forbidden),
{
    match submitted {
        Some(token) => {
            let expected = auth.session.csrf_token.as_str();
            let same = constant_time_eq(token.as_bytes(), expected.as_bytes());
            proof {
                vstd::utf8::encode_utf8_decode_utf8(token@);
                vstd::utf8::encode_utf8_decode_utf8(expected@);
            }
            if same {
                Ok(())
            } else {
                Err(AppError::Forbidden)
            }
        },
        None => Err(AppError::Forbidden),
    }
}

/// Byte-wise equality whose running time depends only on the lengths.
pub fn constant_time_eq(left: &[u8], right: &[u8]) -> (r: bool)
    ensures
        r == (left@ == right@),
{
    if left.len() != right.len() {
        return false;
    }
    let mut diff: u8 = 0;
    let mut i: usize = 0;
    while i < left.len()
        invariant
            left.len() == right.len(),
            i <= left.len(),
            (diff == 0) <==> (forall|j: int| 0 <= j < i ==> left@[j] == right@[j]),
        decreases left.len() - i,
    {
        let a = left[i];
        let b = right[i];
        let d = diff;
        assert((d | (a ^ b)) == 0 <==> (d == 0 && a == b)) by (bit_vector);
        diff = d | (a ^ b);
        i += 1;
    }
    if diff == 0 {
        assert(left@ =~= right@);
        true
    } else {
        false
    }
}

} // verus!
