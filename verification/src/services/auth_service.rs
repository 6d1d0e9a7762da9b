//! The decisions of a login: which rate-limit key a username uses, when the limiter
//! refuses it, and what a failed or successful attempt records.

use vstd::prelude::*;
use crate::error::AppError;
use crate::services::rate_limit::{
    after_check, after_failure, after_failures, check, check_outcome, fresh, law_limit_failures_lock_out,
    lockout_end, record_failure, record_success, failure_outcome, state_of, within_one_window,
    RateLimiter, FAILURE_LIMIT, LOCKOUT,
};
use crate::utils::password::{argon2_accepts, phc_parses, verify_password};
use crate::text::{ascii_lower, chars_of, string_of, to_ascii_lower, trim, trimmed};

verus! {

broadcast use vstd::string::group_string_axioms;

/// How long a session lasts, in seconds (7 days).
pub const SESSION_LIFETIME_SECS: i64 = 604_800;

/// The rate-limit key of a username: `login:` and the username with ASCII letters lowered.
pub open spec fn rate_limit_key_spec(username: Seq<char>) -> Seq<char> {
    "login:"@ + username.map_values(|c: char| ascii_lower(c))
}

/// Whole seconds of a span of nanoseconds, at least one: the `Retry-After` of a lockout.
pub open spec fn retry_after_secs(remaining_nanos: u64) -> u64 {
    if remaining_nanos / 1_000_000_000 >= 1 {
        remaining_nanos / 1_000_000_000
    } else {
        1
    }
}

/// The rate-limit key of `username`.
pub fn rate_limit_key(username: &str) -> (r: String)
    ensures
        r@ == rate_limit_key_spec(username@),
{
    let v = chars_of(username);
    let mut out: Vec<char> = Vec::new();
    let mut i: usize = 0;
    while i < v.len()
        invariant
            i <= v.len(),
            out@ == v@.take(i as int).map_values(|c: char| ascii_lower(c)),
        decreases v.len() - i,
    {
        out.push(to_ascii_lower(v[i]));
        i += 1;
        assert(out@ =~= v@.take(i as int).map_values(|c: char| ascii_lower(c)));
    }
    assert(v@.take(v.len() as int) =~= v@);
    let mut key = String::from_str("login:");
    let lowered = string_of(&out);
    key.append(lowered.as_str());
    key
}

/// Counts a failed login of `key` at `now`; answers the lockout that is now in force, if
/// any (its time left, or `LOCKOUT` when this failure starts it).
pub fn register_failure(limiter: &mut RateLimiter, key: &str, now: u64) -> (r: Option<u64>)
    requires
        old(limiter).wf(),
    ensures
        final(limiter).wf(),
        ({
            let t = old(limiter).clock_at(now);
            &&& r == failure_outcome(state_of(old(limiter)@, key@), t)
            &&& final(limiter)@ == old(limiter)@.insert(
                key@,
                after_failure(state_of(old(limiter)@, key@), t),
            )
            &&& final(limiter).latest() == t
        }),
{
    record_failure(limiter, key, now)
}

/// The first step of a login at `now`: the key of the trimmed username, or
/// `TooManyRequests` while that key is locked out.
pub fn login_gate(limiter: &mut RateLimiter, username: &str, now: u64) -> (r: Result<String, AppError>)
    requires
        old(limiter).wf(),
    ensures
        final(limiter).wf(),
        ({
            let key = rate_limit_key_spec(trim(username@));
            let t = old(limiter).clock_at(now);
            &&& final(limiter)@ == old(limiter)@.insert(
                key,
                after_check(state_of(old(limiter)@, key), t),
            )
            &&& final(limiter).latest() == t
            &&& match check_outcome(state_of(old(limiter)@, key), t) {
                Ok(()) => r matches Ok(k) && k@ == key,
                Err(remaining) => r == Err::<String, AppError>(
                    AppError::TooManyRequests { retry_after_secs: retry_after_secs(remaining) },
                ),
            }
        }),
{
    let name = trimmed(username);
    let key = rate_limit_key(name);
    match check(limiter, key.as_str(), now) {
        Ok(()) => Ok(key),
        Err(remaining) => {
            let secs = remaining / 1_000_000_000;
            Err(AppError::TooManyRequests { retry_after_secs: if secs >= 1 { secs } else { 1 } })
        },
    }
}

/// The last step of a login at `now`, once the account was looked up (`stored_hash` is
/// its password hash, `None` when there is no such account): the password is checked. A
/// success forgets the key's failures; a missing account or a wrong password is counted
/// and answered with `Unauthorized`; a stored hash that is no PHC string is the error
/// `InvalidPasswordHash`, and nothing is counted.
pub fn settle_login(
    limiter: &mut RateLimiter,
    key: &str,
    password: &str,
    stored_hash: Option<&str>,
    now: u64,
) -> (r: Result<(), AppError>)
    requires
        old(limiter).wf(),
    ensures
        final(limiter).wf(),
        ({
            let t = old(limiter).clock_at(now);
            let counted = final(limiter)@ == old(limiter)@.insert(
                key@,
                after_failure(state_of(old(limiter)@, key@), t),
            ) && final(limiter).latest() == t;
            match stored_hash {
                None => r == Err::<(), AppError>(AppError::Unauthorized) && counted,
                Some(h) => if !phc_parses(h@) {
                    &&& r == Err::<(), AppError>(AppError::InvalidPasswordHash)
                    &&& final(limiter)@ == old(limiter)@
                    &&& final(limiter).latest() == old(limiter).latest()
                } else if argon2_accepts(password@, h@) {
                    &&& r is Ok
                    &&& final(limiter)@ == old(limiter)@.remove(key@)
                    &&& final(limiter).latest() == old(limiter).latest()
                } else {
                    r == Err::<(), AppError>(AppError::Unauthorized) && counted
                },
            }
        }),
{
    let ok = match stored_hash {
        Some(h) => verify_password(password, h)?,
        None => false,
    };
    if ok {
        record_success(limiter, key);
        Ok(())
    } else {
        let _ = register_failure(limiter, key, now);
        Err(AppError::Unauthorized)
    }
}

/// Usernames that differ only in ASCII case share one rate-limit key.
pub proof fn law_key_ignores_ascii_case(a: Seq<char>, b: Seq<char>)
    requires
        a.map_values(|c: char| ascii_lower(c)) == b.map_values(|c: char| ascii_lower(c)),
    ensures
        rate_limit_key_spec(a) == rate_limit_key_spec(b),
{
}

/// Five failed logins of a key within one failure window lock it. From the fifth failure
/// until the lockout is over, `check` refuses the key with a wait of at most `LOCKOUT`,
/// which the login gate sends as a `Retry-After` of 1 to 60 seconds.
pub proof fn law_failed_logins_get_retry_after(ts: Seq<u64>, now: u64)
    requires
        ts.len() == FAILURE_LIMIT,
        within_one_window(ts),
        ts.last() <= now < lockout_end(ts.last()),
    ensures
        check_outcome(after_failures(fresh(), ts), now) matches Err(d) && 0 < d <= LOCKOUT && 1
            <= retry_after_secs(d) <= 60,
{
    law_limit_failures_lock_out(ts);
    let d = (lockout_end(ts.last()) - now) as u64;
    assert(check_outcome(after_failures(fresh(), ts), now) == Err::<(), u64>(d));
    assert(d <= LOCKOUT);
    assert(d / 1_000_000_000 <= 60) by (nonlinear_arith)
        requires
            d <= 60_000_000_000u64,
    ;
}

/// A locked-out key is refused with a `Retry-After` of at least one second.
pub proof fn law_lockout_answers_too_many_requests(remaining: u64)
    ensures
        retry_after_secs(remaining) >= 1,
        remaining >= 1_000_000_000 ==> retry_after_secs(remaining) == remaining / 1_000_000_000,
{
}

/// The account that bootstraps an empty site: the configured username and password,
/// `admin` for either when it is not configured; refused when the password is blank.
pub fn bootstrap_credentials(username: Option<String>, password: Option<String>) -> (r: Result<
    (String, String),
    AppError,
>)
    ensures
        ({
            let pw = match password {
                Some(p) => p@,
                None => "admin"@,
            };
            &&& (r is Ok <==> trim(pw).len() > 0)
            &&& (r matches Ok((u, p)) ==> p@ == pw && u@ == match username {
                Some(n) => n@,
                None => "admin"@,
            })
            &&& (r matches Err(e) ==> e matches AppError::BadRequest(m) && m@
                == "ADMIN_PASSWORD cannot be empty when bootstrapping the admin user."@)
        }),
{
    let user = match username {
        Some(n) => n,
        None => String::from_str("admin"),
    };
    let pw = match password {
        Some(p) => p,
        None => String::from_str("admin"),
    };
    if trimmed(pw.as_str()).is_empty() {
        return Err(
            AppError::BadRequest(
                String::from_str(
                    "ADMIN_PASSWORD cannot be empty when bootstrapping the admin user.",
                ),
            ),
        );
    }
    Ok((user, pw))
}

/// Whether `host` is `localhost`, ignoring ASCII case.
pub fn is_localhost_name(host: &str) -> (b: bool)
    ensures
        b == (host@.len() == 9 && host@.map_values(|c: char| ascii_lower(c)) == "localhost"@),
{
    let v = chars_of(host);
    let ghost lowered: Seq<char> = host@.map_values(|c: char| ascii_lower(c));
    proof {
        reveal_strlit("localhost");
    }
    if v.len() != 9 {
        return false;
    }
    let expected = chars_of("localhost");
    let mut i: usize = 0;
    while i < 9
        invariant
            i <= 9,
            v@ == host@,
            v@.len() == 9,
            expected@ == "localhost"@,
            expected@.len() == 9,
            lowered == host@.map_values(|c: char| ascii_lower(c)),
            forall|j: int| 0 <= j < i ==> ascii_lower(#[trigger] v@[j]) == expected@[j],
        decreases 9 - i,
    {
        if to_ascii_lower(v[i]) != expected[i] {
            assert(lowered[i as int] != "localhost"@[i as int]);
            return false;
        }
        i += 1;
    }
    assert(lowered =~= "localhost"@);
    true
}

/// Bootstrapping an administrator from the default password is refused on a host that
/// is not the local machine: when no password is configured, the site has no account,
/// and the server binds elsewhere than a loopback address.
pub fn bootstrap_refused(password_missing: bool, host_is_loopback: bool, user_count: i64) -> (b:
    bool)
    ensures
        b == (password_missing && !host_is_loopback && user_count == 0),
{
    password_missing && !host_is_loopback && user_count == 0
}

} // verus!
