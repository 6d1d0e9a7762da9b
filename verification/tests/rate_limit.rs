use vlog::error::AppError;
use vlog::utils::password::hash_password;
use vlog::services::auth_service::{
    bootstrap_credentials, bootstrap_refused, is_localhost_name, login_gate, rate_limit_key,
    register_failure, settle_login,
};
use vlog::services::rate_limit::{
    check, record_failure, record_success, reset_for_test, RateLimiter, FAILURE_WINDOW, LOCKOUT,
};

const SECOND: u64 = 1_000_000_000;

fn fail_times(limiter: &mut RateLimiter, key: &str, times: u32, start: u64) -> Option<u64> {
    let mut last = None;
    for i in 0..times {
        last = record_failure(limiter, key, start + u64::from(i) * SECOND);
    }
    last
}

#[test]
fn fresh_key_is_let_in() {
    let mut limiter = RateLimiter::new();
    assert_eq!(check(&mut limiter, "login:alice", 0), Ok(()));
}

#[test]
fn four_failures_do_not_lock() {
    let mut limiter = RateLimiter::new();
    assert_eq!(fail_times(&mut limiter, "login:alice", 4, 0), None);
    assert_eq!(check(&mut limiter, "login:alice", 4 * SECOND), Ok(()));
}

#[test]
fn fifth_failure_within_a_minute_locks_for_a_minute() {
    let mut limiter = RateLimiter::new();
    assert_eq!(fail_times(&mut limiter, "login:alice", 5, 0), Some(LOCKOUT));
    // Locked at 4 s, until 4 s + 60 s.
    assert_eq!(check(&mut limiter, "login:alice", 4 * SECOND), Err(60 * SECOND));
    assert_eq!(check(&mut limiter, "login:alice", 14 * SECOND), Err(50 * SECOND));
}

#[test]
fn failure_during_lockout_reports_time_left() {
    let mut limiter = RateLimiter::new();
    fail_times(&mut limiter, "k", 5, 0);
    assert_eq!(record_failure(&mut limiter, "k", 10 * SECOND), Some(54 * SECOND));
}

#[test]
fn lockout_expires_after_a_minute() {
    let mut limiter = RateLimiter::new();
    fail_times(&mut limiter, "k", 5, 0);
    assert_eq!(check(&mut limiter, "k", 64 * SECOND), Ok(()));
    // The count starts over after the lockout.
    assert_eq!(record_failure(&mut limiter, "k", 65 * SECOND), None);
}

#[test]
fn success_forgets_failures() {
    let mut limiter = RateLimiter::new();
    fail_times(&mut limiter, "k", 4, 0);
    record_success(&mut limiter, "k");
    assert_eq!(fail_times(&mut limiter, "k", 4, 5 * SECOND), None);
    assert_eq!(check(&mut limiter, "k", 9 * SECOND), Ok(()));
}

#[test]
fn failures_outside_the_window_start_a_new_count() {
    let mut limiter = RateLimiter::new();
    fail_times(&mut limiter, "k", 4, 0);
    // 70 s later the window of the first failure is over.
    assert_eq!(record_failure(&mut limiter, "k", 70 * SECOND), None);
    assert_eq!(fail_times(&mut limiter, "k", 3, 71 * SECOND), None);
    assert_eq!(check(&mut limiter, "k", 75 * SECOND), Ok(()));
}

#[test]
fn window_is_sixty_seconds() {
    assert_eq!(FAILURE_WINDOW, 60 * SECOND);
    assert_eq!(LOCKOUT, 60 * SECOND);
}

#[test]
fn keys_are_independent() {
    let mut limiter = RateLimiter::new();
    fail_times(&mut limiter, "login:alice", 5, 0);
    assert_eq!(check(&mut limiter, "login:bob", 5 * SECOND), Ok(()));
    assert!(check(&mut limiter, "login:alice", 5 * SECOND).is_err());
}

#[test]
fn reset_for_test_forgets_the_key() {
    let mut limiter = RateLimiter::new();
    fail_times(&mut limiter, "k", 5, 0);
    reset_for_test(&mut limiter, "k");
    assert_eq!(check(&mut limiter, "k", 5 * SECOND), Ok(()));
}

#[test]
fn rate_limit_key_lowers_ascii() {
    assert_eq!(rate_limit_key("Alice"), "login:alice");
    assert_eq!(rate_limit_key("ALICE"), rate_limit_key("alice"));
    assert_eq!(rate_limit_key(""), "login:");
}

#[test]
fn login_gate_uses_trimmed_lowered_key() {
    let mut limiter = RateLimiter::new();
    assert_eq!(login_gate(&mut limiter, "  Bob ", 0), Ok("login:bob".to_string()));
}

#[test]
fn login_gate_refuses_a_locked_key_with_retry_seconds() {
    let mut limiter = RateLimiter::new();
    for i in 0..5u64 {
        let _ = register_failure(&mut limiter, "login:bob", i * SECOND);
    }
    assert_eq!(
        login_gate(&mut limiter, "BOB", 5 * SECOND),
        Err(AppError::TooManyRequests { retry_after_secs: 59 })
    );
    // Under a second left still asks for one second.
    assert_eq!(
        login_gate(&mut limiter, "bob", 64 * SECOND - 1),
        Err(AppError::TooManyRequests { retry_after_secs: 1 })
    );
}

#[test]
fn settle_login_failure_is_unauthorized_and_counted() {
    let hash = hash_password("right horse").unwrap();
    let mut limiter = RateLimiter::new();
    for i in 0..4u64 {
        assert_eq!(
            settle_login(&mut limiter, "login:eve", "wrong", Some(hash.as_str()), i * SECOND),
            Err(AppError::Unauthorized)
        );
    }
    // An unknown account is refused and counted like a wrong password.
    assert_eq!(
        settle_login(&mut limiter, "login:eve", "right horse", None, 4 * SECOND),
        Err(AppError::Unauthorized)
    );
    assert!(check(&mut limiter, "login:eve", 5 * SECOND).is_err());
}

#[test]
fn settle_login_success_clears_failures() {
    let hash = hash_password("right horse").unwrap();
    let mut limiter = RateLimiter::new();
    for i in 0..4u64 {
        let _ = settle_login(&mut limiter, "login:eve", "wrong", Some(hash.as_str()), i * SECOND);
    }
    assert_eq!(
        settle_login(&mut limiter, "login:eve", "right horse", Some(hash.as_str()), 4 * SECOND),
        Ok(())
    );
    assert_eq!(register_failure(&mut limiter, "login:eve", 5 * SECOND), None);
}

#[test]
fn bootstrap_defaults_to_admin_admin() {
    assert_eq!(bootstrap_credentials(None, None), Ok(("admin".to_string(), "admin".to_string())));
    assert_eq!(
        bootstrap_credentials(Some("root".to_string()), Some("s3cret!".to_string())),
        Ok(("root".to_string(), "s3cret!".to_string()))
    );
}

#[test]
fn bootstrap_refuses_a_blank_password() {
    assert_eq!(
        bootstrap_credentials(None, Some("   ".to_string())),
        Err(AppError::BadRequest(
            "ADMIN_PASSWORD cannot be empty when bootstrapping the admin user.".to_string()
        ))
    );
}

#[test]
fn localhost_name_ignores_case() {
    assert!(is_localhost_name("localhost"));
    assert!(is_localhost_name("LocalHost"));
    assert!(!is_localhost_name("localhost.example"));
    assert!(!is_localhost_name("127.0.0.1"));
}

#[test]
fn bootstrap_refused_only_off_loopback_without_password_or_users() {
    assert!(bootstrap_refused(true, false, 0));
    assert!(!bootstrap_refused(true, true, 0));
    assert!(!bootstrap_refused(false, false, 0));
    assert!(!bootstrap_refused(true, false, 3));
}

#[test]
fn wait_never_exceeds_lockout_on_a_forward_clock() {
    let mut limiter = RateLimiter::new();
    assert_eq!(fail_times(&mut limiter, "k", 5, 10 * SECOND), Some(LOCKOUT));
    // The lockout began at 14 s; every later check waits at most LOCKOUT.
    for t in [14u64, 15, 30, 73] {
        match check(&mut limiter, "k", t * SECOND) {
            Err(wait) => assert!(wait > 0 && wait <= LOCKOUT),
            Ok(()) => panic!("still locked at {t} s"),
        }
    }
    assert_eq!(check(&mut limiter, "k", 74 * SECOND), Ok(()));
}

#[test]
fn settle_login_with_a_broken_stored_hash_counts_nothing() {
    let mut limiter = RateLimiter::new();
    assert_eq!(
        settle_login(&mut limiter, "login:eve", "pw", Some("not a phc string"), SECOND),
        Err(AppError::InvalidPasswordHash)
    );
    for i in 0..4u64 {
        assert_eq!(register_failure(&mut limiter, "login:eve", (2 + i) * SECOND), None);
    }
}

#[test]
fn a_clock_that_goes_back_never_lengthens_the_wait() {
    let mut limiter = RateLimiter::new();
    assert_eq!(fail_times(&mut limiter, "k", 5, 100 * SECOND), Some(LOCKOUT));
    // The lockout ends at 164 s; an earlier reading is taken as 104 s.
    assert_eq!(check(&mut limiter, "k", 3 * SECOND), Err(LOCKOUT));
    assert_eq!(record_failure(&mut limiter, "k", 0), Some(LOCKOUT));
    assert_eq!(check(&mut limiter, "k", 164 * SECOND), Ok(()));
}

#[test]
fn failures_at_the_end_of_the_clock_do_not_overflow() {
    let mut limiter = RateLimiter::new();
    for _ in 0..4 {
        assert_eq!(record_failure(&mut limiter, "k", u64::MAX), None);
    }
    assert_eq!(record_failure(&mut limiter, "k", u64::MAX), Some(LOCKOUT));
    assert!(check(&mut limiter, "k", u64::MAX).is_ok());
}
