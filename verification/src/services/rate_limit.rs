//! Login rate limiting per key: `FAILURE_LIMIT` failures within `FAILURE_WINDOW` lock the
//! key out for `LOCKOUT`. Times are nanoseconds on a monotonic clock that the caller reads.

use vstd::prelude::*;
use crate::text::str_eq;

verus! {

broadcast use vstd::string::group_string_axioms;

/// Failures within the window that trigger a lockout.
pub const FAILURE_LIMIT: u32 = 5;

/// Length of the window in which failures are counted, in nanoseconds (60 s).
pub const FAILURE_WINDOW: u64 = 60_000_000_000;

/// How long a lockout lasts, in nanoseconds (60 s).
pub const LOCKOUT: u64 = 60_000_000_000;

/// What the limiter remembers of one key.
#[derive(Debug, Clone, Copy)]
pub struct AttemptState {
    pub count: u32,
    pub window_start: Option<u64>,
    pub lockout_until: Option<u64>,
}

/// The state of a key with no failures on record.
pub open spec fn fresh() -> AttemptState {
    AttemptState { count: 0, window_start: None, lockout_until: None }
}

/// A state the limiter can reach: the count never passes the limit, and a count at the
/// limit comes with a lockout.
pub open spec fn state_wf(st: AttemptState) -> bool {
    &&& st.count <= FAILURE_LIMIT
    &&& st.count == FAILURE_LIMIT ==> st.lockout_until is Some
}

/// The key is locked out at `now`.
pub open spec fn is_locked(st: AttemptState, now: u64) -> bool {
    st.lockout_until matches Some(until) && until > now
}

/// `st` with an expired lockout cleared (count and window reset too).
pub open spec fn expire(st: AttemptState, now: u64) -> AttemptState {
    if st.lockout_until is Some && !is_locked(st, now) {
        fresh()
    } else {
        st
    }
}

/// What `check` answers: the time left of an active lockout, or `Ok`.
pub open spec fn check_outcome(st: AttemptState, now: u64) -> Result<(), u64> {
    if is_locked(st, now) {
        Err((st.lockout_until.unwrap() - now) as u64)
    } else {
        Ok(())
    }
}

/// Whether `now` still falls within the failure window that began at `start`; a start
/// later than `now` counts as no time passed.
pub open spec fn in_window(start: Option<u64>, now: u64) -> bool {
    match start {
        Some(s) => s > now || now - s < FAILURE_WINDOW,
        None => false,
    }
}

/// When a lockout that starts at `now` ends: `now + LOCKOUT`, or the last representable
/// time when that sum would not fit in a `u64`.
pub open spec fn lockout_end(now: u64) -> u64 {
    if now <= u64::MAX - LOCKOUT {
        (now + LOCKOUT) as u64
    } else {
        u64::MAX
    }
}

/// No lockout of the state runs past `t + LOCKOUT`.
pub open spec fn lockout_within(st: AttemptState, t: u64) -> bool {
    st.lockout_until matches Some(until) ==> until <= t + LOCKOUT
}

/// The state after a failure at `now` that finds no active lockout.
pub open spec fn counted_failure(st: AttemptState, now: u64) -> AttemptState {
    let st = expire(st, now);
    let (count, window_start) = if in_window(st.window_start, now) {
        ((st.count + 1) as u32, st.window_start)
    } else {
        (1u32, Some(now))
    };
    AttemptState {
        count,
        window_start,
        lockout_until: if count >= FAILURE_LIMIT {
            Some(lockout_end(now))
        } else {
            st.lockout_until
        },
    }
}

/// The state after a failure at `now`.
pub open spec fn after_failure(st: AttemptState, now: u64) -> AttemptState {
    if is_locked(st, now) {
        st
    } else {
        counted_failure(st, now)
    }
}

/// What `record_failure` answers: the time left of an active lockout, `LOCKOUT` when
/// this failure starts one, else `None`.
pub open spec fn failure_outcome(st: AttemptState, now: u64) -> Option<u64> {
    if is_locked(st, now) {
        Some((st.lockout_until.unwrap() - now) as u64)
    } else if counted_failure(st, now).count >= FAILURE_LIMIT {
        Some(LOCKOUT)
    } else {
        None
    }
}

/// One remembered key.
#[derive(Debug)]
pub struct AttemptEntry {
    key: String,
    state: AttemptState,
}

/// Failed attempts per key, and the latest time the limiter was given.
#[derive(Debug)]
pub struct RateLimiter {
    entries: Vec<AttemptEntry>,
    latest: u64,
}

/// The map from keys to states that `entries` holds.
pub closed spec fn entries_map(entries: Seq<AttemptEntry>) -> Map<Seq<char>, AttemptState>
    decreases entries.len(),
{
    if entries.len() == 0 {
        Map::empty()
    } else {
        entries_map(entries.drop_last()).insert(entries.last().key@, entries.last().state)
    }
}

/// No key occurs twice.
pub closed spec fn keys_distinct(entries: Seq<AttemptEntry>) -> bool {
    forall|i: int, j: int|
        0 <= i < entries.len() && 0 <= j < entries.len() && i != j ==> entries[i].key@
            != entries[j].key@
}

proof fn lemma_entries_dom(entries: Seq<AttemptEntry>, k: Seq<char>)
    ensures
        entries_map(entries).contains_key(k) <==> exists|i: int|
            0 <= i < entries.len() && #[trigger] entries[i].key@ == k,
    decreases entries.len(),
{
    if entries.len() > 0 {
        let init = entries.drop_last();
        lemma_entries_dom(init, k);
        if exists|i: int| 0 <= i < init.len() && #[trigger] init[i].key@ == k {
            let i = choose|i: int| 0 <= i < init.len() && #[trigger] init[i].key@ == k;
            assert(entries[i].key@ == k);
        }
        if exists|i: int| 0 <= i < entries.len() && #[trigger] entries[i].key@ == k {
            let i = choose|i: int| 0 <= i < entries.len() && #[trigger] entries[i].key@ == k;
            if i < entries.len() - 1 {
                assert(init[i].key@ == k);
            }
        }
    }
}

proof fn lemma_entries_value(entries: Seq<AttemptEntry>, i: int)
    requires
        keys_distinct(entries),
        0 <= i < entries.len(),
    ensures
        entries_map(entries).contains_key(entries[i].key@),
        entries_map(entries)[entries[i].key@] == entries[i].state,
    decreases entries.len(),
{
    let init = entries.drop_last();
    if i < entries.len() - 1 {
        assert(init[i] == entries[i]);
        lemma_entries_value(init, i);
    }
}

proof fn lemma_entries_update(entries: Seq<AttemptEntry>, i: int, e: AttemptEntry)
    requires
        keys_distinct(entries),
        0 <= i < entries.len(),
        e.key@ == entries[i].key@,
    ensures
        entries_map(entries.update(i, e)) == entries_map(entries).insert(e.key@, e.state),
        keys_distinct(entries.update(i, e)),
    decreases entries.len(),
{
    let upd = entries.update(i, e);
    let init = entries.drop_last();
    if i == entries.len() - 1 {
        assert(upd.drop_last() =~= init);
        assert(entries_map(upd) =~= entries_map(entries).insert(e.key@, e.state));
    } else {
        assert(upd.drop_last() =~= init.update(i, e));
        lemma_entries_update(init, i, e);
        assert(entries.last().key@ != e.key@);
        assert(entries_map(upd) =~= entries_map(entries).insert(e.key@, e.state));
    }
}

proof fn lemma_entries_push(entries: Seq<AttemptEntry>, e: AttemptEntry)
    requires
        keys_distinct(entries),
        !entries_map(entries).contains_key(e.key@),
    ensures
        entries_map(entries.push(e)) == entries_map(entries).insert(e.key@, e.state),
        keys_distinct(entries.push(e)),
{
    assert(entries.push(e).drop_last() =~= entries);
    assert forall|i: int| 0 <= i < entries.len() implies #[trigger] entries[i].key@ != e.key@ by {
        lemma_entries_dom(entries, e.key@);
    }
}

proof fn lemma_entries_remove(entries: Seq<AttemptEntry>, i: int)
    requires
        keys_distinct(entries),
        0 <= i < entries.len(),
    ensures
        entries_map(entries.remove(i)) == entries_map(entries).remove(entries[i].key@),
        keys_distinct(entries.remove(i)),
    decreases entries.len(),
{
    let k = entries[i].key@;
    let rem = entries.remove(i);
    let init = entries.drop_last();
    if i == entries.len() - 1 {
        assert(rem =~= init);
        assert forall|j: int| 0 <= j < init.len() implies #[trigger] init[j].key@ != k by {
            assert(entries[j] == init[j]);
        }
        lemma_entries_dom(init, k);
        assert(entries_map(rem) =~= entries_map(entries).remove(k));
    } else {
        assert(rem.drop_last() =~= init.remove(i));
        assert(rem.last() == entries.last());
        lemma_entries_remove(init, i);
        assert(entries.last().key@ != k);
        assert(entries_map(rem) =~= entries_map(entries).remove(k));
    }
}

impl View for RateLimiter {
    type V = Map<Seq<char>, AttemptState>;

    closed spec fn view(&self) -> Map<Seq<char>, AttemptState> {
        entries_map(self.entries@)
    }
}

impl RateLimiter {
    /// The limiter's invariant: distinct keys, each in a reachable state whose lockout
    /// ends at most `LOCKOUT` after the latest time given.
    pub closed spec fn wf(&self) -> bool {
        &&& keys_distinct(self.entries@)
        &&& forall|k: Seq<char>| #[trigger] self@.contains_key(k) ==> state_wf(self@[k])
            && lockout_within(self@[k], self.latest)
    }

    /// The latest time the limiter was given (0 for a new one).
    pub closed spec fn latest(&self) -> u64 {
        self.latest
    }

    /// The time a call given `now` acts at: `now`, or the latest time already given when
    /// `now` is earlier, so that the limiter's clock never goes back (as `Instant` does
    /// not).
    pub open spec fn clock_at(&self, now: u64) -> u64 {
        if now < self.latest() {
            self.latest()
        } else {
            now
        }
    }

    /// A limiter with no failures on record.
    pub fn new() -> (r: Self)
        ensures
            r.wf(),
            r@ == Map::<Seq<char>, AttemptState>::empty(),
            r.latest() == 0,
    {
        RateLimiter { entries: Vec::new(), latest: 0 }
    }

    /// Moves the limiter's clock to `now` unless it is already later; returns the time
    /// the call acts at.
    fn advance(&mut self, now: u64) -> (t: u64)
        requires
            old(self).wf(),
        ensures
            final(self).wf(),
            t == old(self).clock_at(now),
            final(self).latest() == t,
            final(self)@ == old(self)@,
    {
        if now > self.latest {
            let ghost before = *self;
            self.latest = now;
            assert(self@ == before@);
            assert forall|k: Seq<char>| #[trigger] self@.contains_key(k) implies state_wf(self@[k])
                && lockout_within(self@[k], self.latest) by {
                assert(before@.contains_key(k));
            }
        }
        self.latest
    }

    /// Index of the entry for `key`.
    fn find(&self, key: &str) -> (r: Option<usize>)
        requires
            self.wf(),
        ensures
            match r {
                Some(i) => i < self.entries.len() && self.entries@[i as int].key@ == key@
                    && self@.contains_key(key@) && self@[key@] == self.entries@[i as int].state,
                None => !self@.contains_key(key@),
            },
    {
        let mut i: usize = 0;
        while i < self.entries.len()
            invariant
                self.wf(),
                i <= self.entries.len(),
                forall|j: int| 0 <= j < i ==> #[trigger] self.entries@[j].key@ != key@,
            decreases self.entries.len() - i,
        {
            if str_eq(self.entries[i].key.as_str(), key) {
                proof {
                    lemma_entries_value(self.entries@, i as int);
                }
                return Some(i);
            }
            i += 1;
        }
        proof {
            lemma_entries_dom(self.entries@, key@);
        }
        None
    }

    /// Stores `state` for `key`, keeping the other keys.
    fn put(&mut self, key: &str, state: AttemptState)
        requires
            old(self).wf(),
            state_wf(state),
            lockout_within(state, old(self).latest()),
        ensures
            final(self).wf(),
            final(self)@ == old(self)@.insert(key@, state),
            final(self).latest() == old(self).latest(),
    {
        match self.find(key) {
            Some(i) => {
                let ghost before = self.entries@;
                let k = self.entries[i].key.clone();
                proof {
                    lemma_entries_update(before, i as int, AttemptEntry { key: k, state });
                }
                self.entries.set(i, AttemptEntry { key: k, state });
            },
            None => {
                let e = AttemptEntry { key: key.to_owned(), state };
                proof {
                    lemma_entries_push(self.entries@, e);
                }
                self.entries.push(e);
            },
        }
    }

    /// Forgets `key`.
    fn forget(&mut self, key: &str)
        requires
            old(self).wf(),
        ensures
            final(self).wf(),
            final(self)@ == old(self)@.remove(key@),
            final(self).latest() == old(self).latest(),
    {
        match self.find(key) {
            Some(i) => {
                proof {
                    lemma_entries_remove(self.entries@, i as int);
                }
                self.entries.remove(i);
            },
            None => {
                assert(self@.remove(key@) =~= self@);
            },
        }
    }

    /// The state remembered for `key`, or a fresh one.
    fn state_for(&self, key: &str) -> (r: AttemptState)
        requires
            self.wf(),
        ensures
            r == state_of(self@, key@),
            state_wf(r),
            lockout_within(r, self.latest()),
    {
        match self.find(key) {
            Some(i) => self.entries[i].state,
            None => AttemptState { count: 0, window_start: None, lockout_until: None },
        }
    }
}

/// The state of `key` in `m`, fresh when it has none.
pub open spec fn state_of(m: Map<Seq<char>, AttemptState>, key: Seq<char>) -> AttemptState {
    if m.contains_key(key) {
        m[key]
    } else {
        fresh()
    }
}

/// The state after `check` at `now`.
pub open spec fn after_check(st: AttemptState, now: u64) -> AttemptState {
    expire(st, now)
}

/// Whether `key` may try again at `now` (read as the limiter's clock, which never goes
/// back): `Err` with the nanoseconds left of an active lockout, at most `LOCKOUT`, else
/// `Ok`; an expired lockout is cleared together with its count.
pub fn check(limiter: &mut RateLimiter, key: &str, now: u64) -> (r: Result<(), u64>)
    requires
        old(limiter).wf(),
    ensures
        final(limiter).wf(),
        ({
            let t = old(limiter).clock_at(now);
            &&& r == check_outcome(state_of(old(limiter)@, key@), t)
            &&& final(limiter)@ == old(limiter)@.insert(
                key@,
                after_check(state_of(old(limiter)@, key@), t),
            )
            &&& final(limiter).latest() == t
        }),
        r matches Err(d) ==> 0 < d <= LOCKOUT,
{
    let now = limiter.advance(now);
    let st = limiter.state_for(key);
    if let Some(until) = st.lockout_until {
        if until > now {
            limiter.put(key, st);
            return Err(until - now);
        }
        limiter.put(key, AttemptState { count: 0, window_start: None, lockout_until: None });
        return Ok(());
    }
    limiter.put(key, st);
    Ok(())
}

/// Records a failed attempt of `key` at `now` (read as the limiter's clock, which never
/// goes back). Answers the nanoseconds left when `key` is already locked out (without
/// counting the attempt), `LOCKOUT` when this failure reaches `FAILURE_LIMIT` within the
/// window, else `None`.
pub fn record_failure(limiter: &mut RateLimiter, key: &str, now: u64) -> (r: Option<u64>)
    requires
        old(limiter).wf(),
    ensures
        final(limiter).wf(),
        ({
            let t = old(limiter).clock_at(now);
            &&& r == failure_outcome(state_of(old(limiter)@, key@), t)
            &&& final(limiter)@ == old(limiter)@.insert(
                key@,
                after_failure(state_of(old(limiter)@, key@), t),
            )
            &&& final(limiter).latest() == t
        }),
        r matches Some(d) ==> 0 < d <= LOCKOUT,
{
    let now = limiter.advance(now);
    let mut st = limiter.state_for(key);
    if let Some(until) = st.lockout_until {
        if until > now {
            limiter.put(key, st);
            return Some(until - now);
        }
        st = AttemptState { count: 0, window_start: None, lockout_until: None };
    }
    let in_win = match st.window_start {
        Some(start) => start > now || now - start < FAILURE_WINDOW,
        None => false,
    };
    if in_win {
        st.count = st.count + 1;
    } else {
        st.count = 1;
        st.window_start = Some(now);
    }
    if st.count >= FAILURE_LIMIT {
        st.lockout_until = Some(if now <= u64::MAX - LOCKOUT { now + LOCKOUT } else { u64::MAX });
        limiter.put(key, st);
        Some(LOCKOUT)
    } else {
        limiter.put(key, st);
        None
    }
}

/// Forgets the failures of `key` after a successful attempt.
pub fn record_success(limiter: &mut RateLimiter, key: &str)
    requires
        old(limiter).wf(),
    ensures
        final(limiter).wf(),
        final(limiter)@ == old(limiter)@.remove(key@),
        final(limiter).latest() == old(limiter).latest(),
{
    limiter.forget(key);
}

/// Forgets the failures of `key`.
pub fn reset_for_test(limiter: &mut RateLimiter, key: &str)
    requires
        old(limiter).wf(),
    ensures
        final(limiter).wf(),
        final(limiter)@ == old(limiter)@.remove(key@),
        final(limiter).latest() == old(limiter).latest(),
{
    limiter.forget(key);
}

/// The state after failures at the times `ts`, in order, starting from `st`.
pub open spec fn after_failures(st: AttemptState, ts: Seq<u64>) -> AttemptState
    decreases ts.len(),
{
    if ts.len() == 0 {
        st
    } else {
        after_failure(after_failures(st, ts.drop_last()), ts.last())
    }
}

/// The times are in order and all fall within one failure window of the first.
pub open spec fn within_one_window(ts: Seq<u64>) -> bool {
    &&& forall|i: int, j: int| 0 <= i <= j < ts.len() ==> ts[i] <= ts[j]
    &&& ts.len() > 0 ==> ts.last() - ts[0] < FAILURE_WINDOW
}

/// Fewer than `FAILURE_LIMIT` failures within one window are counted and lock nothing:
/// from a fresh key, `n` such failures leave a count of `n`, the window opened by the first.
pub proof fn law_failures_below_limit_do_not_lock(ts: Seq<u64>)
    requires
        0 < ts.len() < FAILURE_LIMIT,
        within_one_window(ts),
    ensures
        after_failures(fresh(), ts) == (AttemptState {
            count: ts.len() as u32,
            window_start: Some(ts[0]),
            lockout_until: None,
        }),
        forall|i: int|
            0 <= i < ts.len() ==> failure_outcome(
                after_failures(fresh(), ts.take(i)),
                #[trigger] ts[i],
            ) is None,
    decreases ts.len(),
{
    let init = ts.drop_last();
    if ts.len() > 1 {
        assert(within_one_window(init));
        law_failures_below_limit_do_not_lock(init);
        assert(init[0] == ts[0]);
        assert(ts.last() >= ts[0]);
    } else {
        assert(after_failures(fresh(), init) == fresh());
    }
    assert forall|i: int| 0 <= i < ts.len() implies failure_outcome(
        after_failures(fresh(), ts.take(i)),
        #[trigger] ts[i],
    ) is None by {
        if i < ts.len() - 1 {
            assert(ts.take(i) =~= init.take(i));
            assert(init[i] == ts[i]);
        } else {
            assert(ts.take(i) =~= init);
        }
    }
}

/// The `FAILURE_LIMIT`-th failure within one window locks the key out for `LOCKOUT`:
/// that failure answers `LOCKOUT` and leaves a lockout until its time plus `LOCKOUT`
/// (`lockout_end`).
pub proof fn law_limit_failures_lock_out(ts: Seq<u64>)
    requires
        ts.len() == FAILURE_LIMIT,
        within_one_window(ts),
    ensures
        failure_outcome(after_failures(fresh(), ts.drop_last()), ts.last()) == Some(LOCKOUT),
        after_failures(fresh(), ts).lockout_until == Some(lockout_end(ts.last())),
        after_failures(fresh(), ts).count == FAILURE_LIMIT,
{
    let init = ts.drop_last();
    assert(within_one_window(init));
    law_failures_below_limit_do_not_lock(init);
    assert(init[0] == ts[0]);
    assert(ts.last() >= ts[0]);
}

/// While a key is locked out, `check` refuses it with the time left and changes nothing,
/// and a further failure is not counted and answers the time left.
pub proof fn law_locked_key_is_refused(st: AttemptState, now: u64)
    requires
        is_locked(st, now),
    ensures
        check_outcome(st, now) == Err::<(), u64>((st.lockout_until.unwrap() - now) as u64),
        (st.lockout_until.unwrap() - now) as u64 > 0,
        after_check(st, now) == st,
        failure_outcome(st, now) == Some((st.lockout_until.unwrap() - now) as u64),
        after_failure(st, now) == st,
{
}

/// Once a lockout has run out, `check` lets the key in again and forgets its failures.
pub proof fn law_lockout_expires(st: AttemptState, now: u64)
    requires
        st.lockout_until matches Some(until) && until <= now,
    ensures
        check_outcome(st, now) == Ok::<(), u64>(()),
        after_check(st, now) == fresh(),
{
}

/// A key without failures is let in.
pub proof fn law_fresh_key_is_let_in(now: u64)
    ensures
        check_outcome(fresh(), now) == Ok::<(), u64>(()),
        after_check(fresh(), now) == fresh(),
{
}

/// After a success the key is fresh again: it is let in, and its next failure counts as
/// the first of a new window.
pub proof fn law_success_forgets_failures(
    m: Map<Seq<char>, AttemptState>,
    key: Seq<char>,
    now: u64,
)
    ensures
        state_of(m.remove(key), key) == fresh(),
        check_outcome(state_of(m.remove(key), key), now) == Ok::<(), u64>(()),
        after_failure(state_of(m.remove(key), key), now).count == 1,
{
}

/// A failure after the window has passed starts a new window with a count of one.
pub proof fn law_failure_after_window_restarts(st: AttemptState, now: u64)
    requires
        !is_locked(st, now),
        st.window_start matches Some(start) && start <= now && now - start >= FAILURE_WINDOW,
        st.lockout_until is None,
    ensures
        after_failure(st, now).count == 1,
        after_failure(st, now).window_start == Some(now),
        failure_outcome(st, now) is None,
{
}

/// Checking or failing one key leaves every other key as it was.
pub proof fn law_keys_are_independent(
    m: Map<Seq<char>, AttemptState>,
    key: Seq<char>,
    other: Seq<char>,
    now: u64,
)
    requires
        key != other,
    ensures
        state_of(m.insert(key, after_check(state_of(m, key), now)), other) == state_of(m, other),
        state_of(m.insert(key, after_failure(state_of(m, key), now)), other) == state_of(m, other),
        state_of(m.remove(key), other) == state_of(m, other),
{
}

/// With a clock that does not go back, no wait is longer than `LOCKOUT`: a key with no
/// lockout past `t + LOCKOUT` is answered, at any `now` from `t` on, a wait of at most
/// `LOCKOUT` by `check` and by a failure, and after either call its lockout again runs
/// no further than `now + LOCKOUT`. A fresh key meets the premise at every time.
pub proof fn law_wait_at_most_lockout(st: AttemptState, t: u64, now: u64)
    requires
        lockout_within(st, t),
        t <= now,
    ensures
        lockout_within(fresh(), t),
        check_outcome(st, now) matches Err(d) ==> 0 < d <= LOCKOUT,
        failure_outcome(st, now) matches Some(d) ==> 0 < d <= LOCKOUT,
        lockout_within(after_check(st, now), now),
        lockout_within(after_failure(st, now), now),
{
}

} // verus!
