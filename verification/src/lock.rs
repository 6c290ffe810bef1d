//! Lock Mode primitives: whether a lock is actually in effect at a given
//! moment, and the transitions into and out of a lock.
//!
//! Times are milliseconds since the Unix epoch, the unit of
//! `LockState::unlock_at`.

use vstd::prelude::*;
use crate::protocol::LockState;

verus! {

/// A lock is in effect at `now` when it is set and either has no timer
/// (locked forever) or its timer has not yet run out.
pub open spec fn lock_in_effect(state: LockState, now: u64) -> bool {
    state.locked && match state.unlock_at {
        Some(unlock_at) => now < unlock_at,
        None => true,
    }
}

/// The moment a lock of `duration_secs` seconds taken at `now` runs out;
/// a moment past the largest representable time is clamped to it.
pub open spec fn unlock_moment(now: u64, duration_secs: u64) -> u64 {
    let t = now as int + duration_secs as int * 1000;
    if t > u64::MAX { u64::MAX } else { t as u64 }
}

/// The wall-clock time, a value of `std::time::SystemTime`.
#[verifier::external_type_specification]
#[verifier::external_body]
pub struct ExSystemTime(std::time::SystemTime);

/// Reads the wall clock: calls `std::time::SystemTime::now`. Nothing is
/// promised of the value: it is whatever the clock says.
#[verifier::external_body]
fn system_now() -> std::time::SystemTime {
    std::time::SystemTime::now()
}

/// How long after the Unix epoch `t` stands: calls
/// `SystemTime::duration_since(UNIX_EPOCH)`, `None` where it fails (`t`
/// before the epoch). Nothing more is promised.
#[verifier::external_body]
fn since_epoch(t: &std::time::SystemTime) -> Option<core::time::Duration> {
    t.duration_since(std::time::UNIX_EPOCH).ok()
}

/// The whole milliseconds of a duration: calls `Duration::as_millis`. The
/// duration is opaque here, so nothing is promised of the number.
#[verifier::external_body]
fn duration_millis(d: &core::time::Duration) -> u128 {
    d.as_millis()
}

/// A clock reading (milliseconds since the Unix epoch, `None` before it) as a
/// time: 0 before the epoch, and clamped to the largest representable time.
pub open spec fn epoch_millis(reading: Option<u128>) -> u64 {
    match reading {
        Some(ms) => if ms > u64::MAX {
            u64::MAX
        } else {
            ms as u64
        },
        None => 0,
    }
}

/// Turns a clock reading in milliseconds since the Unix epoch into a time.
pub fn millis_since_epoch(reading: Option<u128>) -> (ms: u64)
    ensures
        ms == epoch_millis(reading),
{
    match reading {
        Some(ms) => if ms > 0xffff_ffff_ffff_ffff {
            u64::MAX
        } else {
            ms as u64
        },
        None => 0,
    }
}

/// The wall clock in milliseconds since the Unix epoch.
fn now_unix() -> (ms: u64)
    ensures
        exists|reading: Option<u128>| ms == epoch_millis(reading),
{
    let t = system_now();
    let reading = match since_epoch(&t) {
        Some(d) => Some(duration_millis(&d)),
        None => None,
    };
    millis_since_epoch(reading)
}

/// Whether the lock is in effect at the moment `now`.
pub fn effective_locked_at(state: &LockState, now: u64) -> (res: bool)
    ensures
        res == lock_in_effect(*state, now),
{
    if !state.locked {
        return false;
    }
    match state.unlock_at {
        Some(unlock_at) => now < unlock_at,
        None => true,
    }
}

/// Whether the lock is actually in effect right now, accounting for a timed
/// lock that has already expired.
pub fn effective_locked(state: &LockState) -> (res: bool)
    ensures
        !state.locked ==> !res,
        (state.locked && state.unlock_at is None) ==> res,
        exists|reading: Option<u128>| res == lock_in_effect(*state, #[trigger] epoch_millis(reading)),
{
    let now = now_unix();
    effective_locked_at(state, now)
}

/// Enter a lock at the moment `now`. `duration_secs` of `None` means no
/// timer: locked forever.
pub fn lock_at(state: &mut LockState, duration_secs: Option<u64>, now: u64)
    ensures
        final(state).locked,
        final(state).unlock_at == match duration_secs {
            Some(d) => Some(unlock_moment(now, d)),
            None => None::<u64>,
        },
{
    state.locked = true;
    state.unlock_at = match duration_secs {
        Some(d) => {
            if d > (u64::MAX - now) / 1000 {
                Some(u64::MAX)
            } else {
                Some(now + d * 1000)
            }
        },
        None => None,
    };
}

/// Enter a lock now. `duration_secs` of `None` means no timer.
pub fn lock(state: &mut LockState, duration_secs: Option<u64>)
    ensures
        final(state).locked,
        duration_secs is None ==> final(state).unlock_at is None,
        duration_secs matches Some(d) ==> exists|reading: Option<u128>|
            final(state).unlock_at == Some(unlock_moment(#[trigger] epoch_millis(reading), d)),
{
    let now = now_unix();
    lock_at(state, duration_secs, now);
}

/// Clear a lock.
pub fn clear(state: &mut LockState)
    ensures
        !final(state).locked,
        final(state).unlock_at is None,
{
    state.locked = false;
    state.unlock_at = None;
}

/// An unlocked state is never in effect.
pub proof fn unlocked_is_never_in_effect(state: LockState, now: u64)
    requires
        !state.locked,
    ensures
        !lock_in_effect(state, now),
{
}

/// A lock without a timer ("forever") never expires.
pub proof fn forever_lock_never_expires(now: u64)
    ensures
        lock_in_effect(LockState { locked: true, unlock_at: None }, now),
{
}

/// Once a lock has run out it stays run out: expiry is permanent.
pub proof fn expiry_is_permanent(state: LockState, t1: u64, t2: u64)
    requires
        t1 <= t2,
        !lock_in_effect(state, t1),
    ensures
        !lock_in_effect(state, t2),
{
}

/// A timed lock taken at `now` is in effect exactly until its moment
/// arrives, and holds for its whole duration (up to the end of time, where
/// the moment is clamped).
pub proof fn timed_lock_lasts_its_duration(now: u64, duration_secs: u64, t: u64)
    ensures
        ({
            let s = LockState { locked: true, unlock_at: Some(unlock_moment(now, duration_secs)) };
            &&& lock_in_effect(s, t) <==> t < unlock_moment(now, duration_secs)
            &&& (t < now + duration_secs * 1000 && t < u64::MAX) ==> lock_in_effect(s, t)
            &&& t >= now + duration_secs * 1000 ==> !lock_in_effect(s, t)
        }),
{
}

/// A cleared lock is never in effect.
pub proof fn cleared_lock_is_never_in_effect(now: u64)
    ensures
        !lock_in_effect(LockState { locked: false, unlock_at: None }, now),
{
}

} // verus!
