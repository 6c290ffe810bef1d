use mindgate::lock::{clear, effective_locked, effective_locked_at, lock, lock_at, millis_since_epoch};
use mindgate::protocol::LockState;

#[test]
fn unlocked_state_is_never_effective_locked() {
    let state = LockState::default();
    assert!(!effective_locked(&state));
}

#[test]
fn timed_lock_expires() {
    let mut state = LockState::default();
    lock(&mut state, Some(0)); // expires immediately
    let start = std::time::Instant::now();
    while start.elapsed() < std::time::Duration::from_millis(10) {}
    assert!(!effective_locked(&state));
}

#[test]
fn timed_lock_still_effective_before_expiry() {
    let mut state = LockState::default();
    lock(&mut state, Some(3600));
    assert!(effective_locked(&state));
}

#[test]
fn untimed_lock_stays_locked_until_cleared() {
    let mut state = LockState::default();
    lock(&mut state, None);
    assert!(effective_locked(&state));
    clear(&mut state);
    assert!(!effective_locked(&state));
}

#[test]
fn lock_at_sets_moment_in_milliseconds() {
    let mut state = LockState::default();
    lock_at(&mut state, Some(60), 1_000);
    assert!(state.locked);
    assert_eq!(state.unlock_at, Some(61_000));
    assert!(effective_locked_at(&state, 60_999));
    assert!(!effective_locked_at(&state, 61_000));
    assert!(!effective_locked_at(&state, 100_000));
}

#[test]
fn lock_at_clamps_huge_durations() {
    let mut state = LockState::default();
    lock_at(&mut state, Some(u64::MAX), 5);
    assert_eq!(state.unlock_at, Some(u64::MAX));
    assert!(effective_locked_at(&state, u64::MAX - 1));
}

#[test]
fn forever_lock_holds_at_any_time() {
    let mut state = LockState::default();
    lock_at(&mut state, None, 0);
    assert_eq!(state.unlock_at, None);
    assert!(effective_locked_at(&state, 0));
    assert!(effective_locked_at(&state, u64::MAX));
}

#[test]
fn expired_lock_stays_expired() {
    let state = LockState { locked: true, unlock_at: Some(500) };
    assert!(effective_locked_at(&state, 499));
    assert!(!effective_locked_at(&state, 500));
    assert!(!effective_locked_at(&state, 501));
    assert!(!effective_locked_at(&state, u64::MAX));
}

#[test]
fn unlocked_state_with_stale_timer_is_not_locked() {
    let state = LockState { locked: false, unlock_at: Some(u64::MAX) };
    assert!(!effective_locked_at(&state, 0));
}

#[test]
fn clock_reading_in_milliseconds() {
    assert_eq!(millis_since_epoch(None), 0);
    assert_eq!(millis_since_epoch(Some(1_500)), 1_500);
    assert_eq!(millis_since_epoch(Some(u64::MAX as u128)), u64::MAX);
    assert_eq!(millis_since_epoch(Some(u64::MAX as u128 + 1)), u64::MAX);
}
