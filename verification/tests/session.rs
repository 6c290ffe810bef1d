use mindgate::session::{first_seated_session, LoginSignal, SharedState};

#[test]
fn fallback_is_not_reported_as_confirmed_unlock() {
    let mut state = SharedState::default();
    assert!(!state.is_locked());
    assert!(!state.is_known());

    state.set_session_locked(true, "test");
    state.mark_known();
    assert!(state.is_locked());
    assert!(state.is_known());

    state.mark_unknown();
    assert!(state.is_locked());
    assert!(!state.is_known());
}

#[test]
fn set_flags_report_only_transitions() {
    let mut state = SharedState::default();
    assert!(state.set_session_locked(true, "test"));
    assert!(!state.set_session_locked(true, "test"));
    assert!(state.set_system_suspended(true, "test"));
    assert!(!state.set_system_suspended(true, "test"));
    assert!(state.set_session_locked(false, "test"));
    assert!(state.is_locked());
    assert!(state.set_system_suspended(false, "test"));
    assert!(!state.is_locked());
}

#[test]
fn reset_to_unlocked_reports_what_was_set() {
    let mut state = SharedState::default();
    state.set_system_suspended(true, "test");
    state.mark_known();
    assert_eq!(state.reset_to_unlocked("test"), (false, true));
    assert!(!state.is_locked());
    assert!(!state.is_known());
}

#[test]
fn reconcile_never_clears_session_lock_from_hint() {
    let mut state = SharedState::default();
    state.apply_signal(LoginSignal::Lock);
    let ignored = state.reconcile(Some(false), Some(false));
    assert!(ignored);
    assert!(state.is_locked());
    state.apply_signal(LoginSignal::Unlock);
    assert!(!state.is_locked());
}

#[test]
fn reconcile_sets_lock_from_hint_and_heals_missed_resume() {
    let mut state = SharedState::default();
    state.apply_signal(LoginSignal::PrepareForSleep(true));
    assert!(state.is_locked());
    // The PrepareForSleep(false) signal was dropped; the property read heals it.
    assert!(!state.reconcile(Some(false), None));
    assert!(!state.is_locked());
    assert!(!state.reconcile(None, Some(true)));
    assert!(state.is_locked());
}

#[test]
fn resume_keeps_a_real_session_lock() {
    let mut state = SharedState::default();
    state.apply_signal(LoginSignal::Lock);
    state.apply_signal(LoginSignal::PrepareForSleep(true));
    state.apply_signal(LoginSignal::PrepareForSleep(false));
    assert!(state.is_locked());
}

#[test]
fn only_failures_before_any_connection_fall_back_to_unlocked() {
    let mut state = SharedState::default();
    state.apply_signal(LoginSignal::Lock);
    assert!(state.connection_lost());
    assert!(!state.is_locked());
    assert!(!state.is_known());
    // Failing again before ever connecting keeps falling back.
    state.apply_signal(LoginSignal::Lock);
    assert!(state.connection_lost());
    assert!(!state.is_locked());
    // Once connected, a lost connection keeps the last known state.
    state.mark_connected();
    state.apply_signal(LoginSignal::Lock);
    state.mark_known();
    assert!(!state.connection_lost());
    assert!(state.is_locked());
    assert!(state.is_known());
}

#[test]
fn first_seated_session_skips_unseated() {
    let seats = vec![String::new(), String::new(), "seat0".to_string(), "seat1".to_string()];
    assert_eq!(first_seated_session(&seats), Some(2));
    let none = vec![String::new()];
    assert_eq!(first_seated_session(&none), None);
    assert_eq!(first_seated_session(&Vec::new()), None);
}

#[test]
fn locked_follows_the_last_writes() {
    let mut state = SharedState::default();
    assert!(!state.is_locked());
    state.set_system_suspended(true, "test");
    state.mark_known();
    assert!(state.is_locked());
    state.set_session_locked(true, "test");
    state.set_system_suspended(false, "test");
    state.mark_unknown();
    assert!(state.is_locked());
    state.reset_to_unlocked("test");
    assert!(!state.is_locked());
    state.set_session_locked(false, "test");
    assert!(!state.is_locked());
}
