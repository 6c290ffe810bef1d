use mindgate::guardian::{note_browsers_closed, Guardian, GuardianAction, STARTUP_GRACE_MS};
use mindgate::protocol::{LockState, Request, Response};
use mindgate::server::{
    authorized, bad_request_response, build_status, dispatch, env_uid, extension_connected,
    not_authorized_response, on_connection_event, AppState, ConnectionEvent, HEARTBEAT_TIMEOUT_MS,
};

fn status_of(state: &AppState, now: u64) -> (bool, bool, Option<LockState>) {
    match build_status(state, now) {
        Response::Status(info) => (info.daemon_running, info.extension_connected, info.lock_state),
        other => panic!("unexpected {other:?}"),
    }
}

#[test]
fn heartbeat_then_status_reports_connected_until_timeout() {
    let mut state = AppState::new();
    assert_eq!(status_of(&state, 0), (true, false, None));
    let resp = dispatch(&mut state, Request::ExtensionHeartbeat { lock_state: None }, 1_000, 0, "0.1.0");
    assert!(matches!(resp, Response::Ack));
    assert!(status_of(&state, 1_000 + HEARTBEAT_TIMEOUT_MS - 1).1);
    assert!(!status_of(&state, 1_000 + HEARTBEAT_TIMEOUT_MS).1);
}

#[test]
fn heartbeat_timeout_is_150_seconds() {
    assert_eq!(HEARTBEAT_TIMEOUT_MS, 150_000);
    assert!(extension_connected(Some(0), 149_999));
    assert!(!extension_connected(Some(0), 150_000));
    assert!(!extension_connected(None, 0));
}

#[test]
fn heartbeat_lock_state_is_reported_and_kept() {
    let mut state = AppState::new();
    let lock = LockState { locked: true, unlock_at: Some(10_000) };
    dispatch(&mut state, Request::ExtensionHeartbeat { lock_state: Some(lock) }, 5, 0, "v");
    dispatch(&mut state, Request::ExtensionHeartbeat { lock_state: None }, 6, 0, "v");
    let (_, _, reported) = status_of(&state, 6);
    let reported = reported.unwrap();
    assert!(reported.locked);
    assert_eq!(reported.unlock_at, Some(10_000));
}

#[test]
fn shutdown_refused_while_locked_and_accepted_after_expiry() {
    let mut state = AppState::new();
    let lock = LockState { locked: true, unlock_at: Some(10_000) };
    dispatch(&mut state, Request::ExtensionHeartbeat { lock_state: Some(lock) }, 0, 0, "v");
    match dispatch(&mut state, Request::Shutdown, 1, 9_999, "v") {
        Response::Error { message } => {
            assert_eq!(message, "MindGate is currently locked. Shutdown is disabled.")
        }
        other => panic!("unexpected {other:?}"),
    }
    assert!(!state.shutting_down);
    assert!(matches!(dispatch(&mut state, Request::Shutdown, 2, 10_000, "v"), Response::Ack));
    assert!(state.shutting_down);
}

#[test]
fn forever_lock_refuses_shutdown_at_any_time() {
    let mut state = AppState::new();
    let lock = LockState { locked: true, unlock_at: None };
    dispatch(&mut state, Request::ExtensionHeartbeat { lock_state: Some(lock) }, 0, 0, "v");
    assert!(matches!(dispatch(&mut state, Request::Shutdown, 1, u64::MAX, "v"), Response::Error { .. }));
    assert!(!state.shutting_down);
}

#[test]
fn shutdown_accepted_without_lock() {
    let mut state = AppState::new();
    assert!(matches!(dispatch(&mut state, Request::Shutdown, 0, 0, "v"), Response::Ack));
    assert!(state.shutting_down);
}

#[test]
fn ping_and_version() {
    let mut state = AppState::new();
    assert!(matches!(dispatch(&mut state, Request::Ping, 0, 0, "v"), Response::Pong));
    match dispatch(&mut state, Request::Version, 0, 0, "1.2.3") {
        Response::Version { daemon, protocol } => {
            assert_eq!(daemon, "1.2.3");
            assert_eq!(protocol, 1);
        }
        other => panic!("unexpected {other:?}"),
    }
    assert!(state.last_heartbeat.is_none());
}

#[test]
fn error_responses() {
    match not_authorized_response() {
        Response::Error { message } => assert_eq!(message, "not authorized"),
        other => panic!("unexpected {other:?}"),
    }
    match bad_request_response("missing field `cmd`") {
        Response::Error { message } => assert_eq!(message, "bad request: missing field `cmd`"),
        other => panic!("unexpected {other:?}"),
    }
}

#[test]
fn authorization_rules() {
    assert!(authorized(Some(0), 1000, None, None));
    assert!(authorized(Some(1000), 1000, None, None));
    assert!(authorized(Some(1001), 0, Some(1001), None));
    assert!(authorized(Some(1002), 0, None, Some(1002)));
    assert!(!authorized(Some(1003), 0, Some(1001), Some(1002)));
    assert!(!authorized(None, 0, None, None));
}

#[test]
fn env_uid_parses_like_u32_from_str() {
    for text in ["1000", "+7", "0", "4294967295", "", "+", "-1", "12a", " 5", "4294967296", "99999999999", "++1"] {
        assert_eq!(env_uid(Some(text.to_string())), text.parse::<u32>().ok(), "{text:?}");
    }
    assert_eq!(env_uid(None), None);
}

#[test]
fn guardian_waits_during_startup_grace() {
    let mut g = Guardian::new();
    assert_eq!(g.tick(None, 0, false, false), GuardianAction::Wait);
    assert_eq!(g.tick(None, STARTUP_GRACE_MS - 1, false, false), GuardianAction::Wait);
    assert_eq!(g.misses_so_far(), 0);
}

#[test]
fn guardian_never_connected_closes_on_second_check() {
    let mut g = Guardian::new();
    assert_eq!(g.tick(None, STARTUP_GRACE_MS, false, false), GuardianAction::Wait);
    assert_eq!(g.misses_so_far(), 1);
    assert_eq!(g.tick(None, STARTUP_GRACE_MS + 10_000, false, false), GuardianAction::CloseBrowsers);
    assert_eq!(g.misses_so_far(), 0);
}

#[test]
fn guardian_stale_heartbeat_closes_at_once_unless_locked() {
    let mut g = Guardian::new();
    let beat = STARTUP_GRACE_MS;
    let now = beat + HEARTBEAT_TIMEOUT_MS;
    assert_eq!(g.tick(Some(beat), now - 1, false, false), GuardianAction::Wait);
    assert_eq!(g.tick(Some(beat), now, true, false), GuardianAction::Wait);
    assert_eq!(g.tick(Some(beat), now, false, false), GuardianAction::CloseBrowsers);
}

#[test]
fn guardian_locked_session_keeps_misses() {
    let mut g = Guardian::new();
    assert_eq!(g.tick(None, STARTUP_GRACE_MS, false, false), GuardianAction::Wait);
    assert_eq!(g.tick(None, STARTUP_GRACE_MS + 10_000, true, false), GuardianAction::Wait);
    assert_eq!(g.misses_so_far(), 1);
    assert_eq!(g.tick(Some(STARTUP_GRACE_MS), STARTUP_GRACE_MS + 20_000, false, false), GuardianAction::Wait);
    assert_eq!(g.misses_so_far(), 0);
}

#[test]
fn guardian_never_closes_while_shutting_down() {
    let mut g = Guardian::new();
    // A heartbeat at 0 ms is stale at 200 000 ms, past the grace period.
    assert_eq!(g.tick(Some(0), 200_000, false, true), GuardianAction::Wait);
    assert_eq!(g.tick(None, 200_000, false, true), GuardianAction::Wait);
    assert_eq!(g.misses_so_far(), 0);
    assert_eq!(g.tick(Some(0), 200_000, false, false), GuardianAction::CloseBrowsers);
}

#[test]
fn closing_browsers_restarts_heartbeat_timer() {
    let mut state = AppState::new();
    let mut g = Guardian::new();
    let t = 1_000_000;
    note_browsers_closed(&mut state, t);
    assert_eq!(state.last_heartbeat, Some(t));
    assert_eq!(g.tick(state.last_heartbeat, t + HEARTBEAT_TIMEOUT_MS - 1, false, false), GuardianAction::Wait);
    assert_eq!(g.tick(state.last_heartbeat, t + HEARTBEAT_TIMEOUT_MS, false, false), GuardianAction::CloseBrowsers);
}

#[test]
fn connection_events() {
    let mut state = AppState::new();
    let refused = on_connection_event(
        &mut state,
        ConnectionEvent::Opened { peer_uid: Some(1234), my_uid: 0, sudo_uid: None, owner_uid: None },
        0,
        0,
        "v",
    );
    assert!(!refused.1);
    match refused.0 {
        Some(Response::Error { message }) => assert_eq!(message, "not authorized"),
        other => panic!("unexpected {other:?}"),
    }
    let admitted = on_connection_event(
        &mut state,
        ConnectionEvent::Opened { peer_uid: Some(0), my_uid: 1000, sudo_uid: None, owner_uid: None },
        0,
        0,
        "v",
    );
    assert!(admitted.1 && admitted.0.is_none());
    let bad = on_connection_event(&mut state, ConnectionEvent::Frame(Err("oops".to_string())), 0, 0, "v");
    assert!(bad.1);
    match bad.0 {
        Some(Response::Error { message }) => assert_eq!(message, "bad request: oops"),
        other => panic!("unexpected {other:?}"),
    }
    let beat = on_connection_event(
        &mut state,
        ConnectionEvent::Frame(Ok(Request::ExtensionHeartbeat { lock_state: None })),
        42,
        0,
        "v",
    );
    assert!(beat.1 && matches!(beat.0, Some(Response::Ack)));
    assert_eq!(state.last_heartbeat, Some(42));
}
