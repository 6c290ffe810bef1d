//! The daemon's request handling: what each request does to the daemon's
//! state and what it is answered, and who may send requests at all.
//!
//! Monotonic times (heartbeats) are milliseconds since the daemon started;
//! wall-clock times (lock expiry) are milliseconds since the Unix epoch.

use vstd::prelude::*;
use crate::lock::{lock_in_effect, effective_locked_at};
use crate::protocol::{LockState, Request, Response, StatusInfo};
use crate::text::{parse_u32, parse_uid};

verus! {

/// How stale a heartbeat can be before the extension counts as
/// disconnected: 150 seconds. Shared by the status report and the
/// guardian's browser-close trigger, so the two never disagree.
pub const HEARTBEAT_TIMEOUT_MS: u64 = 150_000;

/// The protocol version the daemon reports.
pub const PROTOCOL_VERSION: u16 = 1;

/// The answer to a shutdown request while a lock is in effect.
pub const SHUTDOWN_REFUSED_MESSAGE: &'static str = "MindGate is currently locked. Shutdown is disabled.";

/// The answer to a connection whose peer may not issue commands.
pub const NOT_AUTHORIZED_MESSAGE: &'static str = "not authorized";

/// The daemon's shared state.
#[derive(Debug, Clone, Copy)]
pub struct AppState {
    /// When the extension last sent a heartbeat, if ever.
    pub last_heartbeat: Option<u64>,
    /// Set once the daemon has agreed to shut down.
    pub shutting_down: bool,
    /// The lock state last reported by the extension.
    pub lock_state: Option<LockState>,
}

impl AppState {
    /// The state of a daemon that has just started.
    pub fn new() -> (s: Self)
        ensures
            s.last_heartbeat is None,
            !s.shutting_down,
            s.lock_state is None,
    {
        AppState { last_heartbeat: None, shutting_down: false, lock_state: None }
    }
}

/// A heartbeat received at `last` still counts at `now`.
pub open spec fn heartbeat_fresh(last: Option<u64>, now: u64) -> bool {
    match last {
        Some(t) => now - t < HEARTBEAT_TIMEOUT_MS,
        None => false,
    }
}

/// A shutdown is refused while the reported lock is in effect.
pub open spec fn shutdown_refused(lock_state: Option<LockState>, wall_now: u64) -> bool {
    match lock_state {
        Some(l) => lock_in_effect(l, wall_now),
        None => false,
    }
}

/// The daemon's state after handling `req`.
pub open spec fn next_state(state: AppState, req: Request, mono_now: u64, wall_now: u64) -> AppState {
    match req {
        Request::ExtensionHeartbeat { lock_state } => AppState {
            last_heartbeat: Some(mono_now),
            lock_state: match lock_state {
                Some(l) => Some(l),
                None => state.lock_state,
            },
            ..state
        },
        Request::Shutdown => if shutdown_refused(state.lock_state, wall_now) {
            state
        } else {
            AppState { shutting_down: true, ..state }
        },
        _ => state,
    }
}

/// `res` is the daemon's answer to `req` in `state`.
pub open spec fn answers(state: AppState, req: Request, mono_now: u64, wall_now: u64, version: Seq<char>, res: Response) -> bool {
    match req {
        Request::Status => res matches Response::Status(info) && {
            &&& info.daemon_running
            &&& info.extension_connected == heartbeat_fresh(state.last_heartbeat, mono_now)
            &&& info.lock_state == state.lock_state
        },
        Request::ExtensionHeartbeat { .. } => res is Ack,
        Request::Ping => res is Pong,
        Request::Version => res matches Response::Version { daemon, protocol } && daemon@ == version
            && protocol == PROTOCOL_VERSION,
        Request::Shutdown => if shutdown_refused(state.lock_state, wall_now) {
            res matches Response::Error { message } && message@ == SHUTDOWN_REFUSED_MESSAGE@
        } else {
            res is Ack
        },
    }
}

/// Whether the extension counts as connected at `now`.
pub fn extension_connected(last_heartbeat: Option<u64>, now: u64) -> (res: bool)
    ensures
        res == heartbeat_fresh(last_heartbeat, now),
{
    match last_heartbeat {
        Some(t) => now.saturating_sub(t) < HEARTBEAT_TIMEOUT_MS,
        None => false,
    }
}

/// The status report of the daemon at monotonic time `now`.
pub fn build_status(state: &AppState, now: u64) -> (res: Response)
    ensures
        res matches Response::Status(info) && {
            &&& info.daemon_running
            &&& info.extension_connected == heartbeat_fresh(state.last_heartbeat, now)
            &&& info.lock_state == state.lock_state
        },
{
    Response::Status(
        StatusInfo {
            daemon_running: true,
            extension_connected: extension_connected(state.last_heartbeat, now),
            lock_state: state.lock_state,
        },
    )
}

/// Whether a shutdown request is refused at wall-clock time `wall_now`.
pub fn refuses_shutdown(lock_state: &Option<LockState>, wall_now: u64) -> (res: bool)
    ensures
        res == shutdown_refused(*lock_state, wall_now),
{
    match lock_state {
        Some(l) => effective_locked_at(l, wall_now),
        None => false,
    }
}

/// Handles one request: updates the daemon's state and returns the answer.
/// `mono_now` is the monotonic time, `wall_now` the wall-clock time and
/// `daemon_version` the version the daemon reports.
pub fn dispatch(state: &mut AppState, req: Request, mono_now: u64, wall_now: u64, daemon_version: &str) -> (res: Response)
    ensures
        *final(state) == next_state(*old(state), req, mono_now, wall_now),
        answers(*old(state), req, mono_now, wall_now, daemon_version@, res),
{
    match req {
        Request::Status => build_status(state, mono_now),
        Request::ExtensionHeartbeat { lock_state } => {
            state.last_heartbeat = Some(mono_now);
            if let Some(ls) = lock_state {
                state.lock_state = Some(ls);
            }
            Response::Ack
        },
        Request::Ping => Response::Pong,
        Request::Version => Response::Version {
            daemon: String::from_str(daemon_version),
            protocol: PROTOCOL_VERSION,
        },
        Request::Shutdown => {
            if refuses_shutdown(&state.lock_state, wall_now) {
                return Response::Error { message: String::from_str(SHUTDOWN_REFUSED_MESSAGE) };
            }
            state.shutting_down = true;
            Response::Ack
        },
    }
}

/// The answer to a connection whose peer may not issue commands.
pub fn not_authorized_response() -> (res: Response)
    ensures
        res matches Response::Error { message } && message@ == NOT_AUTHORIZED_MESSAGE@,
{
    Response::Error { message: String::from_str(NOT_AUTHORIZED_MESSAGE) }
}

pub const BAD_REQUEST_PREFIX: &'static str = "bad request: ";

/// The answer to a frame whose body is not a request; `detail` says why.
pub fn bad_request_response(detail: &str) -> (res: Response)
    ensures
        res matches Response::Error { message } && message@ == BAD_REQUEST_PREFIX@ + detail@,
{
    let mut message = String::from_str(BAD_REQUEST_PREFIX);
    message.append(detail);
    Response::Error { message }
}

/// What happens on a client connection.
#[derive(Debug)]
pub enum ConnectionEvent {
    /// A peer connected; its user id (if it could be determined), the
    /// daemon's own, and the ids read from `SUDO_UID` and
    /// `MINDGATE_OWNER_UID`.
    Opened { peer_uid: Option<u32>, my_uid: u32, sudo_uid: Option<u32>, owner_uid: Option<u32> },
    /// A frame arrived: its request, or why its body is not one.
    Frame(Result<Request, String>),
}

/// Handles one event of a connection: updates the daemon's state and
/// returns the answer to send, if any, and whether to keep serving the
/// connection. A peer that may not issue commands is answered "not
/// authorized" and dropped before any request is read; a frame that is not a
/// request is answered "bad request" and the connection stays open.
pub fn on_connection_event(state: &mut AppState, event: ConnectionEvent, mono_now: u64, wall_now: u64, daemon_version: &str) -> (out: (Option<Response>, bool))
    ensures
        match event {
            ConnectionEvent::Opened { peer_uid, my_uid, sudo_uid, owner_uid } => {
                &&& *final(state) == *old(state)
                &&& out.1 == peer_allowed(peer_uid, my_uid, sudo_uid, owner_uid)
                &&& out.1 ==> out.0 is None
                &&& !out.1 ==> (out.0 matches Some(Response::Error { message }) && message@ == NOT_AUTHORIZED_MESSAGE@)
            },
            ConnectionEvent::Frame(Err(detail)) => {
                &&& *final(state) == *old(state)
                &&& out.1
                &&& out.0 matches Some(Response::Error { message }) && message@ == BAD_REQUEST_PREFIX@ + detail@
            },
            ConnectionEvent::Frame(Ok(req)) => {
                &&& *final(state) == next_state(*old(state), req, mono_now, wall_now)
                &&& out.1
                &&& out.0 matches Some(res) && answers(*old(state), req, mono_now, wall_now, daemon_version@, res)
            },
        },
{
    match event {
        ConnectionEvent::Opened { peer_uid, my_uid, sudo_uid, owner_uid } => {
            if authorized(peer_uid, my_uid, sudo_uid, owner_uid) {
                (None, true)
            } else {
                (Some(not_authorized_response()), false)
            }
        },
        ConnectionEvent::Frame(Err(detail)) => (Some(bad_request_response(detail.as_str())), true),
        ConnectionEvent::Frame(Ok(req)) => (Some(dispatch(state, req, mono_now, wall_now, daemon_version)), true),
    }
}

/// Who may issue commands: the daemon's own user, root, and the human
/// behind `sudo` or recorded as the installing owner.
pub open spec fn peer_allowed(peer_uid: Option<u32>, my_uid: u32, sudo_uid: Option<u32>, owner_uid: Option<u32>) -> bool {
    match peer_uid {
        Some(uid) => uid == my_uid || uid == 0 || Some(uid) == sudo_uid || Some(uid) == owner_uid,
        None => false,
    }
}

/// A user id read from an environment variable's value, as `u32::from_str`
/// reads it; `None` when the variable is unset or does not hold one.
pub fn env_uid(value: Option<String>) -> (res: Option<u32>)
    ensures
        res == match value {
            Some(v) => parse_u32(v@),
            None => None::<u32>,
        },
{
    match value {
        Some(v) => parse_uid(v.as_str()),
        None => None,
    }
}

/// Whether a peer may issue commands. A peer whose user cannot be
/// determined is refused.
pub fn authorized(peer_uid: Option<u32>, my_uid: u32, sudo_uid: Option<u32>, owner_uid: Option<u32>) -> (res: bool)
    ensures
        res == peer_allowed(peer_uid, my_uid, sudo_uid, owner_uid),
{
    match peer_uid {
        Some(uid) => {
            uid == my_uid || uid == 0 || (match sudo_uid {
                Some(s) => s == uid,
                None => false,
            }) || (match owner_uid {
                Some(o) => o == uid,
                None => false,
            })
        },
        None => false,
    }
}

/// A heartbeat keeps the extension connected for the full timeout after it
/// arrives, and no longer.
pub proof fn heartbeat_counts_for_the_timeout(state: AppState, lock_state: Option<LockState>, at: u64, wall: u64, now: u64)
    requires
        at <= now,
    ensures
        heartbeat_fresh(
            next_state(state, Request::ExtensionHeartbeat { lock_state }, at, wall).last_heartbeat,
            now,
        ) <==> now < at + HEARTBEAT_TIMEOUT_MS,
{
}

/// Once the extension reports a lock, the daemon refuses to shut down for
/// exactly as long as that lock is in effect.
pub proof fn reported_lock_refuses_shutdown_while_in_effect(state: AppState, l: LockState, at: u64, wall: u64, later: u64)
    ensures
        ({
            let s1 = next_state(state, Request::ExtensionHeartbeat { lock_state: Some(l) }, at, wall);
            &&& shutdown_refused(s1.lock_state, later) == lock_in_effect(l, later)
            &&& lock_in_effect(l, later) ==> next_state(s1, Request::Shutdown, at, later) == s1
            &&& !lock_in_effect(l, later) ==> next_state(s1, Request::Shutdown, at, later).shutting_down
        }),
{
}

/// A heartbeat that carries no lock state leaves the reported lock as it was.
pub proof fn bare_heartbeat_keeps_reported_lock(state: AppState, at: u64, wall: u64)
    ensures
        next_state(state, Request::ExtensionHeartbeat { lock_state: None }, at, wall).lock_state == state.lock_state,
{
}

/// A refused shutdown changes nothing; an accepted one only sets the flag.
pub proof fn shutdown_outcome(state: AppState, at: u64, wall: u64)
    ensures
        shutdown_refused(state.lock_state, wall) ==> next_state(state, Request::Shutdown, at, wall) == state,
        !shutdown_refused(state.lock_state, wall) ==> next_state(state, Request::Shutdown, at, wall)
            == (AppState { shutting_down: true, ..state }),
{
}

/// Root and the daemon's own user are always allowed; a peer whose user is
/// unknown never is.
pub proof fn authorization_basics(my_uid: u32, sudo_uid: Option<u32>, owner_uid: Option<u32>)
    ensures
        peer_allowed(Some(0), my_uid, sudo_uid, owner_uid),
        peer_allowed(Some(my_uid), my_uid, sudo_uid, owner_uid),
        !peer_allowed(None, my_uid, sudo_uid, owner_uid),
{
}

/// What a heartbeat reports is what the next status report gives back.
pub proof fn status_gives_back_reported_lock(state: AppState, l: LockState, at: u64, wall: u64)
    ensures
        next_state(state, Request::ExtensionHeartbeat { lock_state: Some(l) }, at, wall).lock_state == Some(l),
        next_state(
            next_state(state, Request::ExtensionHeartbeat { lock_state: Some(l) }, at, wall),
            Request::Status,
            at,
            wall,
        ).lock_state == Some(l),
{
}

/// Only a heartbeat from the extension moves the heartbeat time: a status
/// request, a ping, a version request and a shutdown request leave it (and
/// the reported lock) as they were, and a status request changes nothing at
/// all. So asking for status never makes a silent extension look connected.
pub proof fn only_heartbeats_move_the_heartbeat(state: AppState, req: Request, mono_now: u64, wall_now: u64, later: u64)
    ensures
        !(req is ExtensionHeartbeat) ==> next_state(state, req, mono_now, wall_now).last_heartbeat == state.last_heartbeat,
        !(req is ExtensionHeartbeat) ==> next_state(state, req, mono_now, wall_now).lock_state == state.lock_state,
        next_state(state, Request::Status, mono_now, wall_now) == state,
        next_state(state, Request::Ping, mono_now, wall_now) == state,
        next_state(state, Request::Version, mono_now, wall_now) == state,
        heartbeat_fresh(next_state(state, Request::Status, mono_now, wall_now).last_heartbeat, later)
            == heartbeat_fresh(state.last_heartbeat, later),
{
}

} // verus!
