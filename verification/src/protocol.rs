//! Shared types of the IPC protocol between the CLI, the daemon and the
//! browser extension.

use vstd::prelude::*;

verus! {

/// The lock state reported by the extension.
#[derive(Debug, Clone, Copy, PartialEq, Eq, Structural)]
pub struct LockState {
    pub locked: bool,
    /// Milliseconds since the Unix epoch. `None` means locked forever.
    pub unlock_at: Option<u64>,
}

impl Default for LockState {
    fn default() -> (res: Self)
        ensures
            !res.locked,
            res.unlock_at is None,
    {
        LockState { locked: false, unlock_at: None }
    }
}

/// Requests sent to the daemon over the Unix domain socket.
#[derive(Debug, Clone, Copy)]
pub enum Request {
    /// Connectivity check from the CLI.
    Ping,
    /// Daemon version info.
    Version,
    /// Sent by the browser extension to prove it is alive.
    ExtensionHeartbeat { lock_state: Option<LockState> },
    /// Current daemon and extension status.
    Status,
    /// Ask the daemon to shut down gracefully.
    Shutdown,
}

/// Status information returned by the daemon.
#[derive(Debug, Clone)]
pub struct StatusInfo {
    pub daemon_running: bool,
    pub extension_connected: bool,
    pub lock_state: Option<LockState>,
}

/// Responses sent from the daemon to the CLI or extension.
#[derive(Debug, Clone)]
pub enum Response {
    /// The request was carried out (`"Ok"` on the wire).
    Ack,
    Pong,
    Version { daemon: String, protocol: u16 },
    Status(StatusInfo),
    Error { message: String },
}

} // verus!
