//! MindGate core: the protocol types, lock-expiry rules, wire framing and the
//! decision logic of the daemon, its guardian, the session watcher and the
//! command-line client, each stated as a contract and proved.

pub mod protocol;
pub mod text;
pub mod theme;
pub mod lock;
pub mod wire;
pub mod server;
pub mod guardian;
pub mod session;
pub mod engine;
pub mod cli;
