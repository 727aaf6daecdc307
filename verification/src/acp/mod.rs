//! ACP subprocess supervision and session lifecycle.
//!
//! Each active session is represented by one actor. What an actor, a prompt or
//! a registry does next is decided here; connections, timers and queues belong
//! to the caller.

pub mod connection;
pub mod model;
pub mod options;
pub mod projection;
pub mod prompt;
pub mod protocol;
pub mod registry;
