//! Typed client logic for the herdr Unix-socket JSON API.
//!
//! Each API method has a request that is built here and an answer that is
//! judged here; the socket itself belongs to the caller. The data model lives in
//! `model`, the requests in `client`, the event-subscription machinery in
//! `event`, and the wire payload types in `wire`.

pub mod client;
pub mod error;
pub mod event;
pub mod model;
pub mod wire;

pub use client::Herdr;
pub use error::HerdrError;
pub use event::{Event, EventKind, Subscription};
pub use model::{
    Agent, AgentSession, AgentStatus, CreatedTab, CreatedWorkspace, PaneId, SessionPath, Snapshot,
    TabId, Workspace, WorkspaceId, WorktreeSpace,
};
