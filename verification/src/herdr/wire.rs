//! Wire types for the herdr JSON API: the response envelope and the per-method
//! `result` payloads.

use vstd::prelude::*;

use crate::herdr::error::HerdrError;
use crate::herdr::model::{Agent, PaneId, Snapshot, TabId, Workspace};
use crate::text;
use serde_json::Value;

verus! {

/// Envelope wrapping every herdr response (success or error).
#[derive(Debug)]
pub struct Envelope {
    /// Successful command payload.
    pub result: Option<Value>,
    /// Server-reported error, when the request failed.
    pub error: Option<ServerError>,
}

/// Server-reported error payload.
#[derive(Debug)]
pub struct ServerError {
    /// Machine-readable error code.
    pub code: String,
    /// Human-readable error message.
    pub message: String,
}

impl Envelope {
    /// Converts the envelope into its `result` payload, mapping server errors to
    /// [`HerdrError::Herdr`].
    pub fn into_result(self) -> (result: Result<Value, HerdrError>)
        ensures
            match (self.error, self.result) {
                (Some(error), _) => result matches Err(reported) && reported.is_herdr(
                    error.code@,
                    error.message@,
                ),
                (None, Some(payload)) => result == Ok::<Value, HerdrError>(payload),
                (None, None) => result matches Err(reported) && reported.is_herdr(
                    "missing_result"@,
                    "herdr response contained no result"@,
                ),
            },
    {
        if let Some(error) = self.error {
            return Err(HerdrError::Herdr { code: error.code, message: error.message });
        }
        match self.result {
            Some(payload) => Ok(payload),
            None => Err(
                HerdrError::herdr(
                    "missing_result",
                    text::copy("herdr response contained no result"),
                ),
            ),
        }
    }
}

/// `result` payload of `workspace.list`.
#[derive(Debug)]
pub struct WorkspaceList {
    /// All workspaces.
    pub workspaces: Vec<Workspace>,
}

/// `result` payload of `workspace.create`, including the new root pane.
#[derive(Debug)]
pub struct WorkspaceCreated {
    /// The new workspace.
    pub workspace: Workspace,
    /// Its root pane.
    pub root_pane: RootPane,
}

/// `result` payload of `tab.create`.
#[derive(Debug)]
pub struct TabCreated {
    /// The new tab.
    pub tab: TabRef,
    /// Its root pane.
    pub root_pane: RootPane,
}

/// Tab portion of a `tab.create` response.
#[derive(Debug)]
pub struct TabRef {
    /// Unique tab id.
    pub tab_id: TabId,
    /// Tab label, when one is set.
    pub label: Option<String>,
}

/// Root pane portion of a `workspace.create`/`tab.create` response.
#[derive(Debug)]
pub struct RootPane {
    /// Unique pane id.
    pub pane_id: PaneId,
    /// Working directory, when known.
    pub cwd: Option<String>,
}

/// `result` payload of `agent.list`.
#[derive(Debug)]
pub struct AgentList {
    /// All agents.
    pub agents: Vec<Agent>,
}

/// `result` payload of `agent.get`/`agent.start`/`agent.prompt`/`agent.wait`.
#[derive(Debug)]
pub struct AgentInfo {
    /// The agent.
    pub agent: Agent,
}

/// `result` payload of `worktree.list`.
#[derive(Debug)]
pub struct WorktreeList {
    /// The repo the listed worktrees belong to; `source_workspace_id` is the
    /// main workspace of the repo, when it is open.
    pub source: Option<WorktreeSource>,
    /// The worktrees of the repo.
    pub worktrees: Vec<WorktreeEntry>,
}

/// The repo a `worktree.list` query scoped to.
#[derive(Debug, Clone)]
pub struct WorktreeSource {
    /// The main (non-worktree) workspace of the repo, when it is open.
    pub source_workspace_id: Option<String>,
}

/// One worktree of a repo, as reported by `worktree.list`.
#[derive(Debug, Clone)]
pub struct WorktreeEntry {
    /// The workspace open on this checkout, when it is open.
    pub open_workspace_id: Option<String>,
    /// The checked-out branch, when not detached.
    pub branch: Option<String>,
}

/// `result` payload of `session.snapshot`.
#[derive(Debug)]
pub struct SnapshotResult {
    /// The snapshot.
    pub snapshot: Snapshot,
}

} // verus!
