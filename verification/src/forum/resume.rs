//! Resuming dead sessions: re-launching the agent of a dead session in its
//! workspace with a native harness resume, re-binding it to the same post.

use vstd::prelude::*;

use crate::commands::harness;
use crate::db::model::{SessionRow, SessionRowView};
use crate::error::{BotError, BotResult};
use crate::forum;
use crate::herdr::model::{Workspace, WorkspaceId};
use crate::ids::ChannelId;
use crate::session::Harness;
use crate::text;

verus! {

/// The `agent.start` arguments that resume a session's conversation.
pub open spec fn resumption(harness: Harness, row: SessionRowView) -> Seq<Seq<char>> {
    match harness {
        Harness::Omp => seq!["--resume="@ + row.transcript_path],
        Harness::ClaudeCode => seq!["--resume"@, row.session_path],
        Harness::Codex => seq!["resume"@, row.session_path],
        Harness::Pi | Harness::Opencode => seq!["--session"@, row.session_path],
    }
}

/// Makes the `agent.start` arguments that resume `session`'s conversation in its
/// harness: omp resumes by transcript path, the others by session id (the
/// row key — herdr's reported session reference), which pi and opencode take
/// via `--session`.
#[must_use]
pub fn resume_args(harness: Harness, session: &SessionRow) -> (args: Vec<String>)
    ensures
        text::texts(args@) == resumption(harness, session@),
{
    let path = session.session_path.as_str();
    let args = match harness {
        Harness::Omp => vec![text::join2("--resume=", session.transcript_path.as_str())],
        Harness::ClaudeCode => vec![text::copy("--resume"), text::copy(path)],
        Harness::Codex => vec![text::copy("resume"), text::copy(path)],
        Harness::Pi | Harness::Opencode => vec![text::copy("--session"), text::copy(path)],
    };
    assert(text::texts(args@) =~= resumption(harness, session@));
    args
}

/// Finds the post of a session that is to be resumed.
pub fn resume_post(session: &SessionRow) -> (result: BotResult<ChannelId>)
    ensures
        match (result, session@.post_channel_id) {
            (Ok(post), Some(id)) => post.0 == id,
            (Err(error), Some(id)) => id < 0 && error.is_other(forum::invalid_channel(id)),
            (Err(error), None) => error.is_other(
                "session `"@ + session@.session_path + "` has no forum post"@,
            ),
            _ => false,
        },
{
    match session.post_channel_id {
        Some(id) => forum::from_i64(id),
        None => Err(
            BotError::Other(
                text::join3("session `", session.session_path.as_str(), "` has no forum post"),
            ),
        ),
    }
}

/// How a session is resumed.
pub struct ResumePlan {
    /// Harness the agent runs.
    pub harness: Harness,
    /// Its arguments.
    pub args: Vec<String>,
    /// Working directory of the agent.
    pub cwd: String,
    /// Workspace the agent is started in; a new one where it is gone.
    pub workspace: Option<WorkspaceId>,
    /// Label of the workspace, new or not.
    pub label: String,
    /// Name of the agent.
    pub name: String,
}

/// Plans how a session is resumed under a fresh agent name: in the harness that
/// its post is tagged with, in its workspace where that is still open, else in a
/// fresh workspace named after the agent.
pub fn resume_session(
    session: &SessionRow,
    applied: Option<Harness>,
    workspace: Option<&Workspace>,
    name: &str,
) -> (plan: ResumePlan)
    ensures
        plan.harness == match applied {
            Some(harness) => harness,
            None => harness::default_kind(),
        },
        text::texts(plan.args@) == resumption(plan.harness, session@),
        plan.cwd@ == session@.cwd,
        plan.name@ == name@,
        match workspace {
            Some(workspace) => plan.label@ == workspace.label@ && (match plan.workspace {
                Some(id) => id@ == workspace.workspace_id@,
                None => false,
            }),
            None => plan.label@ == name@ && plan.workspace is None,
        },
{
    let harness = match applied {
        Some(harness) => harness,
        None => harness::default_agent_kind(),
    };
    let args = resume_args(harness, session);
    let (workspace, label) = match workspace {
        Some(workspace) => (
            Some(workspace.workspace_id.copy()),
            text::copy(workspace.label.as_str()),
        ),
        None => (None, text::copy(name)),
    };
    ResumePlan {
        harness,
        args,
        cwd: text::copy(session.cwd.as_str()),
        workspace,
        label,
        name: text::copy(name),
    }
}

/// Makes the row of a resumed session: it follows the agent into its (possibly
/// re-created) workspace; the post binding, transcript, and sync cursor are
/// untouched — a native resume continues the same transcript.
pub fn resumed_row(session: &SessionRow, workspace_label: &str, cwd: &str) -> (row: SessionRow)
    ensures
        row@ == (SessionRowView {
            workspace_label: workspace_label@,
            cwd: cwd@,
            ..session@
        }),
{
    let mut row = session.copy();
    row.workspace_label = text::copy(workspace_label);
    row.cwd = text::copy(cwd);
    row
}

} // verus!
