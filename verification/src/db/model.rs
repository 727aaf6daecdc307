//! The persisted row types: a workspace and its forum channel, and a session
//! bound to a forum post.

use vstd::prelude::*;

use crate::text;

verus! {

/// A herdr workspace and its persistent forum channel.
#[derive(Debug, Clone)]
pub struct WorkspaceRow {
    /// The workspace label — the stable identity the bot keys on.
    pub label: String,
    /// herdr's positional workspace id (e.g. `"w3"`), kept so a rename can
    /// re-key the row to the new label; empty for rows that predate id
    /// tracking until the first reconcile re-keys them.
    pub workspace_id: String,
    /// Discord snowflake of the forum channel, if configured.
    pub forum_channel_id: Option<i64>,
}

/// The content of a workspace row.
pub ghost struct WorkspaceRowView {
    pub label: Seq<char>,
    pub workspace_id: Seq<char>,
    pub forum_channel_id: Option<i64>,
}

impl View for WorkspaceRow {
    type V = WorkspaceRowView;

    open spec fn view(&self) -> WorkspaceRowView {
        WorkspaceRowView {
            label: self.label@,
            workspace_id: self.workspace_id@,
            forum_channel_id: self.forum_channel_id,
        }
    }
}

/// A session (agent launch) bound to a forum post.
///
/// Stores only what neither herdr nor Discord can tell: the binding of session
/// and post and the transcript sync cursors.
#[derive(Debug, Clone)]
pub struct SessionRow {
    /// `agent_session.value`, unique per launch.
    pub session_path: String,
    /// Forum post thread id, if the session is attached to one.
    pub post_channel_id: Option<i64>,
    /// The label of the herdr workspace the agent ran in.
    pub workspace_label: String,
    /// Working directory of the agent's pane.
    pub cwd: String,
    /// The transcript file synced into the post. Starts equal to
    /// `session_path`; a rotated transcript re-binds it to the new file.
    pub transcript_path: String,
    /// Conversation messages already posted to Discord.
    pub synced_messages: i64,
    /// Discord id of the last message posted for this session.
    pub last_discord_message_id: Option<i64>,
    /// Discord id of the post's starter message.
    pub starter_message_id: Option<i64>,
}

/// The content of a session row.
pub ghost struct SessionRowView {
    pub session_path: Seq<char>,
    pub post_channel_id: Option<i64>,
    pub workspace_label: Seq<char>,
    pub cwd: Seq<char>,
    pub transcript_path: Seq<char>,
    pub synced_messages: i64,
    pub last_discord_message_id: Option<i64>,
    pub starter_message_id: Option<i64>,
}

impl View for SessionRow {
    type V = SessionRowView;

    open spec fn view(&self) -> SessionRowView {
        SessionRowView {
            session_path: self.session_path@,
            post_channel_id: self.post_channel_id,
            workspace_label: self.workspace_label@,
            cwd: self.cwd@,
            transcript_path: self.transcript_path@,
            synced_messages: self.synced_messages,
            last_discord_message_id: self.last_discord_message_id,
            starter_message_id: self.starter_message_id,
        }
    }
}

impl SessionRowView {
    /// A live agent's session value belongs to the row.
    pub open spec fn hosts(self, session_value: Seq<char>) -> bool {
        session_value == self.session_path || session_value == self.transcript_path
    }
}

impl SessionRow {
    /// Whether a live agent's reported session value belongs to this row: the
    /// row's own key, or the transcript it adopted after a rotation.
    #[must_use]
    pub fn hosts(&self, session_value: &str) -> (result: bool)
        ensures
            result == self@.hosts(session_value@),
    {
        text::same(session_value, self.session_path.as_str()) || text::same(
            session_value,
            self.transcript_path.as_str(),
        )
    }

    /// Copies the row.
    pub fn copy(&self) -> (copied: SessionRow)
        ensures
            copied@ == self@,
    {
        SessionRow {
            session_path: text::copy(self.session_path.as_str()),
            post_channel_id: self.post_channel_id,
            workspace_label: text::copy(self.workspace_label.as_str()),
            cwd: text::copy(self.cwd.as_str()),
            transcript_path: text::copy(self.transcript_path.as_str()),
            synced_messages: self.synced_messages,
            last_discord_message_id: self.last_discord_message_id,
            starter_message_id: self.starter_message_id,
        }
    }
}

} // verus!
