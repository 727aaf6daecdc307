//! The session and post binding lifecycle: ensuring a live agent's session has a
//! forum post (creating post and row on first sight), and deleting foreign forum
//! posts.

use vstd::prelude::*;

use crate::db::model::{SessionRow, SessionRowView};
use crate::error::{BotError, BotResult};
use crate::forum;
use crate::forum::lookup::Existence;
use crate::forum::titles;
use crate::forum::{Forum, ForumView};
use crate::herdr::model::{Agent, SessionPath};
use crate::ids::{ChannelId, MessageId, UserId};
use crate::session::Harness;
use crate::text;

verus! {

impl Forum {
    /// Starts ensuring that the agent's session has a forum post: records the
    /// pane's session so that a closed pane can mark the post dead instantly, and
    /// returns the session and harness. Agents without a session reference or with
    /// an unknown harness get no post.
    pub fn ensure_session_post(&mut self, agent: &Agent) -> (result: Option<(SessionPath, Harness)>)
        ensures
            match (result, agent.session_value(), agent.harness) {
                (Some((path, harness)), Some(value), Some(known)) => path@ == value && harness
                    == known && final(self)@ == (ForumView {
                    panes: old(self)@.panes.insert(agent.pane_id@, value),
                    ..old(self)@
                }),
                (None, Some(_), None) => final(self)@ == old(self)@,
                (None, None, _) => final(self)@ == old(self)@,
                _ => false,
            },
    {
        match (&agent.agent_session, agent.harness) {
            (Some(session), Some(harness)) => {
                self.host(agent.pane_id.as_str(), &session.value);
                Some((session.value.copy(), harness))
            },
            (_, _) => None,
        }
    }
}

/// What ensuring a session's post leads to.
pub enum EnsureStep {
    /// Create a post for the row with this key.
    Create(SessionPath),
    /// The row with this key is bound to a post, which is created again where it
    /// was deleted.
    Check(ChannelId, SessionPath),
    /// The row's post is no channel id.
    Invalid(BotError),
}

impl EnsureStep {
    /// The step is the one for a row, or for the session path where there is none.
    pub open spec fn follows(self, row: Option<SessionRowView>, path: Seq<char>) -> bool {
        match (self, row) {
            (EnsureStep::Create(key), None) => key@ == path,
            (EnsureStep::Create(key), Some(row)) => row.post_channel_id is None && key@
                == row.session_path,
            (EnsureStep::Check(post, key), Some(row)) => row.post_channel_id == Some(post.0 as i64)
                && post.0 <= i64::MAX && key@ == row.session_path,
            (EnsureStep::Invalid(error), Some(row)) => match row.post_channel_id {
                Some(id) => id < 0 && error.is_other(forum::invalid_channel(id)),
                None => false,
            },
            _ => false,
        }
    }
}

/// The row that an agent's session belongs to: the one with its key, or the one
/// that adopted its file.
pub open spec fn chosen_row(
    by_key: Option<SessionRowView>,
    by_transcript: Option<SessionRowView>,
) -> Option<SessionRowView> {
    match by_key {
        Some(row) => Some(row),
        None => by_transcript,
    }
}

/// The content of a row, where there is one.
pub open spec fn row_of(row: Option<&SessionRow>) -> Option<SessionRowView> {
    match row {
        Some(row) => Some(row@),
        None => None,
    }
}

fn ensure_row(row: &SessionRow) -> (step: EnsureStep)
    ensures
        step.follows(Some(row@), row@.session_path),
{
    let key = SessionPath::new(text::copy(row.session_path.as_str()));
    match forum::bound_post(row) {
        Ok(Some(post)) => EnsureStep::Check(post, key),
        Ok(None) => EnsureStep::Create(key),
        Err(error) => EnsureStep::Invalid(error),
    }
}

impl Forum {
    /// Decides what ensuring a session's post leads to, by the row keyed by the
    /// reported path, or — when herdr has caught up with a rotation the poll
    /// already adopted — the row that reads the reported file, so no duplicate
    /// post is created. The pane is mapped to the adopted row's key then.
    pub fn ensure_found(
        &mut self,
        agent: &Agent,
        session_path: &SessionPath,
        by_key: Option<&SessionRow>,
        by_transcript: Option<&SessionRow>,
    ) -> (step: EnsureStep)
        ensures
            step.follows(chosen_row(row_of(by_key), row_of(by_transcript)), session_path@),
            final(self)@ == match (by_key, by_transcript) {
                (None, Some(adopted)) => ForumView {
                    panes: old(self)@.panes.insert(agent.pane_id@, adopted@.session_path),
                    ..old(self)@
                },
                _ => old(self)@,
            },
    {
        match (by_key, by_transcript) {
            (Some(row), _) => ensure_row(row),
            (None, Some(adopted)) => {
                let key = SessionPath::new(text::copy(adopted.session_path.as_str()));
                self.host(agent.pane_id.as_str(), &key);
                ensure_row(adopted)
            },
            (None, None) => EnsureStep::Create(session_path.copy()),
        }
    }
}

/// Decides whether a bound post is created again: where it was deleted on Discord,
/// as a live agent always gets a post.
pub fn recreates_post(post: Existence) -> (result: bool)
    ensures
        result == (post is Gone),
{
    match post {
        Existence::Gone => true,
        _ => false,
    }
}

/// The transcript that a session's title is read from: the one its row syncs — the
/// adopted file when the row rotated.
pub fn title_source<'a>(existing: Option<&'a SessionRow>, session_path: &'a SessionPath) -> (path:
    &'a str)
    ensures
        path@ == match existing {
            Some(row) => row@.transcript_path,
            None => session_path@,
        },
{
    match existing {
        Some(row) => row.transcript_path.as_str(),
        None => session_path.as_str(),
    }
}

/// A post that is about to be created for a session.
pub struct SessionPost {
    /// Title of the post.
    pub title: String,
    /// Its starter message.
    pub intro: String,
}

/// Makes the forum post for a session: its title, which the transcript may record,
/// and the starter message with what the agent reports of itself.
pub fn create_session_post(
    agent: &Agent,
    harness: Harness,
    session_path: &SessionPath,
    worktree: Option<&str>,
    recorded: Option<&str>,
) -> (post: SessionPost)
    ensures
        post.title@ == titles::session_titled(
            text::opt_str(recorded),
            text::opt_text(agent.terminal_title_stripped),
            harness,
        ),
        post.intro@ == titles::intro(
            Some(agent.pane_id@),
            text::opt_str(worktree),
            agent.cwd@,
            Some(
                match agent.session_value() {
                    Some(value) => value,
                    None => session_path@,
                },
            ),
        ),
{
    let shown = match &agent.agent_session {
        Some(session) => &session.value,
        None => session_path,
    };
    SessionPost {
        title: titles::session_title(agent, harness, recorded),
        intro: titles::session_intro(Some(agent), worktree, agent.cwd.as_str(), Some(shown)),
    }
}

/// The row of a session that is bound to a fresh post: the cursor restarts.
pub open spec fn rebound(
    existing: Option<SessionRowView>,
    workspace_label: Seq<char>,
    session_path: Seq<char>,
    cwd: Seq<char>,
    post: i64,
    starter: Option<i64>,
) -> SessionRowView {
    match existing {
        Some(row) => SessionRowView {
            post_channel_id: Some(post),
            synced_messages: 0,
            last_discord_message_id: None,
            starter_message_id: starter,
            ..row
        },
        None => SessionRowView {
            session_path,
            post_channel_id: Some(post),
            workspace_label,
            cwd,
            transcript_path: session_path,
            synced_messages: 0,
            last_discord_message_id: None,
            starter_message_id: starter,
        },
    }
}

/// A snowflake in the database's representation.
pub open spec fn stored_message(message: Option<MessageId>) -> Option<i64> {
    match message {
        Some(message) => Some(message.0 as i64),
        None => None,
    }
}

/// A message id that fits the database.
pub open spec fn fits_database(message: Option<MessageId>) -> bool {
    match message {
        Some(message) => message.0 <= i64::MAX,
        None => true,
    }
}

/// Re-binds the existing row (possibly with an adopted transcript) to a fresh post,
/// or makes it. A fresh thread's last message is its starter; its id is kept so
/// that the intro can be refreshed.
pub fn bind_session(
    existing: Option<SessionRow>,
    workspace_label: &str,
    session_path: &SessionPath,
    cwd: &str,
    post: ChannelId,
    starter: Option<MessageId>,
) -> (result: BotResult<SessionRow>)
    ensures
        match result {
            Ok(row) => post.0 <= i64::MAX && fits_database(starter) && row@ == rebound(
                match existing {
                    Some(row) => Some(row@),
                    None => None,
                },
                workspace_label@,
                session_path@,
                cwd@,
                post.0 as i64,
                stored_message(starter),
            ),
            Err(error) => (post.0 > i64::MAX || !fits_database(starter)) && error.is_other(
                "snowflake overflows i64"@,
            ),
        },
{
    let starter_message_id = match starter {
        Some(message) => match forum::to_i64(message.0) {
            Ok(id) => Some(id),
            Err(error) => return Err(error),
        },
        None => None,
    };
    let post_channel_id = match forum::to_i64(post.0) {
        Ok(id) => Some(id),
        Err(error) => return Err(error),
    };
    let row = match existing {
        Some(row) => {
            let mut row = row;
            row.post_channel_id = post_channel_id;
            row.synced_messages = 0;
            row.last_discord_message_id = None;
            row.starter_message_id = starter_message_id;
            row
        },
        None => SessionRow {
            session_path: text::copy(session_path.as_str()),
            post_channel_id,
            workspace_label: text::copy(workspace_label),
            cwd: text::copy(cwd),
            transcript_path: text::copy(session_path.as_str()),
            synced_messages: 0,
            last_discord_message_id: None,
            starter_message_id,
        },
    };
    Ok(row)
}

/// A session that got its post is found again: an agent that reports its path, or
/// the file it adopted, belongs to the bound row, whose post is then looked up
/// instead of created.
pub proof fn a_bound_session_is_found_again(
    existing: Option<SessionRowView>,
    workspace_label: Seq<char>,
    session_path: Seq<char>,
    cwd: Seq<char>,
    post: i64,
    starter: Option<i64>,
    step: EnsureStep,
)
    requires
        existing matches Some(row) ==> row.session_path == session_path,
        post >= 0,
        step.follows(
            Some(rebound(existing, workspace_label, session_path, cwd, post, starter)),
            session_path,
        ),
    ensures
        rebound(existing, workspace_label, session_path, cwd, post, starter).hosts(session_path),
        step matches EnsureStep::Check(channel, key) && channel.0 == post && key@ == session_path,
{
}

/// Decides whether a new forum post is deleted. The bot's own posts are left
/// alone, and so are posts in forums that the bot does not manage; every manual
/// post is deleted silently — agents launch only through the launch modal. A post
/// without a message yet is left alone.
pub fn handle_thread_create(managed: bool, author: Option<UserId>, bot: UserId) -> (deletes: bool)
    ensures
        deletes == (managed && author is Some && author != Some(bot)),
{
    if !managed {
        return false;
    }
    match author {
        Some(author) => author != bot,
        None => false,
    }
}

} // verus!
