//! Forum-side state: per-workspace forum channels and session-bound posts.

pub mod echo;
pub mod events;
pub mod lookup;
pub mod mirror;
pub mod poll;
pub mod post;
pub mod resume;
pub mod spawn;
pub mod sync;
pub mod tags;
pub mod titles;
pub mod workspace;

use vstd::prelude::*;

use crate::db::model::{SessionRow, SessionRowView};
use crate::error::{BotError, BotResult};
use crate::herdr::model::SessionPath;
use crate::ids::{ChannelId, MessageId};
use crate::maps::TextMap;
use crate::numbers;
use crate::session::ToolState;
use crate::text;

verus! {

/// When a transcript was last changed, and its size.
#[derive(Clone, Copy, Debug, PartialEq, Eq, Structural)]
pub struct Stamp {
    /// Seconds since the epoch.
    pub seconds: i64,
    /// Nanoseconds on top of the seconds.
    pub nanos: u32,
    /// Size in bytes.
    pub size: u64,
}

/// Forum-side state: which panes host which sessions, and what is posted for
/// them.
///
/// Everything else is queried live from herdr or Discord.
pub struct Forum {
    /// Pane id to session path: it lets a closed pane mark the session's post
    /// dead instantly, and it is the poll's live-session set.
    sessions_by_pane: TextMap<SessionPath>,
    /// Sessions currently being resumed, so two messages in a dead thread cannot
    /// launch two agents.
    resuming: TextMap<()>,
    /// Session path and tool call id to the posted message and the state it
    /// currently shows.
    tool_messages: TextMap<TextMap<(MessageId, ToolState)>>,
    /// The stamp each live session's transcript had at the poll's last pass, so
    /// an unchanged file costs no mirror pass.
    transcript_stamps: TextMap<Stamp>,
}

/// The content of the forum-side state.
#[verifier::ext_equal]
pub ghost struct ForumView {
    pub panes: Map<Seq<char>, Seq<char>>,
    pub resuming: Set<Seq<char>>,
    pub tools: Map<(Seq<char>, Seq<char>), (MessageId, ToolState)>,
    pub stamps: Map<Seq<char>, Stamp>,
}

/// The posted tool calls, by session and call.
pub open spec fn tools_of(
    messages: Map<Seq<char>, TextMap<(MessageId, ToolState)>>,
) -> Map<(Seq<char>, Seq<char>), (MessageId, ToolState)> {
    Map::new(
        |key: (Seq<char>, Seq<char>)|
            messages.dom().contains(key.0) && messages[key.0]@.dom().contains(key.1),
        |key: (Seq<char>, Seq<char>)| messages[key.0]@[key.1],
    )
}

/// The session paths of panes.
pub open spec fn paths_of(panes: Map<Seq<char>, SessionPath>) -> Map<Seq<char>, Seq<char>> {
    panes.map_values(|path: SessionPath| path@)
}

/// Posted tool calls without those of a session.
pub open spec fn without_session(
    tools: Map<(Seq<char>, Seq<char>), (MessageId, ToolState)>,
    path: Seq<char>,
) -> Map<(Seq<char>, Seq<char>), (MessageId, ToolState)> {
    Map::new(
        |key: (Seq<char>, Seq<char>)| tools.dom().contains(key) && key.0 != path,
        |key: (Seq<char>, Seq<char>)| tools[key],
    )
}

impl ForumView {
    /// The state without the bookkeeping of a session.
    pub open spec fn forgetting(self, path: Seq<char>) -> ForumView {
        ForumView {
            tools: without_session(self.tools, path),
            stamps: self.stamps.remove(path),
            ..self
        }
    }
}

impl View for Forum {
    type V = ForumView;

    closed spec fn view(&self) -> ForumView {
        ForumView {
            panes: paths_of(self.sessions_by_pane@),
            resuming: self.resuming@.dom(),
            tools: tools_of(self.tool_messages@),
            stamps: self.transcript_stamps@,
        }
    }
}

impl Forum {
    /// Starts with no session known.
    #[must_use]
    pub fn new() -> (forum: Forum)
        ensures
            forum@ == (ForumView {
                panes: Map::empty(),
                resuming: Set::empty(),
                tools: Map::empty(),
                stamps: Map::empty(),
            }),
    {
        let forum = Forum {
            sessions_by_pane: TextMap::new(),
            resuming: TextMap::new(),
            tool_messages: TextMap::new(),
            transcript_stamps: TextMap::new(),
        };
        proof {
            assert(forum@.panes =~= Map::empty());
            assert(forum@.resuming =~= Set::empty());
            assert(forum@.tools =~= Map::empty());
        }
        forum
    }

    /// Drops the in-memory bookkeeping of a dead session: its posted tool calls
    /// and its transcript stamp.
    pub fn drop_session_bookkeeping(&mut self, session_path: &str)
        ensures
            final(self)@ == old(self)@.forgetting(session_path@),
    {
        let messages = self.tool_messages.remove(session_path);
        let stamp = self.transcript_stamps.remove(session_path);
        assert(self@.tools =~= old(self)@.forgetting(session_path@).tools);
    }

    /// Records that a pane hosts a session.
    pub fn host(&mut self, pane_id: &str, session_path: &SessionPath)
        ensures
            final(self)@ == (ForumView {
                panes: old(self)@.panes.insert(pane_id@, session_path@),
                ..old(self)@
            }),
    {
        self.sessions_by_pane.insert(text::copy(pane_id), session_path.copy());
        assert(self@.panes =~= old(self)@.panes.insert(pane_id@, session_path@));
    }

    /// Finds the session that a pane hosts.
    pub fn hosted(&self, pane_id: &str) -> (path: Option<&SessionPath>)
        ensures
            match path {
                Some(path) => self@.panes.dom().contains(pane_id@) && path@
                    == self@.panes[pane_id@],
                None => !self@.panes.dom().contains(pane_id@),
            },
    {
        self.sessions_by_pane.get(pane_id)
    }

    /// Forgets a pane, and returns the session it hosted.
    pub fn unhost(&mut self, pane_id: &str) -> (path: Option<SessionPath>)
        ensures
            final(self)@ == (ForumView {
                panes: old(self)@.panes.remove(pane_id@),
                ..old(self)@
            }),
            match path {
                Some(path) => old(self)@.panes.dom().contains(pane_id@) && path@
                    == old(self)@.panes[pane_id@],
                None => !old(self)@.panes.dom().contains(pane_id@),
            },
    {
        let path = self.sessions_by_pane.remove(pane_id);
        assert(self@.panes =~= old(self)@.panes.remove(pane_id@));
        path
    }

    /// Returns the panes that host a session.
    pub fn panes(&self) -> (panes: Vec<String>)
        ensures
            forall|pane: Seq<char>| #[trigger]
                text::texts(panes@).contains(pane) <==> self@.panes.dom().contains(pane),
            text::texts(panes@).no_duplicates(),
    {
        self.sessions_by_pane.keys()
    }

    /// Finds the message posted for a tool call and the state it shows.
    pub fn tool_message(&self, session_path: &str, call_id: &str) -> (posted: Option<
        (MessageId, ToolState),
    >)
        ensures
            posted == self@.tools.get((session_path@, call_id@)),
    {
        match self.tool_messages.get(session_path) {
            Some(calls) => match calls.get(call_id) {
                Some(posted) => Some(*posted),
                None => None,
            },
            None => None,
        }
    }

    /// Remembers the message posted for a tool call and the state it shows.
    pub fn remember_tool(
        &mut self,
        session_path: &str,
        call_id: &str,
        message: MessageId,
        state: ToolState,
    )
        ensures
            final(self)@ == (ForumView {
                tools: old(self)@.tools.insert((session_path@, call_id@), (message, state)),
                ..old(self)@
            }),
    {
        let mut calls = match self.tool_messages.remove(session_path) {
            Some(calls) => calls,
            None => TextMap::new(),
        };
        calls.insert(text::copy(call_id), (message, state));
        self.tool_messages.insert(text::copy(session_path), calls);
        assert(self@.tools =~= old(self)@.tools.insert(
            (session_path@, call_id@),
            (message, state),
        ));
    }

    /// Finds the stamp that a session's transcript had.
    pub fn stamp(&self, session_path: &str) -> (stamp: Option<Stamp>)
        ensures
            stamp == self@.stamps.get(session_path@),
    {
        match self.transcript_stamps.get(session_path) {
            Some(stamp) => Some(*stamp),
            None => None,
        }
    }

    /// Records the stamp of a session's transcript.
    pub fn set_stamp(&mut self, session_path: &str, stamp: Stamp)
        ensures
            final(self)@ == (ForumView {
                stamps: old(self)@.stamps.insert(session_path@, stamp),
                ..old(self)@
            }),
    {
        self.transcript_stamps.insert(text::copy(session_path), stamp);
    }

    /// Starts resuming a session, unless it is being resumed already.
    pub fn begin_resume(&mut self, session_path: &str) -> (started: bool)
        ensures
            final(self)@ == (ForumView {
                resuming: old(self)@.resuming.insert(session_path@),
                ..old(self)@
            }),
            started == !old(self)@.resuming.contains(session_path@),
    {
        let started = !self.resuming.contains(session_path);
        self.resuming.insert(text::copy(session_path), ());
        assert(self@.resuming =~= old(self)@.resuming.insert(session_path@));
        started
    }

    /// Ends resuming a session.
    pub fn end_resume(&mut self, session_path: &str)
        ensures
            final(self)@ == (ForumView {
                resuming: old(self)@.resuming.remove(session_path@),
                ..old(self)@
            }),
    {
        let ended = self.resuming.remove(session_path);
        assert(self@.resuming =~= old(self)@.resuming.remove(session_path@));
    }
}

/// A session is resumed by one message at a time: while it is being resumed no
/// other message starts it, and once that ended the next one does.
pub proof fn one_resume_at_a_time(resuming: Set<Seq<char>>, path: Seq<char>)
    ensures
        resuming.insert(path).contains(path),
        !resuming.remove(path).contains(path),
        !resuming.contains(path) ==> resuming.insert(path).remove(path) == resuming,
{
    if !resuming.contains(path) {
        assert(resuming.insert(path).remove(path) =~= resuming);
    }
}

/// The post that a session row is bound to: none, one, or a number that is no
/// channel id.
pub fn bound_post(row: &SessionRow) -> (result: BotResult<Option<ChannelId>>)
    ensures
        match (result, row@.post_channel_id) {
            (Ok(None), None) => true,
            (Ok(Some(post)), Some(id)) => post.0 == id,
            (Err(error), Some(id)) => id < 0 && error.is_other(invalid_channel(id)),
            _ => false,
        },
{
    match row.post_channel_id {
        Some(id) => match from_i64(id) {
            Ok(post) => Ok(Some(post)),
            Err(error) => Err(error),
        },
        None => Ok(None),
    }
}

/// The post that a session row is bound to, where its number is a channel id.
pub open spec fn valid_post(row: SessionRowView) -> Option<ChannelId> {
    match row.post_channel_id {
        Some(id) => if id >= 0 {
            Some(ChannelId(id as u64))
        } else {
            None
        },
        None => None,
    }
}

/// Finds the post that a session row is bound to, where its number is a channel
/// id.
pub fn usable_post(row: &SessionRow) -> (post: Option<ChannelId>)
    ensures
        post == valid_post(row@),
{
    match row.post_channel_id {
        Some(id) => match from_i64(id) {
            Ok(post) => Some(post),
            Err(_) => None,
        },
        None => None,
    }
}

/// Converts a Discord snowflake (channel or message id) to the database's
/// representation.
pub fn to_i64(id: u64) -> (result: BotResult<i64>)
    ensures
        match result {
            Ok(stored) => stored == id,
            Err(error) => id > i64::MAX && error.is_other("snowflake overflows i64"@),
        },
{
    if id <= i64::MAX as u64 {
        Ok(id as i64)
    } else {
        Err(BotError::Other(text::copy("snowflake overflows i64")))
    }
}

/// The error for a stored number that is no channel id.
pub open spec fn invalid_channel(id: i64) -> Seq<char> {
    numbers::signed_decimal(id as int) + " is not a valid channel id"@
}

/// Converts a database number back into a Discord channel id.
pub fn from_i64(id: i64) -> (result: BotResult<ChannelId>)
    ensures
        match result {
            Ok(channel) => channel.0 == id,
            Err(error) => id < 0 && error.is_other(invalid_channel(id)),
        },
{
    if id >= 0 {
        Ok(ChannelId(id as u64))
    } else {
        Err(
            BotError::Other(
                text::join2(numbers::format_i64(id).as_str(), " is not a valid channel id"),
            ),
        )
    }
}

} // verus!
