//! Durable session bindings and Discord render projections.

use vstd::prelude::*;

use crate::config::AgentKey;
use crate::error::{BotError, BotResult};
use crate::ids::{GenericChannelId, MessageId};
use crate::numbers;
use crate::paths;
use crate::text;

pub mod migrate;
pub mod model;

verus! {

/// The complete Discord projection for one logical ACP source.
#[derive(Clone, Debug, Eq, PartialEq)]
pub struct RenderProjection {
    /// Discord forum thread containing the projection.
    pub thread_id: GenericChannelId,
    /// Kind of logical item, such as `turn` or `tool_call`.
    pub source_kind: String,
    /// Opaque identifier within the source kind.
    pub source_id: String,
    /// Renderer-owned accumulated state.
    pub state_json: String,
    /// Discord messages representing the source, in display order.
    pub message_ids: Vec<MessageId>,
}

/// The content of a render projection.
pub ghost struct ProjectionView {
    pub thread_id: GenericChannelId,
    pub source_kind: Seq<char>,
    pub source_id: Seq<char>,
    pub state_json: Seq<char>,
    pub message_ids: Seq<MessageId>,
}

impl View for RenderProjection {
    type V = ProjectionView;

    open spec fn view(&self) -> ProjectionView {
        ProjectionView {
            thread_id: self.thread_id,
            source_kind: self.source_kind@,
            source_id: self.source_id@,
            state_json: self.state_json@,
            message_ids: self.message_ids@,
        }
    }
}

/// The content of an optional render projection.
pub open spec fn opt_projection(value: Option<RenderProjection>) -> Option<ProjectionView> {
    match value {
        Some(projection) => Some(projection@),
        None => None,
    }
}

/// Copies a list of message identifiers.
pub fn copy_ids(ids: &Vec<MessageId>) -> (copied: Vec<MessageId>)
    ensures
        copied@ == ids@,
{
    let mut copied: Vec<MessageId> = Vec::new();
    let mut i: usize = 0;
    while i < ids.len()
        invariant
            i <= ids@.len(),
            copied@ == ids@.take(i as int),
        decreases ids@.len() - i,
    {
        copied.push(ids[i]);
        i += 1;
    }
    copied
}

impl RenderProjection {
    /// Copies the projection.
    pub fn copy(&self) -> (copied: RenderProjection)
        ensures
            copied@ == self@,
    {
        RenderProjection {
            thread_id: self.thread_id,
            source_kind: text::copy(self.source_kind.as_str()),
            source_id: text::copy(self.source_id.as_str()),
            state_json: text::copy(self.state_json.as_str()),
            message_ids: copy_ids(&self.message_ids),
        }
    }
}

/// The durable information required to restore one ACP session.
#[derive(Clone, Debug)]
pub struct SessionRow {
    /// Discord forum thread representing the session.
    pub thread_id: GenericChannelId,
    /// Configured agent used to open the ACP session.
    pub agent_key: AgentKey,
    /// Agent-owned opaque ACP session identifier.
    pub session_id: String,
    /// Working directory used by the session.
    pub project_path: String,
}

/// The content of a session row.
pub ghost struct RowView {
    pub thread_id: GenericChannelId,
    pub agent_key: Seq<char>,
    pub session_id: Seq<char>,
    pub project_path: Seq<char>,
}

impl View for SessionRow {
    type V = RowView;

    open spec fn view(&self) -> RowView {
        RowView {
            thread_id: self.thread_id,
            agent_key: self.agent_key@,
            session_id: self.session_id@,
            project_path: self.project_path@,
        }
    }
}

impl SessionRow {
    /// Copies the row.
    pub fn copy(&self) -> (copied: SessionRow)
        ensures
            copied@ == self@,
    {
        SessionRow {
            thread_id: self.thread_id,
            agent_key: self.agent_key.copy(),
            session_id: text::copy(self.session_id.as_str()),
            project_path: text::copy(self.project_path.as_str()),
        }
    }
}

/// A session as the database stores it.
#[derive(Clone, Debug)]
pub struct Session {
    /// Discord thread ID stored as text for SQLite portability.
    pub thread_id: String,
    /// Configured ACP executable key.
    pub agent: String,
    /// Opaque ACP session ID.
    pub acp: String,
    /// Absolute working directory used by ACP.
    pub project_path: String,
}

/// The content of a stored session.
pub ghost struct StoredView {
    pub thread_id: Seq<char>,
    pub agent: Seq<char>,
    pub acp: Seq<char>,
    pub project_path: Seq<char>,
}

impl View for Session {
    type V = StoredView;

    open spec fn view(&self) -> StoredView {
        StoredView {
            thread_id: self.thread_id@,
            agent: self.agent@,
            acp: self.acp@,
            project_path: self.project_path@,
        }
    }
}

/// How a session row is stored.
pub open spec fn stored_row(row: RowView) -> StoredView {
    StoredView {
        thread_id: numbers::decimal(row.thread_id.0 as nat),
        agent: row.agent_key,
        acp: row.session_id,
        project_path: row.project_path,
    }
}

/// Makes the stored form of a durable Discord-to-ACP session binding, whose
/// project path has to be absolute.
pub fn insert_session(row: &SessionRow) -> (result: BotResult<Session>)
    ensures
        match result {
            Ok(stored) => paths::is_absolute_path(row@.project_path) && stored@ == stored_row(row@),
            Err(error) => !paths::is_absolute_path(row@.project_path) && (
            error matches BotError::RelativeProjectPath { path } && path@ == row@.project_path),
        },
{
    if !paths::is_absolute(row.project_path.as_str()) {
        return Err(
            BotError::RelativeProjectPath { path: text::copy(row.project_path.as_str()) },
        );
    }
    Ok(
        Session {
            thread_id: numbers::format_u64(row.thread_id.0),
            agent: text::copy(row.agent_key.as_str()),
            acp: text::copy(row.session_id.as_str()),
            project_path: text::copy(row.project_path.as_str()),
        },
    )
}

/// Parses a persisted Discord snowflake.
pub fn parse_id(value: &str) -> (result: BotResult<u64>)
    ensures
        match (result, numbers::read_of(value@)) {
            (Ok(id), Ok(expected)) => id == expected,
            (Err(error), Err(cause)) => error matches BotError::InvalidStoredDiscordId {
                value: shown,
                source,
            } && shown@ == value@ && source == cause,
            _ => false,
        },
{
    match numbers::read_u64(value) {
        Ok(id) => Ok(id),
        Err(source) => Err(BotError::InvalidStoredDiscordId { value: text::copy(value), source }),
    }
}

/// Whether an error tells that a stored identifier cannot be read, and why.
pub open spec fn is_unread(error: BotError, stored: Seq<char>) -> bool {
    match (error, numbers::read_of(stored)) {
        (BotError::InvalidStoredDiscordId { value, source }, Err(cause)) => value@ == stored
            && source == cause,
        _ => false,
    }
}

/// The row that a stored session is read as: its path has to be absolute and its
/// thread an identifier.
pub open spec fn read_row(stored: StoredView) -> Option<RowView> {
    match numbers::read_of(stored.thread_id) {
        Ok(id) => if paths::is_absolute_path(stored.project_path) {
            Some(
                RowView {
                    thread_id: GenericChannelId(id),
                    agent_key: stored.agent,
                    session_id: stored.acp,
                    project_path: stored.project_path,
                },
            )
        } else {
            None
        },
        Err(_) => None,
    }
}

impl SessionRow {
    /// Validates and converts a stored session.
    pub fn from_stored(session: Session) -> (result: BotResult<SessionRow>)
        ensures
            match result {
                Ok(row) => read_row(session@) == Some(row@),
                Err(error) => read_row(session@) is None && if !paths::is_absolute_path(
                    session@.project_path,
                ) {
                    error matches BotError::RelativeProjectPath { path } && path@
                        == session@.project_path
                } else {
                    is_unread(error, session@.thread_id)
                },
            },
    {
        if !paths::is_absolute(session.project_path.as_str()) {
            return Err(BotError::RelativeProjectPath { path: session.project_path });
        }
        match parse_id(session.thread_id.as_str()) {
            Ok(id) => Ok(
                SessionRow {
                    thread_id: GenericChannelId(id),
                    agent_key: AgentKey::new(session.agent.as_str()),
                    session_id: session.acp,
                    project_path: session.project_path,
                },
            ),
            Err(error) => Err(error),
        }
    }
}

/// A session that can be stored is read back as it was.
pub proof fn a_stored_session_reads_back(row: RowView)
    requires
        paths::is_absolute_path(row.project_path),
    ensures
        read_row(stored_row(row)) == Some(row),
{
    numbers::a_written_number_reads_back(row.thread_id.0);
}

/// One Discord message of a projection as the database stores it.
#[derive(Clone, Debug)]
pub struct RenderMessage {
    /// Display order within the source.
    pub position: i64,
    /// Discord message ID stored as text.
    pub message: String,
}

/// The stored form of the messages of a projection: their positions count up
/// from zero.
pub open spec fn stored_messages(ids: Seq<MessageId>) -> Seq<(int, Seq<char>)> {
    Seq::new(ids.len(), |i: int| (i, numbers::decimal(ids[i].0 as nat)))
}

/// The content of stored messages.
pub open spec fn message_views(messages: Seq<RenderMessage>) -> Seq<(int, Seq<char>)> {
    messages.map_values(|message: RenderMessage| (message.position as int, message.message@))
}

/// Makes the stored form of the ordered messages of one source.
pub fn replace_projection(projection: &RenderProjection) -> (result: BotResult<Vec<RenderMessage>>)
    ensures
        match result {
            Ok(messages) => projection@.message_ids.len() <= i64::MAX + 1 && message_views(
                messages@,
            ) == stored_messages(projection@.message_ids),
            Err(error) => projection@.message_ids.len() > i64::MAX + 1
                && error is ProjectionTooLarge,
        },
{
    let ids = &projection.message_ids;
    let mut messages: Vec<RenderMessage> = Vec::new();
    let mut i: usize = 0;
    assert(message_views(messages@) =~= stored_messages(ids@).take(0));
    while i < ids.len()
        invariant
            i <= ids@.len(),
            i <= i64::MAX + 1,
            ids@ == projection@.message_ids,
            message_views(messages@) == stored_messages(ids@).take(i as int),
        decreases ids@.len() - i,
    {
        if i as u64 > i64::MAX as u64 {
            return Err(BotError::ProjectionTooLarge);
        }
        let ghost before = message_views(messages@);
        messages.push(
            RenderMessage { position: i as i64, message: numbers::format_u64(ids[i].0) },
        );
        assert(message_views(messages@) =~= before.push(stored_messages(ids@)[i as int]));
        assert(stored_messages(ids@).take(i + 1) =~= before.push(stored_messages(ids@)[i as int]));
        i += 1;
    }
    assert(stored_messages(ids@).take(i as int) =~= stored_messages(ids@));
    Ok(messages)
}

/// The identifiers that stored messages hold, in their order, where all of them
/// are identifiers.
pub open spec fn read_ids(messages: Seq<(int, Seq<char>)>) -> Option<Seq<MessageId>>
    decreases messages.len(),
{
    if messages.len() == 0 {
        Some(Seq::empty())
    } else {
        match (read_ids(messages.drop_last()), numbers::read_of(messages.last().1)) {
            (Some(ids), Ok(id)) => Some(ids.push(MessageId(id))),
            _ => None,
        }
    }
}

/// Some stored message does not hold an identifier.
pub proof fn lemma_unreadable(messages: Seq<(int, Seq<char>)>, at: int)
    requires
        0 <= at < messages.len(),
        numbers::read_of(messages[at].1) is Err,
    ensures
        read_ids(messages) is None,
    decreases messages.len(),
{
    if at < messages.len() - 1 {
        assert(messages.drop_last()[at] == messages[at]);
        lemma_unreadable(messages.drop_last(), at);
    }
}

/// Assembles one logical source from its stored state and its stored messages in
/// the order of their positions.
pub fn projection(
    thread_id: GenericChannelId,
    source_kind: String,
    source_id: String,
    state_json: String,
    messages: &Vec<RenderMessage>,
) -> (result: BotResult<RenderProjection>)
    ensures
        match (result, read_ids(message_views(messages@))) {
            (Ok(projection), Some(ids)) => projection@ == (ProjectionView {
                thread_id,
                source_kind: source_kind@,
                source_id: source_id@,
                state_json: state_json@,
                message_ids: ids,
            }),
            (Err(error), None) => exists|i: int|
                #![trigger messages@[i]]
                0 <= i < messages@.len() && is_unread(error, messages@[i].message@) && read_ids(
                    message_views(messages@).take(i),
                ) is Some,
            _ => false,
        },
{
    let ghost all = message_views(messages@);
    let mut message_ids: Vec<MessageId> = Vec::new();
    let mut i: usize = 0;
    assert(all.take(0) =~= Seq::empty());
    while i < messages.len()
        invariant
            i <= messages@.len(),
            all == message_views(messages@),
            all.len() == messages@.len(),
            read_ids(all.take(i as int)) == Some(message_ids@),
        decreases messages@.len() - i,
    {
        assert(all.take(i + 1).drop_last() =~= all.take(i as int));
        assert(all[i as int].1 == messages@[i as int].message@);
        match parse_id(messages[i].message.as_str()) {
            Ok(id) => message_ids.push(MessageId(id)),
            Err(error) => {
                proof {
                    lemma_unreadable(all, i as int);
                    assert(is_unread(error, messages@[i as int].message@));
                }
                return Err(error);
            },
        }
        i += 1;
    }
    assert(all.take(i as int) =~= all);
    Ok(RenderProjection { thread_id, source_kind, source_id, state_json, message_ids })
}

/// The messages of a stored projection are read back in their order.
pub proof fn stored_messages_read_back(ids: Seq<MessageId>)
    ensures
        read_ids(stored_messages(ids)) == Some(ids),
    decreases ids.len(),
{
    if ids.len() > 0 {
        stored_messages_read_back(ids.drop_last());
        assert(stored_messages(ids).drop_last() =~= stored_messages(ids.drop_last()));
        numbers::a_written_number_reads_back(ids.last().0);
        assert(ids.drop_last().push(ids.last()) =~= ids);
    } else {
        assert(ids =~= Seq::empty());
    }
}

} // verus!
