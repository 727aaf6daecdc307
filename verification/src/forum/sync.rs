//! Transcript mirroring: cursor-based syncs of session transcripts into their
//! forum posts — agent turns as plain messages, tool calls as messages that are
//! edited in place, user turns as webhook echoes.

use vstd::prelude::*;

use crate::db::model::{SessionRow, SessionRowView};
use crate::discord::present;
use crate::error::{BotError, BotResult};
use crate::forum;
use crate::forum::{Forum, ForumView};
use crate::ids::MessageId;
use crate::numbers;
use crate::session::{SessionMessage, SessionRole, ToolCall, ToolState};
use crate::text;

verus! {

/// How much of a transcript that fell behind is mirrored.
#[derive(Clone, Copy, Debug)]
pub struct SyncLimits {
    /// A backlog beyond this many messages is cut.
    pub backlog: usize,
    /// How many messages of a cut backlog are mirrored.
    pub keep: usize,
}

/// The number of transcript messages already consumed; at most all of them, in
/// case the file was truncated.
pub open spec fn consumed_of(row: SessionRowView, count: nat) -> nat {
    if row.synced_messages < 0 || row.synced_messages > usize::MAX {
        0
    } else if row.synced_messages <= count {
        row.synced_messages as nat
    } else {
        count
    }
}

/// The number of messages omitted from a backlog.
pub open spec fn omitted(pending: nat, limits: SyncLimits) -> nat {
    if pending > limits.backlog && pending > limits.keep {
        (pending - limits.keep) as nat
    } else {
        0
    }
}

/// The message with which a sync starts.
pub open spec fn first_message(row: SessionRowView, count: nat, limits: SyncLimits) -> nat {
    let consumed = consumed_of(row, count);
    consumed + omitted((count - consumed) as nat, limits)
}

/// The notice of omitted messages.
pub open spec fn omission(skipped: nat) -> Seq<char> {
    "-# *"@ + numbers::decimal(skipped) + " older messages omitted during catch-up*"@
}

/// How far a sync has come.
#[derive(Clone, Copy, Debug, PartialEq, Eq, Structural)]
pub enum SyncPhase {
    /// Omitted messages are being announced.
    Announcing,
    /// A message is being mirrored.
    Mirroring,
    /// The cursor is being stored.
    Storing,
    /// The transcript is mirrored, or mirroring failed.
    Ended,
}

/// What an operation of a sync came to.
pub enum SyncEvent<E> {
    /// Omitted messages were announced, or could not be: both go on.
    Announced,
    /// The message was mirrored by the returned Discord message, or was on
    /// Discord already, or could not be mirrored.
    Mirrored(Result<Option<MessageId>, E>),
    /// The cursor was stored, or not.
    Stored(Result<(), E>),
}

/// Why a sync failed.
pub enum SyncFailure<E> {
    /// An operation failed.
    Operation(E),
    /// A number does not fit the database.
    Number(BotError),
}

/// What is to be done for a sync.
pub enum SyncStep<E> {
    /// Post a notice of omitted messages.
    Announce(String),
    /// Post the agent's message with this index.
    PostAgent(usize),
    /// Post or update the tool message with this index.
    SyncTool(usize),
    /// Echo the user's message with this index, unless it was typed on Discord
    /// after the given message.
    Echo(usize, Option<i64>),
    /// Store the row with its new cursor.
    Store(SessionRow),
    /// Update the posted tool calls; the transcript is mirrored.
    Complete,
    /// The sync failed.
    Failed(SyncFailure<E>),
}

/// The content of a step.
pub ghost enum SyncStepView<E> {
    Announce(Seq<char>),
    PostAgent(nat),
    SyncTool(nat),
    Echo(nat, Option<i64>),
    Store(SessionRowView),
    Complete,
    Failed(E),
    SnowflakeOverflow,
    CountOverflow,
}

impl<E> SyncStep<E> {
    /// The step has a content.
    pub open spec fn shows(self, view: SyncStepView<E>) -> bool {
        match (self, view) {
            (SyncStep::Announce(notice), SyncStepView::Announce(shown)) => notice@ == shown,
            (SyncStep::PostAgent(at), SyncStepView::PostAgent(shown)) => at == shown,
            (SyncStep::SyncTool(at), SyncStepView::SyncTool(shown)) => at == shown,
            (SyncStep::Echo(at, after), SyncStepView::Echo(shown, shown_after)) => at == shown
                && after == shown_after,
            (SyncStep::Store(row), SyncStepView::Store(shown)) => row@ == shown,
            (SyncStep::Complete, SyncStepView::Complete) => true,
            (
                SyncStep::Failed(SyncFailure::Operation(error)),
                SyncStepView::Failed(shown),
            ) => error == shown,
            (
                SyncStep::Failed(SyncFailure::Number(error)),
                SyncStepView::SnowflakeOverflow,
            ) => error.is_other("snowflake overflows i64"@),
            (
                SyncStep::Failed(SyncFailure::Number(error)),
                SyncStepView::CountOverflow,
            ) => error.is_other("synced message count overflow"@),
            _ => false,
        }
    }
}

/// The state of a sync.
pub ghost struct SyncView {
    pub row: SessionRowView,
    pub roles: Seq<SessionRole>,
    pub next: nat,
    pub last: Option<i64>,
    pub phase: SyncPhase,
}

/// Who wrote the messages of a transcript.
pub open spec fn roles_of(messages: Seq<SessionMessage>) -> Seq<SessionRole> {
    messages.map_values(|message: SessionMessage| message.role)
}

impl SyncView {
    /// The state in a phase.
    pub open spec fn in_phase(self, phase: SyncPhase) -> SyncView {
        SyncView { phase, ..self }
    }

    /// The state once the current message is done.
    pub open spec fn past(self) -> SyncView {
        SyncView { next: self.next + 1, ..self }
    }

    /// Goes on with the current message.
    pub open spec fn mirror<E>(self) -> (SyncView, SyncStepView<E>) {
        if self.next >= self.roles.len() {
            (self.in_phase(SyncPhase::Ended), SyncStepView::Complete)
        } else {
            let step = match self.roles[self.next as int] {
                SessionRole::Agent => SyncStepView::PostAgent(self.next),
                SessionRole::Tool => SyncStepView::SyncTool(self.next),
                SessionRole::User => SyncStepView::Echo(self.next, self.last),
            };
            (self.in_phase(SyncPhase::Mirroring), step)
        }
    }

    /// The row once the current message was mirrored by a Discord message.
    pub open spec fn committed(self, message: MessageId) -> SessionRowView {
        SessionRowView {
            synced_messages: (self.next + 1) as i64,
            last_discord_message_id: Some(message.0 as i64),
            ..self.row
        }
    }

    /// An event that can happen in the state.
    pub open spec fn happens<E>(self, event: SyncEvent<E>) -> bool {
        match self.phase {
            SyncPhase::Announcing => event is Announced,
            SyncPhase::Mirroring => event is Mirrored,
            SyncPhase::Storing => event is Stored,
            SyncPhase::Ended => false,
        }
    }

    /// What an event leads to.
    pub open spec fn after<E>(self, event: SyncEvent<E>) -> (SyncView, SyncStepView<E>) {
        match event {
            SyncEvent::Announced => self.mirror(),
            SyncEvent::Mirrored(Ok(None)) => self.past().mirror(),
            SyncEvent::Mirrored(Ok(Some(message))) => if message.0 > i64::MAX {
                (self.in_phase(SyncPhase::Ended), SyncStepView::SnowflakeOverflow)
            } else if self.next + 1 > i64::MAX {
                (
                    SyncView { last: Some(message.0 as i64), phase: SyncPhase::Ended, ..self },
                    SyncStepView::CountOverflow,
                )
            } else {
                (
                    SyncView { last: Some(message.0 as i64), phase: SyncPhase::Storing, ..self },
                    SyncStepView::Store(self.committed(message)),
                )
            },
            SyncEvent::Mirrored(Err(error)) => (
                self.in_phase(SyncPhase::Ended),
                SyncStepView::Failed(error),
            ),
            SyncEvent::Stored(Ok(_)) => self.past().mirror(),
            SyncEvent::Stored(Err(error)) => (
                self.in_phase(SyncPhase::Ended),
                SyncStepView::Failed(error),
            ),
        }
    }
}

/// The state with which a sync starts, and what is to be done first.
pub open spec fn sync_start<E>(
    row: SessionRowView,
    roles: Seq<SessionRole>,
    limits: SyncLimits,
) -> (SyncView, SyncStepView<E>) {
    let consumed = consumed_of(row, roles.len());
    let skipped = omitted((roles.len() - consumed) as nat, limits);
    let state = SyncView {
        row,
        roles,
        next: consumed + skipped,
        last: row.last_discord_message_id,
        phase: SyncPhase::Announcing,
    };
    if skipped > 0 {
        (state, SyncStepView::Announce(omission(skipped)))
    } else {
        state.mirror()
    }
}

/// Mirroring a transcript into its session's post.
pub struct SyncRun {
    row: SessionRow,
    messages: Vec<SessionMessage>,
    next: usize,
    last: Option<i64>,
    phase: SyncPhase,
}

impl View for SyncRun {
    type V = SyncView;

    closed spec fn view(&self) -> SyncView {
        SyncView {
            row: self.row@,
            roles: roles_of(self.messages@),
            next: self.next as nat,
            last: self.last,
            phase: self.phase,
        }
    }
}

impl SyncRun {
    /// The messages of the transcript.
    pub closed spec fn transcript(self) -> Seq<SessionMessage> {
        self.messages@
    }

    /// The current message is one of the transcript, or all are done.
    pub closed spec fn in_range(self) -> bool {
        self.next <= self.messages@.len() && (self.phase is Mirroring || self.phase is Storing
            ==> self.next < self.messages@.len())
    }

    fn mirror<E>(&mut self) -> (step: SyncStep<E>)
        requires
            old(self).next <= old(self).messages@.len(),
        ensures
            final(self).in_range(),
            final(self).transcript() == old(self).transcript(),
            final(self)@ == old(self)@.mirror::<E>().0,
            step.shows(old(self)@.mirror::<E>().1),
    {
        if self.next >= self.messages.len() {
            self.phase = SyncPhase::Ended;
            return SyncStep::Complete;
        }
        self.phase = SyncPhase::Mirroring;
        assert(old(self)@.roles[self.next as int] == self.messages@[self.next as int].role);
        match self.messages[self.next].role {
            SessionRole::Agent => SyncStep::PostAgent(self.next),
            SessionRole::Tool => SyncStep::SyncTool(self.next),
            SessionRole::User => SyncStep::Echo(self.next, self.last),
        }
    }

    /// Starts mirroring a transcript: new messages are mirrored from the row's
    /// cursor on. A backlog beyond the limit (downtime, reconnect, a rotated
    /// transcript) is truncated to its last few messages and announced, so a
    /// stale backlog can never flood the thread; normal turns are mirrored whole.
    pub fn sync_session<E>(
        row: SessionRow,
        messages: Vec<SessionMessage>,
        limits: SyncLimits,
    ) -> (started: (SyncRun, SyncStep<E>))
        ensures
            started.0.in_range(),
            started.0.transcript() == messages@,
            started.0@ == sync_start::<E>(row@, roles_of(messages@), limits).0,
            started.1.shows(sync_start::<E>(row@, roles_of(messages@), limits).1),
    {
        let count = messages.len();
        let synced = if row.synced_messages < 0 {
            0
        } else {
            let stored = row.synced_messages as u64;
            if stored > usize::MAX as u64 {
                0
            } else if stored as usize <= count {
                stored as usize
            } else {
                count
            }
        };
        let pending = count - synced;
        let skip = if pending > limits.backlog && pending > limits.keep {
            pending - limits.keep
        } else {
            0
        };
        let last = row.last_discord_message_id;
        let mut run = SyncRun {
            row,
            messages,
            next: synced + skip,
            last,
            phase: SyncPhase::Announcing,
        };
        if skip > 0 {
            let notice = text::join3(
                "-# *",
                numbers::format_usize(skip).as_str(),
                " older messages omitted during catch-up*",
            );
            return (run, SyncStep::Announce(notice));
        }
        let step = run.mirror();
        (run, step)
    }

    /// Returns a message of the transcript.
    pub fn message(&self, index: usize) -> (message: Option<&SessionMessage>)
        ensures
            match message {
                Some(message) => index < self.transcript().len() && *message
                    == self.transcript()[index as int],
                None => index >= self.transcript().len(),
            },
    {
        if index < self.messages.len() {
            Some(&self.messages[index])
        } else {
            None
        }
    }

    /// Decides what the outcome of an operation leads to. The cursor commits
    /// after every post, so that a failure in the middle resumes from the last
    /// posted message instead of re-posting it; a message that is on Discord
    /// already does not move the cursor by itself.
    pub fn advance<E>(&mut self, event: SyncEvent<E>) -> (step: SyncStep<E>)
        requires
            old(self).in_range(),
            old(self)@.happens(event),
        ensures
            final(self).in_range(),
            final(self).transcript() == old(self).transcript(),
            final(self)@ == old(self)@.after(event).0,
            step.shows(old(self)@.after(event).1),
    {
        let count = self.messages.len();
        match event {
            SyncEvent::Announced => self.mirror(),
            SyncEvent::Mirrored(Ok(None)) => {
                assert(self.next < count);
                self.next = self.next + 1;
                self.mirror()
            },
            SyncEvent::Mirrored(Ok(Some(message))) => {
                assert(self.next < count);
                match forum::to_i64(message.0) {
                    Ok(last) => {
                        self.last = Some(last);
                        if self.next as u64 >= i64::MAX as u64 {
                            self.phase = SyncPhase::Ended;
                            return SyncStep::Failed(
                                SyncFailure::Number(
                                    BotError::Other(text::copy("synced message count overflow")),
                                ),
                            );
                        }
                        self.phase = SyncPhase::Storing;
                        let mut row = self.row.copy();
                        row.synced_messages = self.next as i64 + 1;
                        row.last_discord_message_id = Some(last);
                        SyncStep::Store(row)
                    },
                    Err(error) => {
                        self.phase = SyncPhase::Ended;
                        SyncStep::Failed(SyncFailure::Number(error))
                    },
                }
            },
            SyncEvent::Mirrored(Err(error)) => {
                self.phase = SyncPhase::Ended;
                SyncStep::Failed(SyncFailure::Operation(error))
            },
            SyncEvent::Stored(Ok(())) => {
                assert(self.next < count);
                self.next = self.next + 1;
                self.mirror()
            },
            SyncEvent::Stored(Err(error)) => {
                self.phase = SyncPhase::Ended;
                SyncStep::Failed(SyncFailure::Operation(error))
            },
        }
    }
}

/// A sync never floods a thread: of a backlog within the limit nothing is
/// omitted, and of a longer one the last messages are mirrored, as many as are to
/// be kept.
pub proof fn catching_up_keeps_the_last_messages(
    row: SessionRowView,
    count: nat,
    limits: SyncLimits,
)
    ensures
        consumed_of(row, count) <= first_message(row, count, limits) <= count,
        count - consumed_of(row, count) <= limits.backlog ==> first_message(row, count, limits)
            == consumed_of(row, count),
        count - consumed_of(row, count) > limits.backlog ==> count - first_message(
            row,
            count,
            limits,
        ) == if count - consumed_of(row, count) <= limits.keep {
            count - consumed_of(row, count)
        } else {
            limits.keep as int
        },
{
}

/// A committed cursor counts exactly the messages up to the one just posted, and
/// nothing but the cursor of the row changes.
pub proof fn a_committed_cursor_counts_what_was_mirrored<E>(state: SyncView, event: SyncEvent<E>)
    requires
        state.phase is Mirroring,
        state.happens(event),
        state.next < state.roles.len(),
    ensures
        state.after(event).1 matches SyncStepView::Store(row) ==> {
            &&& row.synced_messages == state.next + 1
            &&& consumed_of(row, state.roles.len()) <= state.roles.len()
            &&& row == (SessionRowView {
                synced_messages: row.synced_messages,
                last_discord_message_id: state.after(event).0.last,
                ..state.row
            })
        },
{
}

/// A sync that failed after a commit resumes behind the message that was
/// committed last: no message is posted twice.
pub proof fn a_failed_sync_resumes_after_the_last_commit(
    state: SyncView,
    message: MessageId,
    count: nat,
    limits: SyncLimits,
)
    requires
        state.next < state.roles.len(),
        state.roles.len() <= count <= usize::MAX,
        state.next + 1 <= i64::MAX,
    ensures
        first_message(state.committed(message), count, limits) > state.next,
        consumed_of(state.committed(message), count) == state.next + 1,
{
}

/// A sync moves on through the transcript: it never goes back, mirrors the next
/// message only once the current one is done, and keeps the transcript and row.
pub proof fn a_sync_moves_on<E>(state: SyncView, event: SyncEvent<E>)
    requires
        state.happens(event),
        state.next <= state.roles.len(),
        state.phase is Mirroring || state.phase is Storing ==> state.next < state.roles.len(),
    ensures
        ({
            let next = state.after(event).0;
            &&& next.row == state.row && next.roles == state.roles
            &&& state.next <= next.next <= state.next + 1
            &&& next.next <= state.roles.len()
            &&& next.next == state.next ==> !(next.phase is Announcing) && (next.phase is Mirroring
                ==> state.phase is Announcing) && (next.phase is Storing ==> state.phase
                is Mirroring)
        }),
{
}

/// What is to be done for a tool message.
pub enum ToolStep {
    /// Post the message as a code block.
    Fallback(String),
    /// Post the call.
    Post,
    /// Edit the message posted for the call, whose state changed.
    Update(MessageId),
    /// The message already shows the state of the call.
    Keep,
}

/// The content of a step for a tool message.
pub ghost enum ToolStepView {
    Fallback(Seq<char>),
    Post,
    Update(MessageId),
    Keep,
}

impl View for ToolStep {
    type V = ToolStepView;

    open spec fn view(&self) -> ToolStepView {
        match self {
            ToolStep::Fallback(content) => ToolStepView::Fallback(content@),
            ToolStep::Post => ToolStepView::Post,
            ToolStep::Update(message) => ToolStepView::Update(*message),
            ToolStep::Keep => ToolStepView::Keep,
        }
    }
}

/// The code block of a tool message without a known call.
pub open spec fn code_block(content: Seq<char>) -> Seq<char> {
    "```\n"@ + present::unfenced(content) + "\n```"@
}

/// What is to be done for a call that is posted already or not.
pub open spec fn call_step(posted: Option<(MessageId, ToolState)>, state: ToolState) -> ToolStepView {
    match posted {
        None => ToolStepView::Post,
        Some((message, shown)) => if shown == state {
            ToolStepView::Keep
        } else {
            ToolStepView::Update(message)
        },
    }
}

/// What is to be done for a tool message of a session.
pub open spec fn tool_step(
    forum: ForumView,
    session_path: Seq<char>,
    message: SessionMessage,
) -> ToolStepView {
    match message.tool {
        None => ToolStepView::Fallback(code_block(message.text@)),
        Some(call) => call_step(forum.tools.get((session_path, call.call_id@)), call.state),
    }
}

/// The forum-side state once a step for a tool message was carried out, and the
/// message that is new on Discord, if any.
pub open spec fn tool_synced(
    forum: ForumView,
    session_path: Seq<char>,
    call: Option<ToolCall>,
    step: ToolStepView,
    posted: MessageId,
) -> (ForumView, Option<MessageId>) {
    match (step, call) {
        (ToolStepView::Post, Some(call)) => (
            ForumView {
                tools: forum.tools.insert((session_path, call.call_id@), (posted, call.state)),
                ..forum
            },
            Some(posted),
        ),
        (ToolStepView::Update(message), Some(call)) => (
            ForumView {
                tools: forum.tools.insert((session_path, call.call_id@), (message, call.state)),
                ..forum
            },
            None,
        ),
        (ToolStepView::Fallback(_), _) => (forum, Some(posted)),
        _ => (forum, None),
    }
}

impl Forum {
    /// Decides how a tool call's message is posted, or updated in place when the
    /// call's state changed since it was last posted: a call is posted exactly
    /// once, and later completions edit that same message. Tool messages without
    /// structured call data are shown as a code block.
    pub fn sync_tool_embed(&self, session_path: &str, message: &SessionMessage) -> (step: ToolStep)
        ensures
            step@ == tool_step(self@, session_path@, *message),
    {
        match &message.tool {
            None => {
                let broken = present::break_fences(message.text.as_str());
                ToolStep::Fallback(text::join3("```\n", broken.as_str(), "\n```"))
            },
            Some(call) => match self.tool_message(session_path, call.call_id.as_str()) {
                None => ToolStep::Post,
                Some((posted, shown)) => if shown == call.state {
                    ToolStep::Keep
                } else {
                    ToolStep::Update(posted)
                },
            },
        }
    }

    /// Remembers what a tool message now shows, once its step was carried out by
    /// the message `posted`, and returns the message that is new on Discord:
    /// `None` for an edit in place or an unchanged state, which were counted when
    /// the call was posted.
    pub fn tool_embed_synced(
        &mut self,
        session_path: &str,
        message: &SessionMessage,
        step: &ToolStep,
        posted: MessageId,
    ) -> (new: Option<MessageId>)
        ensures
            (final(self)@, new) == tool_synced(
                old(self)@,
                session_path@,
                message.tool,
                step@,
                posted,
            ),
    {
        match (step, &message.tool) {
            (ToolStep::Post, Some(call)) => {
                self.remember_tool(session_path, call.call_id.as_str(), posted, call.state);
                Some(posted)
            },
            (ToolStep::Update(shown), Some(call)) => {
                self.remember_tool(session_path, call.call_id.as_str(), *shown, call.state);
                None
            },
            (ToolStep::Fallback(_), _) => Some(posted),
            (_, _) => None,
        }
    }
}

/// A call is posted once: after its step was carried out there is nothing left to
/// do for it in the same state, and a later state edits the message that was
/// posted first.
pub proof fn a_tool_call_is_posted_once(
    forum: ForumView,
    session_path: Seq<char>,
    message: SessionMessage,
    posted: MessageId,
    later: ToolState,
)
    requires
        message.tool is Some,
    ensures
        ({
            let step = tool_step(forum, session_path, message);
            let (after, new) = tool_synced(forum, session_path, message.tool, step, posted);
            let first = match forum.tools.get((session_path, message.tool->0.call_id@)) {
                Some((shown, _)) => shown,
                None => posted,
            };
            let found = after.tools.get((session_path, message.tool->0.call_id@));
            &&& tool_step(after, session_path, message) is Keep
            &&& found == Some((first, message.tool->0.state))
            &&& later != message.tool->0.state ==> call_step(found, later) == ToolStepView::Update(
                first,
            )
            &&& new is Some <==> step is Post
        }),
{
}

/// The tool messages of a transcript whose call was posted.
pub open spec fn completing(
    forum: ForumView,
    session_path: Seq<char>,
    messages: Seq<SessionMessage>,
) -> Seq<usize>
    decreases messages.len(),
{
    if messages.len() == 0 {
        Seq::empty()
    } else {
        let before = completing(forum, session_path, messages.drop_last());
        if messages.last().role is Tool && (messages.last().tool matches Some(call)
            && forum.tools.dom().contains((session_path, call.call_id@))) {
            before.push((messages.len() - 1) as usize)
        } else {
            before
        }
    }
}

impl Forum {
    /// Finds the tool messages to look at once the cursor has passed: calls
    /// posted on an earlier sync may have completed since.
    pub fn completions(&self, session_path: &str, messages: &Vec<SessionMessage>) -> (indices: Vec<
        usize,
    >)
        ensures
            indices@ == completing(self@, session_path@, messages@),
    {
        let mut indices: Vec<usize> = Vec::new();
        let mut i: usize = 0;
        assert(messages@.take(0) =~= Seq::<SessionMessage>::empty());
        while i < messages.len()
            invariant
                i <= messages@.len(),
                indices@ == completing(self@, session_path@, messages@.take(i as int)),
            decreases messages@.len() - i,
        {
            assert(messages@.take(i + 1).drop_last() =~= messages@.take(i as int));
            let message = &messages[i];
            if let SessionRole::Tool = message.role {
                if let Some(call) = &message.tool {
                    if self.tool_message(session_path, call.call_id.as_str()).is_some() {
                        indices.push(i);
                    }
                }
            }
            i += 1;
        }
        assert(messages@.take(i as int) =~= messages@);
        indices
    }
}

/// What reading a transcript came to.
pub enum Reading {
    /// The messages of the transcript.
    Messages(Vec<SessionMessage>),
    /// The transcript does not exist.
    Missing,
    /// The transcript could not be read for the given reason.
    Failed(String),
}

/// The error for a transcript that could not be read.
pub open spec fn unreadable(session_path: Seq<char>, cause: Seq<char>) -> Seq<char> {
    "failed to read session `"@ + session_path + "`: "@ + cause
}

/// Decides what reading a transcript leads to. The source may be missing: the
/// transcript can be mid-rotation, or its store may not exist yet; there is
/// nothing to mirror until the next trigger then.
pub fn transcript_read(reading: Reading, session_path: &str) -> (result: BotResult<
    Option<Vec<SessionMessage>>,
>)
    ensures
        match (result, reading) {
            (Ok(Some(messages)), Reading::Messages(read)) => messages == read,
            (Ok(None), Reading::Missing) => true,
            (Err(error), Reading::Failed(cause)) => error.is_other(
                unreadable(session_path@, cause@),
            ),
            _ => false,
        },
{
    match reading {
        Reading::Messages(messages) => Ok(Some(messages)),
        Reading::Missing => Ok(None),
        Reading::Failed(cause) => Err(
            BotError::Other(
                text::join4("failed to read session `", session_path, "`: ", cause.as_str()),
            ),
        ),
    }
}

/// Returns the message that stands for an agent turn: the last one posted for it.
/// A turn without any text is an error.
pub fn agent_message_posted(posted: &Vec<MessageId>) -> (result: BotResult<MessageId>)
    ensures
        match result {
            Ok(message) => posted@.len() > 0 && message == posted@.last(),
            Err(error) => posted@.len() == 0 && error.is_other("empty agent message"@),
        },
{
    if posted.len() > 0 {
        Ok(posted[posted.len() - 1])
    } else {
        Err(BotError::Other(text::copy("empty agent message")))
    }
}

} // verus!
