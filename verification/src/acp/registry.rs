//! Actor registry and commands sent to active ACP sessions.

use vstd::prelude::*;

use crate::acp::model::ModelSpec;
use crate::acp::options::AcpError;
use crate::acp::prompt::PromptOrigin;
use crate::acp::protocol;
use crate::db::{RowView, SessionRow};
use crate::error::{BotError, BotResult};
use crate::ids::GenericChannelId;
use crate::text;
use std::collections::HashMap;

verus! {

broadcast use vstd::std_specs::hash::group_hash_axioms;

/// Command queue capacity for one active session actor.
pub const COMMAND_QUEUE_CAPACITY: usize = 32;

/// Maximum number of ACP updates waiting for the renderer.
pub const UPDATE_QUEUE_CAPACITY: usize = 128;

/// Command delivered to a session actor.
#[derive(Debug)]
pub enum SessionCommand {
    /// Sends one user prompt after optionally mirroring it to Discord.
    Prompt {
        /// Prompt text sent to ACP.
        text: String,
        /// Identifier used for unkeyed streamed output.
        turn_id: String,
        /// Whether the prompt is already visible in Discord.
        origin: PromptOrigin,
    },
    /// Changes the ACP model and optional reasoning level after the session is
    /// ready.
    SetModel {
        /// User-selected model and reasoning level.
        model: ModelSpec,
    },
}

/// One active actor and the immutable session identity it serves.
pub struct ActorEntry<T> {
    /// Persisted identity used to reject stale actor reuse.
    pub row: SessionRow,
    /// Tells the actors of a thread apart.
    pub actor: u64,
    /// Means to reach the actor.
    pub handle: T,
}

/// The content of an actor entry.
pub ghost struct EntryView<T> {
    pub row: RowView,
    pub actor: u64,
    pub handle: T,
}

impl<T> View for ActorEntry<T> {
    type V = EntryView<T>;

    open spec fn view(&self) -> EntryView<T> {
        EntryView { row: self.row@, actor: self.actor, handle: self.handle }
    }
}

/// Registry of one actor per persisted Discord session thread.
pub struct ActorRegistry<T> {
    actors: HashMap<u64, ActorEntry<T>>,
    next: u64,
}

/// The content of the registry: the actor of each thread, and the number of
/// actors that were ever registered.
pub ghost struct RegistryView<T> {
    pub actors: Map<u64, EntryView<T>>,
    pub started: nat,
}

impl<T> View for ActorRegistry<T> {
    type V = RegistryView<T>;

    closed spec fn view(&self) -> RegistryView<T> {
        RegistryView {
            actors: self.actors@.map_values(|entry: ActorEntry<T>| entry@),
            started: self.next as nat,
        }
    }
}

impl<T> RegistryView<T> {
    /// Every actor is registered under the thread of its session, and no actor
    /// is yet to come.
    pub open spec fn wf(self) -> bool {
        forall|thread: u64| #[trigger]
            self.actors.dom().contains(thread) ==> self.actors[thread].row.thread_id.0 == thread
                && self.actors[thread].actor < self.started
    }

    /// The registry with an actor in the place of the one that its thread had.
    pub open spec fn with_actor(self, row: RowView, handle: T) -> RegistryView<T> {
        RegistryView {
            actors: self.actors.insert(
                row.thread_id.0,
                EntryView { row, actor: self.started as u64, handle },
            ),
            started: self.started + 1,
        }
    }

    /// The registry without the actor of a thread.
    pub open spec fn without(self, thread: GenericChannelId) -> RegistryView<T> {
        RegistryView { actors: self.actors.remove(thread.0), started: self.started }
    }

    /// The actor is the one registered for the thread.
    pub open spec fn is_current(self, thread: GenericChannelId, actor: u64) -> bool {
        self.actors.dom().contains(thread.0) && self.actors[thread.0].actor == actor
    }

    /// The registry after an actor of a thread has ended: another actor that has
    /// taken its place stays.
    pub open spec fn after_end(self, thread: GenericChannelId, actor: u64) -> RegistryView<T> {
        if self.is_current(thread, actor) {
            self.without(thread)
        } else {
            self
        }
    }

    /// The actor that serves a session, where there is one.
    pub open spec fn serving(self, row: RowView) -> Option<EntryView<T>> {
        if self.actors.dom().contains(row.thread_id.0) && self.actors[row.thread_id.0].row == row {
            Some(self.actors[row.thread_id.0])
        } else {
            None
        }
    }
}

/// Compares the immutable identity fields used by an actor connection.
pub fn same_session(left: &SessionRow, right: &SessionRow) -> (same: bool)
    ensures
        same == (left@ == right@),
{
    left.thread_id == right.thread_id && text::same(
        left.agent_key.as_str(),
        right.agent_key.as_str(),
    ) && text::same(left.session_id.as_str(), right.session_id.as_str()) && text::same(
        left.project_path.as_str(),
        right.project_path.as_str(),
    )
}

/// How a command was taken in by the queue of an actor.
#[derive(Clone, Copy, Debug, PartialEq, Eq, Structural)]
pub enum Queued {
    /// The queue took the command.
    Accepted,
    /// The queue holds as many commands as it can.
    Full,
    /// The actor no longer takes commands.
    Closed,
}

impl<T> ActorRegistry<T> {
    /// A registry without actors.
    pub fn new() -> (registry: ActorRegistry<T>)
        ensures
            registry@.wf(),
            registry@ == (RegistryView { actors: Map::<u64, EntryView<T>>::empty(), started: 0 }),
    {
        let registry = ActorRegistry { actors: HashMap::new(), next: 0 };
        assert(registry@.actors =~= Map::<u64, EntryView<T>>::empty());
        registry
    }

    /// Finds the actor that serves a session: its number and its handle.
    pub fn serving(&self, row: &SessionRow) -> (found: Option<(u64, &T)>)
        ensures
            match found {
                Some((actor, handle)) => self@.serving(row@) == Some(
                    EntryView { row: row@, actor, handle: *handle },
                ),
                None => self@.serving(row@) is None,
            },
    {
        match self.actors.get(&row.thread_id.0) {
            Some(entry) => {
                assert(self@.actors[row.thread_id.0] == entry@);
                if same_session(&entry.row, row) {
                    Some((entry.actor, &entry.handle))
                } else {
                    None
                }
            },
            None => None,
        }
    }

    /// Reports whether there is a number left for another actor.
    pub fn can_start(&self) -> (result: bool)
        ensures
            result == (self@.started < u64::MAX),
    {
        self.next < u64::MAX
    }

    /// Registers a new actor for a session, in the place of the one that its
    /// thread had. Returns the number of the new actor, and the handle of the
    /// old one, which is to be stopped.
    pub fn replace(&mut self, row: &SessionRow, handle: T) -> (result: (u64, Option<T>))
        requires
            old(self)@.wf(),
            old(self)@.started < u64::MAX,
        ensures
            final(self)@.wf(),
            final(self)@ == old(self)@.with_actor(row@, handle),
            result.0 == old(self)@.started,
            match result.1 {
                Some(previous) => old(self)@.actors.dom().contains(row@.thread_id.0)
                    && old(self)@.actors[row@.thread_id.0].handle == previous,
                None => !old(self)@.actors.dom().contains(row@.thread_id.0),
            },
    {
        let actor: u64 = self.next;
        let thread: u64 = row.thread_id.0;
        self.next = actor + 1;
        let entry = ActorEntry { row: row.copy(), actor, handle };
        let previous = self.actors.insert(thread, entry);
        assert(self@.actors =~= old(self)@.with_actor(row@, handle).actors);
        let stopped = match previous {
            Some(entry) => {
                assert(old(self)@.actors[thread] == entry@);
                Some(entry.handle)
            },
            None => None,
        };
        (actor, stopped)
    }

    /// Stops and removes the actor of a thread: returns its handle.
    pub fn stop(&mut self, thread: GenericChannelId) -> (stopped: Option<T>)
        requires
            old(self)@.wf(),
        ensures
            final(self)@.wf(),
            final(self)@ == old(self)@.without(thread),
            match stopped {
                Some(handle) => old(self)@.actors.dom().contains(thread.0)
                    && old(self)@.actors[thread.0].handle == handle,
                None => !old(self)@.actors.dom().contains(thread.0),
            },
    {
        let removed = self.actors.remove(&thread.0);
        assert(self@.actors =~= old(self)@.without(thread).actors);
        match removed {
            Some(entry) => {
                assert(old(self)@.actors[thread.0] == entry@);
                Some(entry.handle)
            },
            None => None,
        }
    }

    /// Removes an actor only if it is still the current one of its thread.
    pub fn remove(&mut self, thread: GenericChannelId, actor: u64)
        requires
            old(self)@.wf(),
        ensures
            final(self)@.wf(),
            final(self)@ == old(self)@.after_end(thread, actor),
    {
        let current = match self.actors.get(&thread.0) {
            Some(entry) => {
                assert(self@.actors[thread.0] == entry@);
                entry.actor == actor
            },
            None => false,
        };
        if current {
            let _ = self.stop(thread);
        }
    }

    /// Returns the handle of the actor of a thread.
    pub fn current(&self, thread: GenericChannelId) -> (handle: Option<&T>)
        ensures
            match handle {
                Some(found) => self@.actors.dom().contains(thread.0) && self@.actors[thread.0].handle
                    == *found,
                None => !self@.actors.dom().contains(thread.0),
            },
    {
        match self.actors.get(&thread.0) {
            Some(entry) => {
                assert(self@.actors[thread.0] == entry@);
                Some(&entry.handle)
            },
            None => None,
        }
    }

    /// Judges how an actor took a command in. An actor that no longer takes
    /// commands is forgotten.
    pub fn queued(&mut self, thread: GenericChannelId, actor: u64, queued: Queued) -> (result:
        BotResult)
        requires
            old(self)@.wf(),
        ensures
            final(self)@.wf(),
            final(self)@ == if queued is Closed {
                old(self)@.after_end(thread, actor)
            } else {
                old(self)@
            },
            match queued {
                Queued::Accepted => result is Ok,
                Queued::Full => result is Err && result->Err_0 is AcpQueueFull,
                Queued::Closed => result is Err && result->Err_0 is AcpActorExited,
            },
    {
        match queued {
            Queued::Accepted => Ok(()),
            Queued::Full => Err(BotError::AcpQueueFull),
            Queued::Closed => {
                self.remove(thread, actor);
                Err(BotError::AcpActorExited)
            },
        }
    }
}

/// What came back for a model selection.
pub enum ModelReply {
    /// The actor answered.
    Answered(Result<(), AcpError>),
    /// The actor ended without an answer.
    ActorGone,
    /// The time limit ran out.
    TimedOut,
}

/// Judges what came back for a model selection.
pub fn set_model(reply: &ModelReply) -> (result: BotResult)
    ensures
        match *reply {
            ModelReply::Answered(Ok(_)) => result is Ok,
            ModelReply::Answered(Err(error)) => result matches Err(BotError::AcpProtocol(shown))
                && shown@ == error@.text(),
            ModelReply::ActorGone => result is Err && result->Err_0 is AcpActorExited,
            ModelReply::TimedOut => result is Err && result->Err_0 is AcpModelSelectionTimedOut,
        },
{
    match reply {
        ModelReply::Answered(Ok(())) => Ok(()),
        ModelReply::Answered(Err(error)) => Err(protocol::acp_error(error)),
        ModelReply::ActorGone => Err(BotError::AcpActorExited),
        ModelReply::TimedOut => Err(BotError::AcpModelSelectionTimedOut),
    }
}

/// How waiting for a stopped actor ended.
#[derive(Clone, Copy, Debug, PartialEq, Eq, Structural)]
pub enum StopWait {
    /// The actor released its connection.
    Released,
    /// The actor vanished without a word.
    ActorGone,
    /// The time limit ran out.
    TimedOut,
}

/// Judges how waiting for a stopped actor ended: only once the actor has
/// released its connection may a fresh one be started.
pub fn reload(wait: StopWait) -> (result: BotResult)
    ensures
        match wait {
            StopWait::Released => result is Ok,
            StopWait::ActorGone => result is Err && result->Err_0 is AcpActorExited,
            StopWait::TimedOut => result is Err && result->Err_0 is AcpReloadTimedOut,
        },
{
    match wait {
        StopWait::Released => Ok(()),
        StopWait::ActorGone => Err(BotError::AcpActorExited),
        StopWait::TimedOut => Err(BotError::AcpReloadTimedOut),
    }
}

/// Judges how waiting for a stopped actor ended that no other one follows.
pub fn stopped(wait: StopWait) -> (result: BotResult)
    ensures
        match wait {
            StopWait::Released => result is Ok,
            StopWait::ActorGone => result is Err && result->Err_0 is AcpActorExited,
            StopWait::TimedOut => result is Err && result->Err_0 is AcpActorStopTimedOut,
        },
{
    match wait {
        StopWait::Released => Ok(()),
        StopWait::ActorGone => Err(BotError::AcpActorExited),
        StopWait::TimedOut => Err(BotError::AcpActorStopTimedOut),
    }
}

/// The text posted for an actor that failed, unless it was stopped.
pub fn failure_notice(error: &AcpError, stopped: bool) -> (notice: Option<String>)
    ensures
        text::opt_text(notice) == if stopped {
            None
        } else {
            Some("acp session actor stopped: "@ + error@.text())
        },
{
    if stopped {
        None
    } else {
        Some(text::join2("acp session actor stopped: ", error.message().as_str()))
    }
}

/// A registered actor serves its session, and no other session of its thread:
/// asking again for the same session finds it, and for a changed one does not.
pub proof fn a_registered_actor_serves_its_session<T>(
    registry: RegistryView<T>,
    row: RowView,
    handle: T,
    other: RowView,
)
    requires
        registry.wf(),
        registry.started < u64::MAX,
    ensures
        registry.with_actor(row, handle).serving(row) == Some(
            EntryView { row, actor: registry.started as u64, handle },
        ),
        other.thread_id == row.thread_id && other != row ==> registry.with_actor(
            row,
            handle,
        ).serving(other) is None,
        other.thread_id != row.thread_id ==> registry.with_actor(row, handle).serving(other)
            == registry.serving(other),
{
}

/// The end of an actor that was replaced leaves its successor in place.
pub proof fn a_replaced_actor_does_not_remove_its_successor<T>(
    registry: RegistryView<T>,
    thread: GenericChannelId,
    actor: u64,
    row: RowView,
    handle: T,
)
    requires
        registry.wf(),
        registry.started < u64::MAX,
        registry.is_current(thread, actor),
        row.thread_id == thread,
    ensures
        registry.with_actor(row, handle).after_end(thread, actor) == registry.with_actor(
            row,
            handle,
        ),
{
}

} // verus!
