//! State shared by ACP notification callbacks and the Discord renderer.

use vstd::prelude::*;

use crate::acp::options::{AcpError, AcpErrorView, SessionConfigOption};
use crate::acp::registry::Queued;
use crate::config::TimeSpan;
use crate::discord::render::{ProjectionEvent, SessionUpdate};
use crate::ids::GenericChannelId;
use crate::text;

verus! {

/// Cached session configuration shown by commands.
pub struct SessionUiState {
    /// Configuration options advertised by the agent.
    pub config_options: Vec<SessionConfigOption>,
}

impl SessionUiState {
    /// Replaces the cached session configuration options.
    pub fn apply_config_options(&mut self, options: Vec<SessionConfigOption>)
        ensures
            final(self).config_options == options,
    {
        self.config_options = options;
    }
}

/// Notification and lifecycle state for one active ACP connection.
pub struct ProjectionState {
    current_turn: String,
    replaying: bool,
    fault: bool,
    ui: SessionUiState,
}

/// The content of the state of a connection.
pub ghost struct StateView {
    pub turn: Seq<char>,
    pub replaying: bool,
    pub fault: bool,
    pub options: Seq<SessionConfigOption>,
}

impl View for ProjectionState {
    type V = StateView;

    closed spec fn view(&self) -> StateView {
        StateView {
            turn: self.current_turn@,
            replaying: self.replaying,
            fault: self.fault,
            options: self.ui.config_options@,
        }
    }
}

/// One notification from the agent.
pub struct SessionNotification {
    /// Session that the notification is about.
    pub session_id: String,
    /// What is projected into Discord.
    pub update: SessionUpdate,
    /// New configuration options, where the notification carries them.
    pub config_options: Option<Vec<SessionConfigOption>>,
}

impl ProjectionState {
    /// The state of a connection that is about to restore a session.
    pub fn new(options: Vec<SessionConfigOption>) -> (state: ProjectionState)
        ensures
            state@ == (StateView {
                turn: "restore"@,
                replaying: true,
                fault: false,
                options: options@,
            }),
    {
        ProjectionState {
            current_turn: text::copy("restore"),
            replaying: true,
            fault: false,
            ui: SessionUiState { config_options: options },
        }
    }

    /// Returns the current logical turn captured by notification callbacks.
    pub fn turn(&self) -> (turn: String)
        ensures
            turn@ == self@.turn,
    {
        text::copy(self.current_turn.as_str())
    }

    /// Returns whether notifications are still replaying session history.
    pub fn is_replaying(&self) -> (replaying: bool)
        ensures
            replaying == self@.replaying,
    {
        self.replaying
    }

    /// Returns whether the renderer could not keep up with ACP.
    pub fn is_faulty(&self) -> (fault: bool)
        ensures
            fault == self@.fault,
    {
        self.fault
    }

    /// Changes the logical turn used for unkeyed notifications.
    pub fn set_turn(&mut self, turn: String)
        ensures
            final(self)@ == (StateView { turn: turn@, ..old(self)@ }),
    {
        self.current_turn = turn;
    }

    /// Marks replay completion after `session/load` responds.
    pub fn finish_replay(&mut self)
        ensures
            final(self)@ == (StateView { replaying: false, ..old(self)@ }),
    {
        self.replaying = false;
    }

    /// Replaces the cached session configuration options.
    pub fn apply_config_options(&mut self, options: Vec<SessionConfigOption>)
        ensures
            final(self)@ == (StateView { options: options@, ..old(self)@ }),
    {
        self.ui.apply_config_options(options);
    }

    /// Returns the agent-advertised configuration options.
    pub fn config_options(&self) -> (options: &Vec<SessionConfigOption>)
        ensures
            options@ == self@.options,
    {
        &self.ui.config_options
    }

    /// Takes one session notification in. A notification for another session is
    /// ignored; one for this session replaces the cached configuration where it
    /// carries one, and is queued for the renderer.
    pub fn enqueue_notification(
        &mut self,
        expected_session: &str,
        thread: GenericChannelId,
        notification: SessionNotification,
    ) -> (event: Option<ProjectionEvent>)
        ensures
            match event {
                None => notification.session_id@ != expected_session@ && final(self)@
                    == old(self)@,
                Some(queued) => {
                    &&& notification.session_id@ == expected_session@
                    &&& queued.thread_id == thread
                    &&& queued.turn_id@ == old(self)@.turn
                    &&& queued.replay == old(self)@.replaying
                    &&& queued.update == notification.update
                    &&& final(self)@ == match notification.config_options {
                        Some(options) => StateView { options: options@, ..old(self)@ },
                        None => old(self)@,
                    }
                },
            },
    {
        if !text::same(notification.session_id.as_str(), expected_session) {
            return None;
        }
        if let Some(options) = notification.config_options {
            self.apply_config_options(options);
        }
        Some(
            ProjectionEvent {
                thread_id: thread,
                turn_id: self.turn(),
                replay: self.replaying,
                update: notification.update,
            },
        )
    }

    /// Judges how the renderer's queue took an event in: an event that is lost
    /// makes the projection faulty.
    pub fn notification_queued(&mut self, queued: Queued) -> (result: Result<(), AcpError>)
        ensures
            final(self)@ == (StateView {
                fault: old(self)@.fault || !(queued is Accepted),
                ..old(self)@
            }),
            match queued {
                Queued::Accepted => result is Ok,
                Queued::Full => result matches Err(error) && error@ == AcpErrorView::Internal(
                    "the acp projection queue is full"@,
                ),
                Queued::Closed => result matches Err(error) && error@ == AcpErrorView::Internal(
                    "the acp projection task is no longer running"@,
                ),
            },
    {
        match queued {
            Queued::Accepted => Ok(()),
            Queued::Full => {
                self.fault = true;
                Err(AcpError::internal("the acp projection queue is full"))
            },
            Queued::Closed => {
                self.fault = true;
                Err(AcpError::internal("the acp projection task is no longer running"))
            },
        }
    }
}

/// What a renderer waits for while it collects events.
pub enum BatchEvent<E> {
    /// Another event arrived.
    Received(E),
    /// No further event will arrive.
    Closed,
    /// The debounce window is over.
    WindowOver,
}

/// Projection events collected during the configured debounce window.
pub struct Batch<E> {
    /// Events in the order of their arrival.
    pub events: Vec<E>,
    /// Whether the batch waits for further events.
    pub open: bool,
}

impl<E> Batch<E> {
    /// Starts a batch with its first event. Without a debounce window the event
    /// stays alone.
    pub fn start(first: E, debounce: TimeSpan) -> (batch: Batch<E>)
        ensures
            batch.events@ == seq![first],
            batch.open == !(debounce.secs == 0 && debounce.nanos == 0),
    {
        let mut events: Vec<E> = Vec::new();
        events.push(first);
        assert(events@ =~= seq![first]);
        Batch { events, open: !debounce.is_zero() }
    }

    /// Collects adjacent projection events until the window is over or no event
    /// can follow.
    pub fn collect_batch(&mut self, event: BatchEvent<E>)
        requires
            old(self).open,
        ensures
            match event {
                BatchEvent::Received(received) => final(self).events@ == old(self).events@.push(
                    received,
                ) && final(self).open,
                _ => final(self).events@ == old(self).events@ && !final(self).open,
            },
    {
        match event {
            BatchEvent::Received(received) => {
                self.events.push(received);
            },
            _ => {
                self.open = false;
            },
        }
    }
}

} // verus!
