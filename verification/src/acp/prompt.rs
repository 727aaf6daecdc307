//! Prompt execution and actor command handling.
//!
//! A prompt waits for its answer, is cancelled when its time is up, and has a
//! grace period after that. `PromptRun` decides each step; the caller sends the
//! requests, waits, and reports what happened.

use vstd::prelude::*;

use crate::acp::options::{AcpError, AcpErrorView};
use crate::acp::protocol;
use crate::config::TimeSpan;
use crate::ids;
use crate::ids::GenericChannelId;
use crate::text;

verus! {

/// Seconds that an agent has to answer after it was asked to cancel a prompt.
pub const PROMPT_CANCEL_GRACE: u64 = 5;

/// Where a prompt comes from.
#[derive(Clone, Copy, Debug, PartialEq, Eq, Structural)]
pub enum PromptOrigin {
    /// The prompt is already visible in Discord.
    AlreadyVisible,
    /// The prompt has to be posted in Discord first.
    NeedsMirror,
}

/// How far a prompt has come.
#[derive(Clone, Copy, Debug, PartialEq, Eq, Structural)]
pub enum PromptPhase {
    /// The agent works on the prompt.
    Waiting,
    /// The agent is being asked to cancel the prompt.
    Cancelling,
    /// The agent was asked to cancel and may still answer.
    Grace,
    /// The prompt has ended.
    Ended,
}

/// What happened while a prompt is in progress.
pub enum PromptEvent {
    /// The agent answered.
    Answered,
    /// The agent rejected the prompt.
    Rejected(AcpError),
    /// The task that waits for the answer failed.
    TaskFailed(String),
    /// The time limit of the phase ran out.
    TimedOut,
    /// The actor was stopped.
    Stopped,
    /// The projection failed.
    Faulted,
    /// `session/cancel` was sent.
    CancelSent,
    /// `session/cancel` could not be sent.
    CancelFailed(String),
}

/// Distinguishes a prompt rejection from a broken ACP connection.
#[derive(Debug)]
pub enum PromptFailure {
    /// The agent rejected only this prompt.
    Prompt(AcpError),
    /// The connection can no longer process this session.
    Connection(AcpError),
}

/// The content of a prompt failure.
pub ghost enum FailureView {
    Prompt(AcpErrorView),
    Connection(AcpErrorView),
}

impl View for PromptFailure {
    type V = FailureView;

    open spec fn view(&self) -> FailureView {
        match self {
            PromptFailure::Prompt(error) => FailureView::Prompt(error@),
            PromptFailure::Connection(error) => FailureView::Connection(error@),
        }
    }
}

/// What is to be done for a prompt.
pub enum PromptStep {
    /// Send `session/cancel` and report how that went.
    Cancel,
    /// Wait for the answer for at most this long.
    Await(TimeSpan),
    /// The prompt is over.
    End {
        /// Whether `session/cancel` is still to be sent, without regard to how
        /// that goes.
        cancel: bool,
        /// Whether the task that waits for the answer is to be aborted.
        abort: bool,
        /// What the prompt came to.
        outcome: Result<(), PromptFailure>,
    },
}

/// The content of a step.
pub ghost enum StepView {
    Cancel,
    Await(TimeSpan),
    End(bool, bool, Result<(), FailureView>),
}

/// The content of what a prompt came to.
pub open spec fn outcome_view(outcome: Result<(), PromptFailure>) -> Result<(), FailureView> {
    match outcome {
        Ok(_) => Ok(()),
        Err(failure) => Err(failure@),
    }
}

impl View for PromptStep {
    type V = StepView;

    open spec fn view(&self) -> StepView {
        match self {
            PromptStep::Cancel => StepView::Cancel,
            PromptStep::Await(span) => StepView::Await(*span),
            PromptStep::End { cancel, abort, outcome } => StepView::End(
                *cancel,
                *abort,
                outcome_view(*outcome),
            ),
        }
    }
}

/// A prompt that ends the connection with an error of this text.
pub open spec fn broken(cancel: bool, abort: bool, data: Seq<char>) -> StepView {
    StepView::End(cancel, abort, Err(FailureView::Connection(AcpErrorView::Internal(data))))
}

/// An event that can happen in a phase.
pub open spec fn happens(phase: PromptPhase, event: PromptEvent) -> bool {
    match phase {
        PromptPhase::Waiting | PromptPhase::Grace => !(event is CancelSent) && !(
        event is CancelFailed),
        PromptPhase::Cancelling => event is CancelSent || event is CancelFailed,
        PromptPhase::Ended => false,
    }
}

/// What an event leads to: the next phase and what is to be done.
pub open spec fn step_of(
    phase: PromptPhase,
    event: PromptEvent,
    thread: GenericChannelId,
) -> (PromptPhase, StepView) {
    let late = phase is Grace;
    match event {
        PromptEvent::Answered => (PromptPhase::Ended, StepView::End(false, false, Ok(()))),
        PromptEvent::Rejected(error) => (
            PromptPhase::Ended,
            StepView::End(false, false, Err(FailureView::Prompt(error@))),
        ),
        PromptEvent::TaskFailed(failure) => (
            PromptPhase::Ended,
            broken(
                false,
                false,
                if late {
                    "acp cancelled `session/prompt` task failed: "@ + failure@
                } else {
                    "acp `session/prompt` task failed: "@ + failure@
                },
            ),
        ),
        PromptEvent::TimedOut => if late {
            (
                PromptPhase::Ended,
                broken(
                    false,
                    true,
                    "acp `session/prompt` did not finish after `session/cancel` (thread "@
                        + ids::mention_of(thread) + ")"@,
                ),
            )
        } else {
            (PromptPhase::Cancelling, StepView::Cancel)
        },
        PromptEvent::Stopped => (
            PromptPhase::Ended,
            broken(!late, true, "acp session actor was stopped"@),
        ),
        PromptEvent::Faulted => (
            PromptPhase::Ended,
            broken(
                !late,
                true,
                if late {
                    "acp projection failed during prompt cancellation"@
                } else {
                    "acp projection failed during prompt"@
                },
            ),
        ),
        PromptEvent::CancelSent => (
            PromptPhase::Grace,
            StepView::Await(TimeSpan { secs: PROMPT_CANCEL_GRACE, nanos: 0 }),
        ),
        PromptEvent::CancelFailed(failure) => (
            PromptPhase::Ended,
            broken(false, true, "failed to send acp `session/cancel`: "@ + failure@),
        ),
    }
}

fn connection_end(cancel: bool, abort: bool, data: String) -> (step: PromptStep)
    ensures
        step@ == broken(cancel, abort, data@),
{
    PromptStep::End {
        cancel,
        abort,
        outcome: Err(PromptFailure::Connection(AcpError::Internal(data))),
    }
}

/// One prompt in progress.
pub struct PromptRun {
    phase: PromptPhase,
    thread: GenericChannelId,
}

impl View for PromptRun {
    type V = (PromptPhase, GenericChannelId);

    closed spec fn view(&self) -> (PromptPhase, GenericChannelId) {
        (self.phase, self.thread)
    }
}

impl PromptRun {
    /// Starts a prompt whose request was sent: its answer is awaited for the
    /// configured time.
    pub fn start(thread: GenericChannelId, limit: TimeSpan) -> (started: (PromptRun, PromptStep))
        ensures
            started.0@ == (PromptPhase::Waiting, thread),
            started.1@ == StepView::Await(limit),
    {
        (PromptRun { phase: PromptPhase::Waiting, thread }, PromptStep::Await(limit))
    }

    /// Returns how far the prompt has come.
    pub fn phase(&self) -> (phase: PromptPhase)
        ensures
            phase == self@.0,
    {
        self.phase
    }

    /// Decides what an event leads to.
    pub fn run_prompt(&mut self, event: PromptEvent) -> (step: PromptStep)
        requires
            happens(old(self)@.0, event),
        ensures
            final(self)@.1 == old(self)@.1,
            (final(self)@.0, step@) == step_of(old(self)@.0, event, old(self)@.1),
    {
        let late = self.phase == PromptPhase::Grace;
        self.phase = PromptPhase::Ended;
        match event {
            PromptEvent::Answered => PromptStep::End {
                cancel: false,
                abort: false,
                outcome: Ok(()),
            },
            PromptEvent::Rejected(error) => PromptStep::End {
                cancel: false,
                abort: false,
                outcome: Err(PromptFailure::Prompt(error)),
            },
            PromptEvent::TaskFailed(failure) => {
                let prefix = if late {
                    "acp cancelled `session/prompt` task failed: "
                } else {
                    "acp `session/prompt` task failed: "
                };
                connection_end(false, false, text::join2(prefix, failure.as_str()))
            },
            PromptEvent::TimedOut => if late {
                connection_end(
                    false,
                    true,
                    text::join3(
                        "acp `session/prompt` did not finish after `session/cancel` (thread ",
                        self.thread.mention().as_str(),
                        ")",
                    ),
                )
            } else {
                self.phase = PromptPhase::Cancelling;
                PromptStep::Cancel
            },
            PromptEvent::Stopped => connection_end(
                !late,
                true,
                text::copy("acp session actor was stopped"),
            ),
            PromptEvent::Faulted => {
                let data = if late {
                    "acp projection failed during prompt cancellation"
                } else {
                    "acp projection failed during prompt"
                };
                connection_end(!late, true, text::copy(data))
            },
            PromptEvent::CancelSent => {
                self.phase = PromptPhase::Grace;
                PromptStep::Await(TimeSpan { secs: PROMPT_CANCEL_GRACE, nanos: 0 })
            },
            PromptEvent::CancelFailed(failure) => connection_end(
                false,
                true,
                text::join2("failed to send acp `session/cancel`: ", failure.as_str()),
            ),
        }
    }
}

/// How many events a prompt can still see.
pub open spec fn events_left(phase: PromptPhase) -> nat {
    match phase {
        PromptPhase::Waiting => 3,
        PromptPhase::Cancelling => 2,
        PromptPhase::Grace => 1,
        PromptPhase::Ended => 0,
    }
}

/// Every event brings a prompt closer to its end, so that it ends after at most
/// three of them, and a step ends the prompt exactly when it is the last one.
pub proof fn a_prompt_ends(phase: PromptPhase, event: PromptEvent, thread: GenericChannelId)
    requires
        happens(phase, event),
    ensures
        events_left(step_of(phase, event, thread).0) < events_left(phase),
        (step_of(phase, event, thread).0 is Ended) == (step_of(phase, event, thread).1 is End),
{
}

/// Only the agent's own rejection of a prompt leaves the connection in use after
/// a failure.
pub proof fn only_a_rejection_keeps_the_connection(
    phase: PromptPhase,
    event: PromptEvent,
    thread: GenericChannelId,
)
    requires
        happens(phase, event),
    ensures
        step_of(phase, event, thread).1 matches StepView::End(_, _, outcome) ==> (
        outcome matches Err(FailureView::Prompt(_)) <==> event is Rejected),
{
}

/// A prompt whose answer is not awaited any more has its task aborted, and the
/// agent was told to cancel it, or is told now, or cannot be told.
pub proof fn an_abandoned_prompt_is_cancelled(
    phase: PromptPhase,
    event: PromptEvent,
    thread: GenericChannelId,
)
    requires
        happens(phase, event),
    ensures
        step_of(phase, event, thread).1 matches StepView::End(cancel, abort, _) ==> {
            &&& abort == (event is TimedOut || event is Stopped || event is Faulted
                || event is CancelFailed)
            &&& abort ==> cancel || phase is Grace || event is CancelFailed
        },
{
}

/// What an actor does after a prompt.
pub enum AfterPrompt {
    /// Go on with the next command.
    Continue,
    /// Report this text in the thread, and go on.
    Notify(String),
    /// End with this error.
    Fail(AcpError),
}

/// Decides what follows a queued prompt: a rejected prompt is reported, a broken
/// connection ends the actor.
pub fn handle_prompt_command(outcome: Result<(), PromptFailure>) -> (after: AfterPrompt)
    ensures
        match outcome {
            Ok(_) => after is Continue,
            Err(PromptFailure::Prompt(error)) => after matches AfterPrompt::Notify(report)
                && report@ == "acp `session/prompt` failed: "@ + ("acp error: "@ + error@.text()),
            Err(PromptFailure::Connection(error)) => after == AfterPrompt::Fail(error),
        },
{
    match outcome {
        Ok(()) => AfterPrompt::Continue,
        Err(PromptFailure::Prompt(error)) => {
            let error = protocol::acp_error(&error);
            AfterPrompt::Notify(
                text::join2("acp `session/prompt` failed: ", error.message().as_str()),
            )
        },
        Err(PromptFailure::Connection(error)) => AfterPrompt::Fail(error),
    }
}

/// Whether a queued prompt is posted in Discord before it is sent to the agent.
pub fn needs_mirror(origin: PromptOrigin) -> (result: bool)
    ensures
        result == (origin is NeedsMirror),
{
    origin == PromptOrigin::NeedsMirror
}

/// What woke an actor up.
pub enum ActorEvent {
    /// The actor is about to wait for its next command.
    Ready,
    /// The projection failed.
    Faulted,
    /// The actor was stopped.
    Stopped,
    /// The agent closed the connection.
    ConnectionClosed,
    /// A command arrived.
    Command,
    /// No further command will arrive.
    QueueClosed,
    /// A command was handled.
    Handled(Result<(), AcpError>),
}

/// What an actor does next.
pub enum ActorStep {
    /// Wait for a command, a signal or the end of the connection.
    Wait,
    /// Handle the command that arrived.
    Handle,
    /// Get ready for the next command.
    Repeat,
    /// End.
    End(Result<(), AcpError>),
}

/// The error of an actor whose projection failed.
pub open spec fn overflowed() -> AcpErrorView {
    AcpErrorView::Internal("acp projection queue overflowed"@)
}

/// The error of an actor that was stopped.
pub open spec fn stopped() -> AcpErrorView {
    AcpErrorView::Internal("acp session actor was stopped"@)
}

/// How an actor ends on an event, `None` where it goes on.
pub open spec fn actor_end(event: ActorEvent, fault: bool, stop: bool) -> Option<
    Result<(), AcpErrorView>,
> {
    match event {
        ActorEvent::Ready => if fault {
            Some(Err(overflowed()))
        } else if stop {
            Some(Err(stopped()))
        } else {
            None
        },
        ActorEvent::Faulted => Some(Err(overflowed())),
        ActorEvent::Stopped => Some(Err(stopped())),
        ActorEvent::ConnectionClosed => Some(Err(AcpErrorView::Internal("acp connection closed"@))),
        ActorEvent::Command => None,
        ActorEvent::QueueClosed => Some(
            if fault {
                Err(overflowed())
            } else {
                Ok(())
            },
        ),
        ActorEvent::Handled(Err(error)) => Some(Err(error@)),
        ActorEvent::Handled(Ok(_)) => if fault {
            Some(Err(overflowed()))
        } else {
            None
        },
    }
}

/// Processes queued commands serially: decides the next step of an actor from
/// what woke it up and from the signals that have fired.
pub fn run_commands(event: ActorEvent, fault: bool, stop: bool) -> (step: ActorStep)
    ensures
        match actor_end(event, fault, stop) {
            Some(end) => step matches ActorStep::End(result) && protocol::same_end(result, end),
            None => step == match event {
                ActorEvent::Ready => ActorStep::Wait,
                ActorEvent::Command => ActorStep::Handle,
                _ => ActorStep::Repeat,
            },
        },
{
    let overflow = AcpError::internal("acp projection queue overflowed");
    let halt = AcpError::internal("acp session actor was stopped");
    match event {
        ActorEvent::Ready => if fault {
            ActorStep::End(Err(overflow))
        } else if stop {
            ActorStep::End(Err(halt))
        } else {
            ActorStep::Wait
        },
        ActorEvent::Faulted => ActorStep::End(Err(overflow)),
        ActorEvent::Stopped => ActorStep::End(Err(halt)),
        ActorEvent::ConnectionClosed => ActorStep::End(
            Err(AcpError::internal("acp connection closed")),
        ),
        ActorEvent::Command => ActorStep::Handle,
        ActorEvent::QueueClosed => if fault {
            ActorStep::End(Err(overflow))
        } else {
            ActorStep::End(Ok(()))
        },
        ActorEvent::Handled(Err(error)) => ActorStep::End(Err(error)),
        ActorEvent::Handled(Ok(())) => if fault {
            ActorStep::End(Err(overflow))
        } else {
            ActorStep::Repeat
        },
    }
}

/// An actor never waits or ends well once its projection has failed, and a
/// stopped actor never waits for another command.
pub proof fn a_faulty_or_stopped_actor_does_not_wait(event: ActorEvent, stop: bool)
    ensures
        !(event is Command) && !(event matches ActorEvent::Handled(Err(_))) && !(
        event is ConnectionClosed) && !(event is Stopped) ==> actor_end(event, true, stop) == Some(
            Err::<(), AcpErrorView>(overflowed()),
        ),
        actor_end(ActorEvent::Ready, false, true) == Some(Err::<(), AcpErrorView>(stopped())),
{
}

} // verus!
