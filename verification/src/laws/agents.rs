//! Laws of ACP connections: prompts, actors and negotiated sessions.

use vstd::prelude::*;

use crate::acp::connection;
use crate::acp::options::{AcpError, AcpErrorView};
use crate::acp::prompt;
use crate::acp::prompt::{ActorEvent, FailureView, PromptEvent, PromptPhase, StepView};
use crate::acp::protocol;
use crate::acp::protocol::{InitializeResponse, ListedSession};
use crate::acp::registry::RegistryView;
use crate::config::TimeSpan;
use crate::db::RowView;
use crate::ids::GenericChannelId;
use crate::seqs;

verus! {

/// A prompt succeeds exactly where the agent answers it. One that takes too long is
/// cancelled first, and only when the agent does not finish within five seconds of
/// that given up. An agent is told to cancel at the end exactly where it was left
/// in the middle of a prompt that nobody had cancelled before.
pub proof fn a_prompt_succeeds_where_it_is_answered(
    phase: PromptPhase,
    event: PromptEvent,
    thread: GenericChannelId,
)
    requires
        prompt::happens(phase, event),
    ensures
        ({
            let (next, step) = prompt::step_of(phase, event, thread);
            &&& (step matches StepView::End(_, _, Ok(_))) <==> event is Answered
            &&& step is Cancel <==> phase is Waiting && event is TimedOut
            &&& step is Cancel <==> next is Cancelling
            &&& step is Await <==> event is CancelSent
            &&& step matches StepView::Await(span) ==> span == (TimeSpan { secs: 5, nanos: 0 })
                && next is Grace
            &&& step matches StepView::End(cancel, _, _) ==> (cancel <==> phase is Waiting && (
            event is Stopped || event is Faulted))
            &&& event matches PromptEvent::Rejected(error) ==> step == StepView::End(
                false,
                false,
                Err(FailureView::Prompt(error@)),
            )
        }),
{
}

/// An actor that is told to handle a command does, whatever else holds; an error in
/// handling one ends it with that error; and it ends without an error only where
/// nobody can send it commands any more.
pub proof fn an_actor_ends_with_what_ended_it(event: ActorEvent, fault: bool, stop: bool)
    ensures
        event is Command ==> prompt::actor_end(event, fault, stop) is None,
        event matches ActorEvent::Handled(Err(error)) ==> prompt::actor_end(event, fault, stop)
            == Some(Err::<(), AcpErrorView>(error@)),
        prompt::actor_end(event, fault, stop) == Some(Ok::<(), AcpErrorView>(())) <==> event
            is QueueClosed && !fault,
        event is Ready && !fault && !stop ==> prompt::actor_end(event, fault, stop) is None,
        event is Ready && (fault || stop) ==> prompt::actor_end(event, fault, stop) matches Some(
            Err(_),
        ),
        event is ConnectionClosed || event is Stopped || event is Faulted ==> prompt::actor_end(
            event,
            fault,
            stop,
        ) matches Some(Err(_)),
        event matches ActorEvent::Handled(Ok(_)) ==> (prompt::actor_end(event, fault, stop) is None
            <==> !fault),
{
}

/// A connection is used exactly where the agent answers in time with the first
/// version of the protocol.
pub proof fn only_the_first_version_is_spoken(
    answer: Option<Result<InitializeResponse, AcpError>>,
)
    ensures
        protocol::negotiated(answer) matches Ok(response) ==> answer == Some(
            Ok::<InitializeResponse, AcpError>(response),
        ) && response.protocol_version == 1,
        answer matches Some(Ok(response)) ==> (response.protocol_version == 1
            ==> protocol::negotiated(answer) == Ok::<InitializeResponse, AcpErrorView>(response)),
        answer matches Some(Err(error)) ==> protocol::negotiated(answer) == Err::<
            InitializeResponse,
            AcpErrorView,
        >(error@),
{
}

/// A session is restored only by an actor that was not stopped, from an agent that
/// can load sessions.
pub proof fn a_session_is_loaded_where_it_can_be(
    stopped: bool,
    answer: Option<Option<Result<InitializeResponse, AcpError>>>,
)
    ensures
        connection::loadable(stopped, answer) is Ok <==> !stopped && (answer matches Some(
            Some(Ok(response)),
        ) && response.protocol_version == 1 && response.load_session),
{
}

/// What a session was loaded with is what the agent answered; a stopped actor takes
/// no answer.
pub proof fn a_loaded_session_is_the_answer(
    stopped: bool,
    answer: Option<Option<Result<connection::Loaded, AcpError>>>,
)
    ensures
        stopped ==> connection::load_end(stopped, answer) is Err,
        connection::load_end(stopped, answer) matches Ok(loaded) ==> answer == Some(
            Some(Ok::<connection::Loaded, AcpError>(loaded)),
        ),
        !stopped && (answer matches Some(Some(Ok(loaded)))) ==> connection::load_end(
            stopped,
            answer,
        ) is Ok,
        !stopped && (answer matches Some(Some(Err(error)))) ==> connection::load_end(
            stopped,
            answer,
        ) == Err::<connection::Loaded, AcpErrorView>(answer->0->0->Err_0@),
{
}

/// Starting, stopping and ending the actor of a thread leaves the actors of all other
/// threads as they are. A stopped thread has no actor, and an actor that ended is
/// gone exactly where it was the current one.
pub proof fn other_sessions_keep_their_actors<T>(
    registry: RegistryView<T>,
    row: RowView,
    handle: T,
    actor: u64,
    other: u64,
)
    requires
        registry.wf(),
        registry.started < u64::MAX,
    ensures
        ({
            let thread = row.thread_id;
            let started = registry.with_actor(row, handle);
            let stopped = registry.without(thread);
            let ended = registry.after_end(thread, actor);
            &&& other != thread.0 ==> {
                &&& started.actors.dom().contains(other) <==> registry.actors.dom().contains(other)
                &&& stopped.actors.dom().contains(other) <==> registry.actors.dom().contains(other)
                &&& ended.actors.dom().contains(other) <==> registry.actors.dom().contains(other)
                &&& registry.actors.dom().contains(other) ==> started.actors[other]
                    == registry.actors[other] && stopped.actors[other] == registry.actors[other]
                    && ended.actors[other] == registry.actors[other]
            }
            &&& !stopped.actors.dom().contains(thread.0)
            &&& started.actors.dom().contains(thread.0) && started.actors[thread.0].handle
                == handle && started.actors[thread.0].row == row
            &&& forall|any: u64|
                registry.actors.dom().contains(any) ==> (#[trigger] registry.actors[any]).actor
                    != started.actors[thread.0].actor
            &&& registry.actors.dom().contains(thread.0) ==> (ended.actors.dom().contains(
                thread.0,
            ) <==> registry.actors[thread.0].actor != actor)
        }),
{
}

/// An actor serves a session exactly where it is registered for the thread of that
/// very session.
pub proof fn an_actor_serves_its_own_session<T>(registry: RegistryView<T>, row: RowView)
    ensures
        registry.serving(row) matches Some(entry) ==> entry.row == row
            && registry.actors.dom().contains(row.thread_id.0)
            && registry.actors[row.thread_id.0] == entry,
        registry.serving(row) is None <==> !(registry.actors.dom().contains(row.thread_id.0)
            && registry.actors[row.thread_id.0].row == row),
{
}

/// A prompt whose task failed tells how, and whether it had been cancelled; one that
/// ends without an answer from the agent is abandoned unless its task is over.
pub proof fn a_failed_prompt_tells_how(
    phase: PromptPhase,
    event: PromptEvent,
    thread: GenericChannelId,
)
    requires
        prompt::happens(phase, event),
    ensures
        ({
            let (next, step) = prompt::step_of(phase, event, thread);
            &&& step is End <==> next is Ended
            &&& step matches StepView::End(_, abort, _) ==> (abort <==> !(event is Answered
                || event is Rejected || event is TaskFailed))
            &&& event matches PromptEvent::TaskFailed(failure) ==> told(step) == Some(
                if phase is Grace {
                    "acp cancelled `session/prompt` task failed: "@ + failure@
                } else {
                    "acp `session/prompt` task failed: "@ + failure@
                },
            )
            &&& event matches PromptEvent::CancelFailed(failure) ==> told(step) == Some(
                "failed to send acp `session/cancel`: "@ + failure@,
            )
            &&& event is Stopped ==> told(step) == Some("acp session actor was stopped"@)
            &&& event is Faulted ==> told(step) == Some(
                if phase is Grace {
                    "acp projection failed during prompt cancellation"@
                } else {
                    "acp projection failed during prompt"@
                },
            )
        }),
{
}

/// What a step that ends with an error of the connection tells.
pub open spec fn told(step: StepView) -> Option<Seq<char>> {
    match step {
        StepView::End(_, _, Err(FailureView::Connection(AcpErrorView::Internal(data)))) => Some(
            data,
        ),
        _ => None,
    }
}

/// An actor that ends of itself tells apart that it was stopped, that an update was lost
/// and that the connection was closed; a lost update is told before a stop.
pub proof fn an_actor_tells_what_ended_it(fault: bool, stop: bool)
    ensures
        ({
            let lost = prompt::actor_end(ActorEvent::Faulted, fault, stop);
            let stopped = prompt::actor_end(ActorEvent::Stopped, fault, stop);
            let closed = prompt::actor_end(ActorEvent::ConnectionClosed, fault, stop);
            &&& fault ==> prompt::actor_end(ActorEvent::Ready, fault, stop) == lost
            &&& fault ==> prompt::actor_end(ActorEvent::QueueClosed, fault, stop) == lost
            &&& !fault && stop ==> prompt::actor_end(ActorEvent::Ready, fault, stop) == stopped
            &&& stopped == Some(
                Err::<(), AcpErrorView>(AcpErrorView::Internal("acp session actor was stopped"@)),
            )
            &&& closed == Some(
                Err::<(), AcpErrorView>(AcpErrorView::Internal("acp connection closed"@)),
            )
        }),
{
}

/// The session that is found in a list bears the identifier, no earlier one does, and
/// one is found wherever there is one.
pub proof fn a_listed_session_is_found_by_its_identifier(
    sessions: Seq<ListedSession>,
    session_id: Seq<char>,
)
    ensures
        ({
            let at = seqs::first_where(sessions, protocol::identified(session_id));
            &&& 0 <= at <= sessions.len()
            &&& at < sessions.len() ==> sessions[at].session_id@ == session_id
            &&& forall|i: int| 0 <= i < at ==> (#[trigger] sessions[i]).session_id@ != session_id
        }),
{
    let wanted = protocol::identified(session_id);
    seqs::lemma_first_where(sessions, wanted);
    let at = seqs::first_where(sessions, wanted);
    if at < sessions.len() {
        assert(wanted(sessions[at]));
    }
    assert forall|i: int| 0 <= i < at implies (#[trigger] sessions[i]).session_id@ != session_id by {
        assert(!wanted(sessions[i]));
    }
}

} // verus!
