//! Connections, prompts and actors of ACP sessions.

use agentcord::acp::connection::{
    handle_permission_request, restore_agent, restore_initialized, restore_loaded, stop_aware,
    PermissionRoute, Startup,
};
use agentcord::acp::options::AcpError;
use agentcord::acp::projection::{Batch, BatchEvent, ProjectionState, SessionNotification};
use agentcord::acp::prompt::{
    handle_prompt_command, needs_mirror, run_commands, ActorEvent, ActorStep, AfterPrompt,
    PromptEvent, PromptFailure, PromptOrigin, PromptPhase, PromptRun, PromptStep,
};
use agentcord::acp::protocol::{
    acp_error, configured_agent, initialize, inspect_session, InitializeResponse, ListStep,
    ListedSession, SessionListing, SessionPage,
};
use agentcord::acp::registry::{
    failure_notice, reload, set_model, ActorRegistry, ModelReply, Queued, StopWait,
};
use agentcord::config::{AgentKey, Agents, TimeSpan};
use agentcord::db::SessionRow;
use agentcord::discord::permission::{
    cancelled, PermissionOption, PermissionOptionKind, RequestPermissionRequest,
};
use agentcord::discord::render::SessionUpdate;
use agentcord::error::BotError;
use agentcord::ids::GenericChannelId;

fn row(thread: u64, session: &str) -> SessionRow {
    SessionRow {
        thread_id: GenericChannelId(thread),
        agent_key: AgentKey::new("codex"),
        session_id: session.to_owned(),
        project_path: "/work".to_owned(),
    }
}

fn capable() -> InitializeResponse {
    InitializeResponse {
        protocol_version: 1,
        load_session: true,
        list_sessions: true,
    }
}

fn listed(id: &str) -> ListedSession {
    ListedSession {
        session_id: id.to_owned(),
        project_path: "/work".to_owned(),
        title: None,
    }
}

#[test]
fn the_protocol_version_is_negotiated() {
    assert_eq!(initialize(Some(Ok(capable()))).unwrap(), capable());
    let newer = InitializeResponse {
        protocol_version: 2,
        ..capable()
    };
    assert!(matches!(
        initialize(Some(Ok(newer))),
        Err(AcpError::InvalidRequest(_))
    ));
    assert_eq!(
        initialize(None).unwrap_err(),
        AcpError::Internal("acp initialize timed out".to_owned())
    );
    let shown = AcpError::Internal("acp initialize timed out".to_owned()).message();
    assert!(shown.starts_with("Internal error") && shown.contains("acp initialize timed out"));
    let refused = AcpError::InvalidRequest("no".to_owned());
    assert!(refused.message().starts_with("Invalid request"));
    assert!(matches!(acp_error(&refused), BotError::AcpProtocol(_)));
}

#[test]
fn sessions_are_listed_page_by_page() {
    let (mut listing, step) = SessionListing::start(&capable()).unwrap();
    assert!(matches!(step, ListStep::Request(None)));
    let first = SessionPage {
        sessions: vec![listed("a")],
        next_cursor: Some("c".to_owned()),
    };
    assert!(matches!(
        listing.answered(Some(Ok(first))).unwrap(),
        ListStep::Request(Some(cursor)) if cursor == "c"
    ));
    let last = SessionPage {
        sessions: vec![listed("b")],
        next_cursor: None,
    };
    assert!(matches!(
        listing.answered(Some(Ok(last))).unwrap(),
        ListStep::Done
    ));
    let sessions = listing.into_sessions();
    assert_eq!(inspect_session(&sessions, "b").unwrap().session_id, "b");
    assert!(matches!(
        inspect_session(&sessions, "c"),
        Err(BotError::SessionNotFound { .. })
    ));
    let mute = InitializeResponse {
        list_sessions: false,
        ..capable()
    };
    assert!(SessionListing::start(&mute).is_err());
}

#[test]
fn a_late_prompt_is_cancelled() {
    let limit = TimeSpan { secs: 60, nanos: 0 };
    let (mut run, step) = PromptRun::start(GenericChannelId(5), limit);
    assert!(matches!(step, PromptStep::Await(span) if span == limit));
    assert!(matches!(
        run.run_prompt(PromptEvent::TimedOut),
        PromptStep::Cancel
    ));
    assert_eq!(run.phase(), PromptPhase::Cancelling);
    assert!(matches!(
        run.run_prompt(PromptEvent::CancelSent),
        PromptStep::Await(_)
    ));
    let PromptStep::End { abort, outcome, .. } = run.run_prompt(PromptEvent::TimedOut) else {
        panic!("the grace period is over");
    };
    assert!(abort);
    assert!(matches!(
        outcome,
        Err(PromptFailure::Connection(AcpError::Internal(data))) if data.contains("<#5>")
    ));
}

#[test]
fn a_rejected_prompt_keeps_the_connection() {
    let (mut run, _) = PromptRun::start(GenericChannelId(5), TimeSpan { secs: 1, nanos: 0 });
    let rejected = AcpError::Agent("busy".to_owned());
    let PromptStep::End { outcome, .. } = run.run_prompt(PromptEvent::Rejected(rejected)) else {
        panic!("an answer ends the prompt");
    };
    assert!(matches!(
        handle_prompt_command(outcome),
        AfterPrompt::Notify(_)
    ));
    assert!(matches!(handle_prompt_command(Ok(())), AfterPrompt::Continue));
    assert!(matches!(
        handle_prompt_command(Err(PromptFailure::Connection(AcpError::Internal(
            "gone".to_owned()
        )))),
        AfterPrompt::Fail(_)
    ));
    assert!(needs_mirror(PromptOrigin::NeedsMirror));
    assert!(!needs_mirror(PromptOrigin::AlreadyVisible));
}

#[test]
fn a_faulty_actor_ends() {
    assert!(matches!(
        run_commands(ActorEvent::Ready, false, false),
        ActorStep::Wait
    ));
    assert!(matches!(
        run_commands(ActorEvent::Ready, true, false),
        ActorStep::End(Err(_))
    ));
    assert!(matches!(
        run_commands(ActorEvent::Ready, false, true),
        ActorStep::End(Err(_))
    ));
    assert!(matches!(
        run_commands(ActorEvent::Command, false, false),
        ActorStep::Handle
    ));
    assert!(matches!(
        run_commands(ActorEvent::QueueClosed, false, false),
        ActorStep::End(Ok(()))
    ));
}

#[test]
fn an_actor_serves_its_session() {
    let mut registry: ActorRegistry<&str> = ActorRegistry::new();
    let (first, replaced) = registry.replace(&row(1, "a"), "one");
    assert!(replaced.is_none());
    assert_eq!(registry.serving(&row(1, "a")), Some((first, &"one")));
    assert_eq!(registry.serving(&row(1, "b")), None);
    let (second, replaced) = registry.replace(&row(1, "b"), "two");
    assert_eq!(replaced, Some("one"));
    registry.remove(GenericChannelId(1), first);
    assert_eq!(registry.current(GenericChannelId(1)), Some(&"two"));
    assert!(registry
        .queued(GenericChannelId(1), second, Queued::Accepted)
        .is_ok());
    assert!(matches!(
        registry.queued(GenericChannelId(1), second, Queued::Full),
        Err(BotError::AcpQueueFull)
    ));
    assert!(matches!(
        registry.queued(GenericChannelId(1), second, Queued::Closed),
        Err(BotError::AcpActorExited)
    ));
    assert_eq!(registry.current(GenericChannelId(1)), None);
    registry.replace(&row(1, "b"), "three");
    assert_eq!(registry.stop(GenericChannelId(1)), Some("three"));
}

#[test]
fn waiting_for_an_actor_can_fail() {
    assert!(set_model(&ModelReply::Answered(Ok(()))).is_ok());
    assert!(matches!(
        set_model(&ModelReply::TimedOut),
        Err(BotError::AcpModelSelectionTimedOut)
    ));
    assert!(matches!(
        set_model(&ModelReply::ActorGone),
        Err(BotError::AcpActorExited)
    ));
    assert!(reload(StopWait::Released).is_ok());
    assert!(matches!(
        reload(StopWait::TimedOut),
        Err(BotError::AcpReloadTimedOut)
    ));
    let error = AcpError::Internal("gone".to_owned());
    assert!(failure_notice(&error, true).is_none());
    assert!(failure_notice(&error, false).unwrap().contains("gone"));
}

#[test]
fn notifications_of_other_sessions_are_ignored() {
    let mut state = ProjectionState::new(vec![]);
    assert_eq!(state.turn(), "restore");
    assert!(state.is_replaying());
    let note = |session: &str| SessionNotification {
        session_id: session.to_owned(),
        update: SessionUpdate::Other,
        config_options: None,
    };
    let thread = GenericChannelId(1);
    assert!(state.enqueue_notification("s1", thread, note("s2")).is_none());
    let event = state.enqueue_notification("s1", thread, note("s1")).unwrap();
    assert!(event.replay);
    assert_eq!(event.turn_id, "restore");
    state.finish_replay();
    state.set_turn("7".to_owned());
    let event = state.enqueue_notification("s1", thread, note("s1")).unwrap();
    assert!(!event.replay);
    assert_eq!(event.turn_id, "7");
    assert!(state.notification_queued(Queued::Full).is_err());
    assert!(state.is_faulty());
}

#[test]
fn adjacent_updates_are_batched() {
    let window = TimeSpan {
        secs: 0,
        nanos: 100,
    };
    let mut batch = Batch::start(1, window);
    assert!(batch.open);
    batch.collect_batch(BatchEvent::Received(2));
    batch.collect_batch(BatchEvent::WindowOver);
    assert!(!batch.open);
    assert_eq!(batch.events, vec![1, 2]);
}

#[test]
fn a_restored_session_is_loaded() {
    let agents = Agents::new();
    assert!(matches!(
        restore_agent(&agents, &row(1, "a")),
        Startup::Unconfigured(_)
    ));
    assert!(matches!(
        configured_agent(&agents, &AgentKey::new("codex")),
        Err(BotError::UnknownAgent { .. })
    ));
    assert!(restore_initialized(false, Some(Some(Ok(capable())))).is_ok());
    let forgetful = InitializeResponse {
        load_session: false,
        ..capable()
    };
    assert!(restore_initialized(false, Some(Some(Ok(forgetful)))).is_err());
    let mut state = ProjectionState::new(vec![]);
    assert!(restore_loaded(&mut state, true, None).is_err());
    assert!(state.is_replaying());
    assert!(stop_aware(false, Some(Ok(1))).is_ok());
    assert!(stop_aware::<u8>(true, None).is_err());
}

#[test]
fn permission_requests_are_routed() {
    let request = RequestPermissionRequest {
        session_id: "s1".to_owned(),
        title: None,
        options: vec![PermissionOption {
            option_id: "a".to_owned(),
            name: "A".to_owned(),
            kind: PermissionOptionKind::AllowOnce,
        }],
    };
    assert!(matches!(
        handle_permission_request("s2", "s1", false, true, &request),
        PermissionRoute::Respond(response) if response == cancelled()
    ));
    assert!(matches!(
        handle_permission_request("s1", "s1", true, true, &request),
        PermissionRoute::Respond(response) if response != cancelled()
    ));
    assert!(matches!(
        handle_permission_request("s1", "s1", false, true, &request),
        PermissionRoute::Ask
    ));
    assert!(matches!(
        handle_permission_request("s1", "s1", false, false, &request),
        PermissionRoute::Respond(response) if response == cancelled()
    ));
}
