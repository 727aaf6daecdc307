//! The herdr data model, events and requests.

use agentcord::herdr::client::{
    acknowledged, call, created_tab, created_workspace, expect_ok, timeout_ms, Herdr, StartStep,
};
use agentcord::herdr::error::HerdrError;
use agentcord::herdr::event::{Event, EventKind, Subscription};
use agentcord::herdr::model::{
    de_harness, Agent, AgentStatus, PaneId, TabId, Workspace, WorkspaceId,
};
use agentcord::herdr::wire::{
    Envelope, RootPane, ServerError, TabCreated, TabRef, WorkspaceCreated,
};
use agentcord::config::TimeSpan;
use agentcord::session::Harness;
use serde_json::Value;

fn json(source: &str) -> Value {
    serde_json::from_str(source).expect("valid JSON")
}

fn not_found() -> Envelope {
    Envelope {
        result: None,
        error: Some(ServerError {
            code: "agent_not_found".to_owned(),
            message: "agent definitely-not-real not found".to_owned(),
        }),
    }
}

#[test]
fn agent_status_round_trips() {
    for (text, expected) in [
        ("idle", AgentStatus::Idle),
        ("working", AgentStatus::Working),
        ("blocked", AgentStatus::Blocked),
        ("done", AgentStatus::Done),
        ("unknown", AgentStatus::Unknown),
    ] {
        assert_eq!(text.parse::<AgentStatus>(), Ok(expected));
        assert_eq!(expected.as_str(), text);
    }
    assert_eq!("IDLE".parse::<AgentStatus>(), Ok(AgentStatus::Idle));
    assert_eq!("Working".parse::<AgentStatus>(), Ok(AgentStatus::Working));
    assert_eq!("bogus".parse::<AgentStatus>(), Err(()));
}

#[test]
fn event_kind_subscription_names_round_trip() {
    for (wire, subscription) in [
        ("workspace_created", "workspace.created"),
        ("workspace_updated", "workspace.updated"),
        ("workspace_closed", "workspace.closed"),
        ("workspace_renamed", "workspace.renamed"),
        ("tab_created", "tab.created"),
        ("tab_closed", "tab.closed"),
        ("pane_created", "pane.created"),
        ("pane_closed", "pane.closed"),
        ("pane_updated", "pane.updated"),
        ("pane_exited", "pane.exited"),
        ("pane_agent_detected", "pane.agent_detected"),
    ] {
        let kind = EventKind::from_wire(wire).expect("known wire name");
        assert_eq!(kind.subscription(), subscription);
    }
    assert_eq!(EventKind::from_wire("bogus_event"), None);
}

#[test]
fn event_accessors_read_pane_payloads() {
    let event = Event {
        event: "pane_updated".to_owned(),
        data: json(
            r#"{"pane":{"pane_id":"w4:p1","workspace_id":"w4","tab_id":"w4:t1",
                "agent":"omp","agent_status":"working","revision":42}}"#,
        ),
    };
    assert_eq!(event.kind(), Some(EventKind::PaneUpdated));
    assert_eq!(
        event.pane_id().as_ref().map(|id| id.as_str()),
        Some("w4:p1")
    );
    assert_eq!(
        event.workspace_id().as_ref().map(|id| id.as_str()),
        Some("w4")
    );

    let closed = Event {
        event: "workspace_closed".to_owned(),
        data: json(r#"{"type":"workspace_closed","workspace":null,"workspace_id":"w9"}"#),
    };
    assert_eq!(closed.kind(), Some(EventKind::WorkspaceClosed));
    assert_eq!(
        closed.workspace_id().as_ref().map(|id| id.as_str()),
        Some("w9")
    );
}

#[test]
fn timeout_errors_report_is_timeout() {
    assert!(HerdrError::Timeout.is_timeout());
    assert!(HerdrError::Herdr {
        code: "timeout".into(),
        message: "still working".into(),
    }
    .is_timeout());
    assert!(!HerdrError::Herdr {
        code: "agent_not_found".into(),
        message: "no such agent".into(),
    }
    .is_timeout());
}

#[test]
fn maps_error_envelope_to_herdr_error() {
    let error = not_found().into_result().unwrap_err();
    match &error {
        HerdrError::Herdr { code, message } => {
            assert_eq!(code, "agent_not_found");
            assert!(message.contains("definitely-not-real"));
        }
        _ => panic!("expected a Herdr error, got {error:?}"),
    }
    assert!(!error.is_timeout());
    assert_eq!(
        error.message(),
        "herdr server error agent_not_found: agent definitely-not-real not found"
    );
}

#[test]
fn harness_labels_are_kebab_case() {
    assert_eq!(Harness::Omp.to_label(), "omp");
    assert_eq!(Harness::Codex.to_label(), "codex");
    assert_eq!(Harness::Opencode.to_label(), "opencode");
    let label = Harness::ClaudeCode.to_label();
    assert_eq!(label.len(), 11);
    assert!(label.ends_with("-code"));
    for harness in Harness::all() {
        assert_eq!(Harness::parse(&harness.to_label()), Some(harness));
        assert_eq!(de_harness(Some(&harness.to_label())), Some(harness));
    }
    assert_eq!(Harness::parse("bogus"), None);
    assert_eq!(de_harness(None), None);
}

#[test]
fn requests_are_written_as_lines() {
    let line = Herdr::create_tab(&WorkspaceId::new("w1".to_owned()), "tests", "/work").line();
    assert!(line.ends_with('\n'));
    let request = json(&line);
    assert_eq!(request["method"], "tab.create");
    assert_eq!(request["params"]["workspace_id"], "w1");
    assert_eq!(request["params"]["label"], "tests");
    assert_eq!(request["params"]["cwd"], "/work");
}

#[test]
fn a_prompt_carries_its_limit_in_milliseconds() {
    let limit = TimeSpan {
        secs: 2,
        nanos: 500_000_000,
    };
    assert_eq!(timeout_ms(limit), 2500);
    let request = json(&Herdr::prompt_agent(&PaneId::new("w1:p1".to_owned()), "go", limit).line());
    assert_eq!(request["params"]["target"], "w1:p1");
}

#[test]
fn a_subscription_without_its_pane_is_refused() {
    let unscoped = vec![Subscription::new(EventKind::PaneAgentStatusChanged)];
    assert!(Herdr::subscribe(&unscoped).is_err());
    let scoped = vec![
        Subscription::new(EventKind::PaneClosed),
        Subscription::for_pane(
            EventKind::PaneAgentStatusChanged,
            PaneId::new("w1:p1".to_owned()),
        ),
    ];
    let request = json(&Herdr::subscribe(&scoped).unwrap().line());
    assert_eq!(request["params"]["subscriptions"][0]["type"], "pane.closed");
    assert_eq!(request["params"]["subscriptions"][1]["pane_id"], "w1:p1");
}

#[test]
fn an_answer_is_its_result_or_its_error() {
    let answered = Envelope {
        result: Some(json(r#"{"type":"ok"}"#)),
        error: None,
    };
    let result = call(Some(Ok(answered))).unwrap();
    assert!(expect_ok(&result, "tab.close").is_ok());
    assert!(expect_ok(&json(r#"{"type":"other"}"#), "tab.close").is_err());
    assert!(matches!(
        call(Some(Ok(not_found()))),
        Err(HerdrError::Herdr { .. })
    ));
    assert!(matches!(call(None), Err(HerdrError::Timeout)));
    assert!(acknowledged(Some(not_found())).is_err());
}

fn agent(launch_pending: bool) -> Agent {
    Agent {
        harness: Some(Harness::Omp),
        agent_status: "idle".to_owned(),
        name: Some("agent".to_owned()),
        pane_id: PaneId::new("w1:p1".to_owned()),
        tab_id: TabId::new("w1:t1".to_owned()),
        workspace_id: WorkspaceId::new("w1".to_owned()),
        cwd: "/home/me".to_owned(),
        focused: false,
        launch_pending,
        terminal_title_stripped: None,
        agent_session: None,
    }
}

#[test]
fn a_pending_agent_is_awaited() {
    let limit = TimeSpan { secs: 10, nanos: 0 };
    let early = TimeSpan { secs: 1, nanos: 0 };
    let herdr = Herdr::new("/run/herdr.sock".to_owned(), limit, limit, early);
    assert!(matches!(
        herdr.await_agent("agent", &agent(true), Ok(agent(true)), early),
        StartStep::Poll
    ));
    assert!(matches!(
        herdr.await_agent("agent", &agent(true), Ok(agent(false)), early),
        StartStep::Started(_)
    ));
    let missing = not_found().into_result().unwrap_err();
    assert!(matches!(
        herdr.await_agent("agent", &agent(false), Err(missing), early),
        StartStep::StartedAsAnnounced
    ));
    let StartStep::Failed(error) = herdr.await_agent("agent", &agent(true), Ok(agent(true)), limit)
    else {
        panic!("the startup timeout is over");
    };
    assert!(error.message().contains("timed out waiting for agent `agent`"));
    assert!(matches!(
        herdr.await_agent("agent", &agent(true), Err(HerdrError::Timeout), early),
        StartStep::Failed(HerdrError::Timeout)
    ));
}

#[test]
fn every_request_names_its_method() {
    let pane = PaneId::new("w1:p1".to_owned());
    let space = WorkspaceId::new("w1".to_owned());
    let tab = TabId::new("w1:t1".to_owned());
    let requests = [
        (Herdr::list_workspaces(), "workspace.list", "{}"),
        (
            Herdr::create_workspace_with_pane("work", "/work"),
            "workspace.create",
            r#"{"label":"work","cwd":"/work","focus":false}"#,
        ),
        (
            Herdr::close_workspace(&space),
            "workspace.close",
            r#"{"workspace_id":"w1"}"#,
        ),
        (
            Herdr::close_tab(&tab),
            "tab.close",
            r#"{"tab_id":"w1:t1"}"#,
        ),
        (Herdr::list_agents(), "agent.list", "{}"),
        (
            Herdr::get_agent(&pane),
            "agent.get",
            r#"{"target":"w1:p1"}"#,
        ),
        (
            Herdr::start_agent("a1", Harness::Codex, &pane, &vec!["--flag".to_owned()]),
            "agent.start",
            r#"{"name":"a1","kind":"codex","pane_id":"w1:p1","args":["--flag"]}"#,
        ),
        (
            Herdr::send_prompt(&pane, "go"),
            "agent.prompt",
            r#"{"target":"w1:p1","text":"go"}"#,
        ),
        (
            Herdr::worktree_list(&space),
            "worktree.list",
            r#"{"workspace_id":"w1"}"#,
        ),
        (Herdr::session_snapshot(), "session.snapshot", "{}"),
    ];
    for (request, method, params) in requests {
        let line = json(&request.line());
        assert_eq!(line["id"], "herdcord");
        assert_eq!(line["method"], method);
        assert_eq!(line["params"], json(params));
    }
}

#[test]
fn created_places_keep_their_ids() {
    let space = created_workspace(WorkspaceCreated {
        workspace: Workspace {
            workspace_id: WorkspaceId::new("w1".to_owned()),
            label: "work".to_owned(),
            worktree: None,
        },
        root_pane: RootPane {
            pane_id: PaneId::new("w1:p1".to_owned()),
            cwd: None,
        },
    });
    assert_eq!(space.workspace.label, "work");
    assert_eq!(space.pane_id.as_str(), "w1:p1");
    let tab = created_tab(TabCreated {
        tab: TabRef {
            tab_id: TabId::new("w1:t1".to_owned()),
            label: Some("tests".to_owned()),
        },
        root_pane: RootPane {
            pane_id: PaneId::new("w1:p2".to_owned()),
            cwd: Some("/work".to_owned()),
        },
    });
    assert_eq!(tab.tab_id.as_str(), "w1:t1");
    assert_eq!(tab.label.as_deref(), Some("tests"));
    assert_eq!(tab.pane_id.as_str(), "w1:p2");
    assert_eq!(tab.cwd.as_deref(), Some("/work"));
}

#[test]
fn a_stalled_prompt_is_told_apart() {
    let stalled = |code: &str| HerdrError::herdr(code, "m".to_owned()).is_stalled();
    assert!(stalled("agent_prompt_stalled"));
    assert!(!stalled("agent_not_found"));
    assert!(!HerdrError::Timeout.is_stalled());
}
