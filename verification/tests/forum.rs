//! Herdr sessions and their forum posts.

use agentcord::db::model::{SessionRow, WorkspaceRow};
use agentcord::discord::forum::{ForumEmoji, ForumTag};
use agentcord::discord::webhook::{MirrorNext, Posted, Poster};
use agentcord::error::BotError;
use agentcord::forum::echo::{post_user_echo, typed_after, user_profile};
use agentcord::forum::events::{
    inactivate_post, live_panes, post_blocked_notice, prune_checked, subscriptions, sync_agent_typing,
    with_status, EventStep, PruneAction, PruneStep, TypingStep,
};
use agentcord::forum::lookup::{channel_exists, forum_for_post, forum_thread, Channel, Existence};
use agentcord::forum::mirror::{
    agent_intro, hosting_agents, mirror_harness, starter_message, sync_agent_post, sync_session_by_path, MirrorEvent, MirrorRun,
    MirrorTarget,
};
use agentcord::forum::poll::{
    adopt_transcript, check_rotation, rotated_session_file, transcript_directory, TranscriptFile,
};
use agentcord::forum::post::{
    bind_session, handle_thread_create, recreates_post, title_source, EnsureStep,
};
use agentcord::forum::resume::{resume_args, resume_post, resume_session, resumed_row};
use agentcord::forum::spawn::{
    agent_name_stamp, fresh_agent_name, launch_cwd, launch_cwd_in, unique_agent_name, Place,
    SpawnEvent, SpawnRun, SpawnStep,
};
use agentcord::forum::sync::{
    agent_message_posted, transcript_read, Reading, SyncEvent, SyncFailure, SyncLimits, SyncRun,
    SyncStep, ToolStep,
};
use agentcord::forum::tags::{
    applied_harness, dead_post_tags, managed_tags, replaces_tags, update_post_metadata,
    ThreadState,
};
use agentcord::forum::workspace::{
    ensure_workspace_forum, forum_workspace, has_own_forum, prune_stale_workspace,
    prunes_workspace, rekey_workspace, sync_workspace_forum, upsert_forum, worktree_branch,
    worktree_source, ForumStep, RekeyStep, WorkspacePrune,
};
use agentcord::forum::{from_i64, to_i64, Forum, Stamp};
use agentcord::config::TimeSpan;
use agentcord::herdr::event::{Event, EventKind};
use agentcord::herdr::model::{
    Agent, AgentSession, AgentStatus, PaneId, SessionPath, TabId, Workspace, WorkspaceId,
    WorktreeSpace,
};
use agentcord::herdr::wire::{WorktreeEntry, WorktreeList, WorktreeSource};
use agentcord::ids::{ChannelId, ForumTagId, MessageId, UserId};
use agentcord::session::{Harness, SessionMessage, SessionRole, ToolCall, ToolState};

fn row(path: &str) -> SessionRow {
    SessionRow {
        session_path: path.to_owned(),
        workspace_label: "w1".to_owned(),
        cwd: "/tmp".to_owned(),
        transcript_path: format!("/tmp/{path}.jsonl"),
        post_channel_id: Some(1),
        synced_messages: 0,
        last_discord_message_id: None,
        starter_message_id: None,
    }
}

fn agent(pane: &str, session: Option<&str>) -> Agent {
    Agent {
        harness: Some(Harness::Omp),
        agent_status: "idle".to_owned(),
        name: None,
        pane_id: PaneId::new(pane.to_owned()),
        tab_id: TabId::new("w1:t1".to_owned()),
        workspace_id: WorkspaceId::new("w1".to_owned()),
        cwd: "/home/me".to_owned(),
        focused: false,
        launch_pending: false,
        terminal_title_stripped: None,
        agent_session: session.map(|value| AgentSession {
            harness: None,
            kind: "jsonl".to_owned(),
            source: "file".to_owned(),
            value: SessionPath::new(value.to_owned()),
        }),
    }
}

fn workspace(id: &str, label: &str) -> Workspace {
    Workspace {
        workspace_id: WorkspaceId::new(id.to_owned()),
        label: label.to_owned(),
        worktree: None,
    }
}

fn message(role: SessionRole, text: &str) -> SessionMessage {
    SessionMessage {
        role,
        text: text.to_owned(),
        tool: None,
    }
}

#[test]
fn resume_args_resume_by_harness() {
    let session = SessionRow {
        session_path: "s1".to_owned(),
        workspace_label: "w1".to_owned(),
        cwd: "/tmp".to_owned(),
        transcript_path: "/tmp/s1.jsonl".to_owned(),
        post_channel_id: Some(1),
        synced_messages: 0,
        last_discord_message_id: None,
        starter_message_id: None,
    };
    assert_eq!(
        resume_args(Harness::Omp, &session),
        vec!["--resume=/tmp/s1.jsonl"]
    );
    assert_eq!(
        resume_args(Harness::ClaudeCode, &session),
        vec!["--resume", "s1"]
    );
    assert_eq!(resume_args(Harness::Codex, &session), vec!["resume", "s1"]);
    assert_eq!(resume_args(Harness::Pi, &session), vec!["--session", "s1"]);
    assert_eq!(
        resume_args(Harness::Opencode, &session),
        vec!["--session", "s1"]
    );
}

#[test]
fn agent_name_stamp_is_lowercase_numeric_and_dated() {
    let name = agent_name_stamp();
    assert_eq!(name.len(), "herdcord-".len() + 15);
    assert!(
        name.starts_with("herdcord-"),
        "name should start with the prefix: {name}"
    );
    let stamp = &name["herdcord-".len()..];
    assert!(
        stamp.chars().all(|ch| ch.is_ascii_digit() || ch == '-'),
        "stamp should be purely numeric: {stamp}"
    );
    // `herdcord-YYYYMMDD-HHMMSS` — two dash-separated numeric groups.
    let mut parts = stamp.split('-');
    assert_eq!(parts.next().map(str::len), Some(8));
    assert_eq!(parts.next().map(str::len), Some(6));
    assert_eq!(parts.next(), None);
}

#[test]
fn snowflakes_fit_the_database() {
    assert_eq!(to_i64(42).unwrap(), 42);
    assert_eq!(
        to_i64(u64::MAX).unwrap_err().message(),
        "snowflake overflows i64"
    );
    assert_eq!(from_i64(42).unwrap(), ChannelId(42));
    assert_eq!(
        from_i64(-7).unwrap_err().message(),
        "-7 is not a valid channel id"
    );
}

#[test]
fn a_transcript_is_mirrored_from_its_cursor() {
    let mut session = row("s1");
    session.synced_messages = 1;
    session.last_discord_message_id = Some(70);
    let messages = vec![
        message(SessionRole::User, "hi"),
        message(SessionRole::Agent, "hello"),
        message(SessionRole::User, "more"),
    ];
    let limits = SyncLimits { backlog: 10, keep: 5 };
    let (mut run, step) = SyncRun::sync_session::<String>(session, messages, limits);
    assert!(matches!(step, SyncStep::PostAgent(1)));
    assert_eq!(run.message(1).unwrap().text, "hello");
    let SyncStep::Store(stored) =
        run.advance::<String>(SyncEvent::Mirrored(Ok(Some(MessageId(71)))))
    else {
        panic!("the cursor commits after every post");
    };
    assert_eq!(stored.synced_messages, 2);
    assert_eq!(stored.last_discord_message_id, Some(71));
    assert!(matches!(
        run.advance::<String>(SyncEvent::Stored(Ok(()))),
        SyncStep::Echo(2, Some(71))
    ));
    assert!(matches!(
        run.advance::<String>(SyncEvent::Mirrored(Ok(None))),
        SyncStep::Complete
    ));
}

#[test]
fn a_long_backlog_is_cut_and_announced() {
    let messages: Vec<SessionMessage> = (0..8)
        .map(|_| message(SessionRole::Agent, "turn"))
        .collect();
    let limits = SyncLimits { backlog: 5, keep: 2 };
    let (mut run, step) = SyncRun::sync_session::<String>(row("s1"), messages, limits);
    let SyncStep::Announce(notice) = step else {
        panic!("omitted messages are announced");
    };
    assert_eq!(notice, "-# *6 older messages omitted during catch-up*");
    assert!(matches!(
        run.advance::<String>(SyncEvent::Announced),
        SyncStep::PostAgent(6)
    ));
    let failed = run.advance(SyncEvent::Mirrored(Err("rate limit".to_owned())));
    assert!(
        matches!(failed, SyncStep::Failed(SyncFailure::Operation(error)) if error == "rate limit")
    );
}

#[test]
fn a_truncated_transcript_has_nothing_new() {
    let mut session = row("s1");
    session.synced_messages = 9;
    let messages = vec![message(SessionRole::Agent, "only")];
    let limits = SyncLimits { backlog: 5, keep: 2 };
    let (_, step) = SyncRun::sync_session::<String>(session, messages, limits);
    assert!(matches!(step, SyncStep::Complete));
}

#[test]
fn an_oversized_snowflake_ends_the_sync() {
    let limits = SyncLimits { backlog: 5, keep: 2 };
    let messages = vec![message(SessionRole::Agent, "turn")];
    let (mut run, _) = SyncRun::sync_session::<String>(row("s1"), messages, limits);
    let step = run.advance::<String>(SyncEvent::Mirrored(Ok(Some(MessageId(u64::MAX)))));
    assert!(matches!(
        step,
        SyncStep::Failed(SyncFailure::Number(BotError::Other(_)))
    ));
}

#[test]
fn a_missing_transcript_is_retried_later() {
    assert!(transcript_read(Reading::Missing, "s1").unwrap().is_none());
    let failed = transcript_read(Reading::Failed("denied".to_owned()), "s1");
    assert_eq!(
        failed.unwrap_err().message(),
        "failed to read session `s1`: denied"
    );
}

#[test]
fn a_tool_call_is_posted_once_and_then_edited() {
    let mut forum = Forum::new();
    let mut call = message(SessionRole::Tool, "ls");
    call.tool = Some(ToolCall {
        call_id: "c1".to_owned(),
        state: ToolState::Running,
    });
    let step = forum.sync_tool_embed("s1", &call);
    assert!(matches!(step, ToolStep::Post));
    assert_eq!(
        forum.tool_embed_synced("s1", &call, &step, MessageId(5)),
        Some(MessageId(5))
    );
    assert!(matches!(forum.sync_tool_embed("s1", &call), ToolStep::Keep));
    assert!(matches!(forum.sync_tool_embed("s2", &call), ToolStep::Post));
    call.tool = Some(ToolCall {
        call_id: "c1".to_owned(),
        state: ToolState::Completed,
    });
    let step = forum.sync_tool_embed("s1", &call);
    assert!(matches!(step, ToolStep::Update(MessageId(5))));
    assert_eq!(forum.completions("s1", &vec![call.clone()]), vec![0]);
    assert_eq!(
        forum.tool_embed_synced("s1", &call, &step, MessageId(0)),
        None
    );
    assert!(matches!(forum.sync_tool_embed("s1", &call), ToolStep::Keep));
    forum.drop_session_bookkeeping("s1");
    assert!(matches!(forum.sync_tool_embed("s1", &call), ToolStep::Post));
}

#[test]
fn a_tool_message_without_a_call_is_a_code_block() {
    let forum = Forum::new();
    let step = forum.sync_tool_embed("s1", &message(SessionRole::Tool, "a```b"));
    assert!(
        matches!(step, ToolStep::Fallback(content) if content == "```\na`\u{200b}``b\n```")
    );
}

#[test]
fn an_agent_turn_is_its_last_message() {
    assert_eq!(
        agent_message_posted(&vec![MessageId(1), MessageId(2)]).unwrap(),
        MessageId(2)
    );
    assert_eq!(
        agent_message_posted(&vec![]).unwrap_err().message(),
        "empty agent message"
    );
}

#[test]
fn a_turn_typed_on_discord_is_not_echoed() {
    let typed = vec!["hi".to_owned()];
    assert!(post_user_echo("hi", vec!["hi".to_owned()], &typed, true).is_none());
    let mut run = post_user_echo("ho", vec!["h".to_owned(), "o".to_owned()], &typed, true).unwrap();
    assert_eq!(run.next(), Some((Poster::Webhook, "h")));
    assert_eq!(run.record(Posted::Sent), MirrorNext::Continue);
    run.record(Posted::Failed);
    assert_eq!(run.next(), Some((Poster::Bot, "o")));
    run.record(Posted::Sent);
    assert_eq!(run.next(), None);
    assert_eq!(
        typed_after(Some(-1)).unwrap_err().message(),
        "-1 is not a valid message id"
    );
    assert_eq!(user_profile(None, Some("Ann"), "ann"), "Ann (via herdr)");
}

#[test]
fn events_lead_to_their_steps() {
    let mut forum = Forum::new();
    let event = |name: &str, data: &str| Event {
        event: name.to_owned(),
        data: serde_json::from_str(data).unwrap(),
    };
    let changed = event(
        "pane_agent_status_changed",
        r#"{"pane_id":"w1:p1","agent_status":"blocked"}"#,
    );
    let EventStep::SyncAgent(pane, status) = forum.handle_event(&changed) else {
        panic!("a status change syncs the agent");
    };
    assert_eq!(pane.as_str(), "w1:p1");
    let blocked = with_status(agent("w1:p1", None), status);
    assert_eq!(blocked.status(), AgentStatus::Blocked);
    let detected = event("pane_agent_detected", r#"{"pane_id":"w1:p1"}"#);
    assert!(matches!(
        forum.handle_event(&detected),
        EventStep::Resubscribe
    ));
    forum.host("w1:p1", &SessionPath::new("s1".to_owned()));
    assert!(matches!(forum.handle_event(&detected), EventStep::Ignore));
    assert!(matches!(
        forum.handle_event(&event("pane_closed", r#"{"pane_id":"w1:p1"}"#)),
        EventStep::ClosePane(_)
    ));
    assert!(matches!(
        forum.handle_event(&event("workspace_closed", r#"{"workspace_id":"w1"}"#)),
        EventStep::CloseWorkspace(_)
    ));
    assert!(matches!(
        forum.handle_event(&event("workspace_renamed", r#"{"workspace_id":"w1"}"#)),
        EventStep::SyncWorkspace(_)
    ));
    assert!(matches!(
        forum.handle_event(&event("tab_created", r#"{"workspace_id":"w1"}"#)),
        EventStep::Ignore
    ));
}

#[test]
fn a_session_shared_by_two_panes_dies_with_the_last() {
    let mut forum = Forum::new();
    let path = SessionPath::new("s1".to_owned());
    forum.host("a", &path);
    forum.host("b", &path);
    assert!(forum.mark_pane_closed("a").is_none());
    assert_eq!(forum.mark_pane_closed("b").unwrap().as_str(), "s1");
    assert!(forum.mark_pane_closed("b").is_none());
}

#[test]
fn panes_that_are_gone_are_dropped() {
    let mut forum = Forum::new();
    forum.host("a", &SessionPath::new("s1".to_owned()));
    forum.host("b", &SessionPath::new("s2".to_owned()));
    forum.retain_panes(&vec!["b".to_owned(), "c".to_owned()]);
    assert_eq!(forum.panes(), vec!["b"]);
}

#[test]
fn every_agent_pane_is_subscribed() {
    let wanted = subscriptions(&vec![agent("w1:p1", None)]);
    assert_eq!(wanted.len(), 8);
    assert_eq!(wanted[7].kind, EventKind::PaneAgentStatusChanged);
    assert_eq!(wanted[7].pane_id.as_ref().unwrap().as_str(), "w1:p1");
}

#[test]
fn only_a_blocked_agent_is_reported() {
    let session = row("s1");
    assert_eq!(
        post_blocked_notice(AgentStatus::Blocked, Some(&session)).unwrap(),
        Some(ChannelId(1))
    );
    assert_eq!(
        post_blocked_notice(AgentStatus::Idle, Some(&session)).unwrap(),
        None
    );
    assert_eq!(post_blocked_notice(AgentStatus::Blocked, None).unwrap(), None);
}

#[test]
fn typing_follows_the_status() {
    let session = row("s1");
    assert_eq!(
        sync_agent_typing(Some(&session), AgentStatus::Working, false),
        TypingStep::Start(ChannelId(1))
    );
    assert_eq!(
        sync_agent_typing(Some(&session), AgentStatus::Working, true),
        TypingStep::Keep
    );
    assert_eq!(
        sync_agent_typing(Some(&session), AgentStatus::Done, true),
        TypingStep::Stop
    );
    assert_eq!(
        sync_agent_typing(None, AgentStatus::Working, false),
        TypingStep::Keep
    );
}

#[test]
fn a_dead_post_is_marked_inactive_once() {
    assert_eq!(
        inactivate_post(&row("s1"), false).unwrap(),
        "inactive · cwd `/tmp` · session `s1`"
    );
    assert!(inactivate_post(&row("s1"), true).is_none());
}

#[test]
fn stale_sessions_are_pruned() {
    let mut forum = Forum::new();
    let live = vec!["/tmp/s1.jsonl".to_owned()];
    assert_eq!(
        forum.prune_stale_session(&row("s1"), &live),
        PruneStep::Keep
    );
    assert_eq!(
        forum.prune_stale_session(&row("s2"), &live),
        PruneStep::Check(ChannelId(1))
    );
    let mut invalid = row("s2");
    invalid.post_channel_id = Some(-1);
    assert_eq!(
        forum.prune_stale_session(&invalid, &live),
        PruneStep::Forget
    );
    assert_eq!(prune_checked(Existence::Gone), PruneAction::Delete);
    assert_eq!(prune_checked(Existence::Exists), PruneAction::Inactivate);
    assert_eq!(prune_checked(Existence::Unknown), PruneAction::Leave);
}

#[test]
fn channels_are_looked_up() {
    assert_eq!(channel_exists(true, None), Existence::Exists);
    assert_eq!(channel_exists(false, Some(404)), Existence::Gone);
    assert_eq!(channel_exists(false, Some(500)), Existence::Unknown);
    let post = ChannelId(5);
    assert_eq!(
        forum_for_post(Channel::GuildThread(ChannelId(9)), post).unwrap(),
        ChannelId(9)
    );
    assert_eq!(
        forum_for_post(Channel::Guild(None), post)
            .unwrap_err()
            .message(),
        "post 5 is not in a forum"
    );
    assert_eq!(
        forum_for_post(Channel::Other, post).unwrap_err().message(),
        "post 5 is not a guild channel"
    );
    assert!(matches!(
        forum_thread(Channel::Other),
        Err(BotError::ForumChannelNotFound)
    ));
}

#[test]
fn a_session_is_hosted_by_its_key_or_transcript() {
    let agents = vec![
        agent("a", Some("other")),
        agent("b", Some("/tmp/s1.jsonl")),
        agent("c", Some("s1")),
        agent("d", None),
    ];
    let hosts = hosting_agents(&agents, &row("s1"));
    let panes: Vec<&str> = hosts.iter().map(|agent| agent.pane_id.as_str()).collect();
    assert_eq!(panes, vec!["b", "c"]);
    assert_eq!(mirror_harness(&agents, &row("s1")), Harness::Omp);
}

#[test]
fn mirroring_needs_a_valid_post() {
    let mut session = row("s1");
    assert_eq!(
        sync_session_by_path(Some(&session)),
        MirrorTarget::Post(ChannelId(1))
    );
    session.post_channel_id = Some(-1);
    assert_eq!(sync_session_by_path(Some(&session)), MirrorTarget::Invalid);
    session.post_channel_id = None;
    assert_eq!(sync_session_by_path(Some(&session)), MirrorTarget::Unbound);
    assert_eq!(sync_session_by_path(None), MirrorTarget::Unknown);
    session.starter_message_id = Some(-1);
    assert_eq!(
        starter_message(&session).unwrap_err().message(),
        "invalid starter message id"
    );
}

#[test]
fn a_deleted_post_is_recovered_once() {
    let session = row("s1");
    let agents = vec![agent("a", Some("s1"))];
    let run = MirrorRun::start().advance(MirrorEvent::Row(Some(&session)));
    assert_eq!(run, MirrorRun::Resolve(ChannelId(1)));
    assert_eq!(
        run.advance(MirrorEvent::Forum(Some(ChannelId(9)))),
        MirrorRun::Mirror(ChannelId(9))
    );
    let run = run.advance(MirrorEvent::Forum(None));
    assert_eq!(run, MirrorRun::recover_session());
    assert_eq!(
        run.advance(MirrorEvent::Agents(&Vec::new(), &session)),
        MirrorRun::Ended
    );
    let run = run.advance(MirrorEvent::Agents(&agents, &session));
    assert_eq!(run, MirrorRun::Sync);
    let run = run
        .advance(MirrorEvent::Made)
        .advance(MirrorEvent::Row(Some(&session)));
    assert_eq!(run, MirrorRun::Rebound(ChannelId(1)));
    assert_eq!(run.advance(MirrorEvent::Forum(None)), MirrorRun::Ended);
    let run = run.advance(MirrorEvent::Forum(Some(ChannelId(9))));
    assert_eq!(run, MirrorRun::Mirror(ChannelId(9)));
    assert_eq!(run.advance(MirrorEvent::Made), MirrorRun::Ended);
}

#[test]
fn an_agent_post_shows_its_state() {
    let shown = sync_agent_post(&agent("a", Some("s1")), &row("s1"), Some("work"))
        .unwrap()
        .unwrap();
    assert_eq!(shown.post, ChannelId(1));
    assert_eq!(shown.harness, Harness::Omp);
    assert_eq!(shown.status, AgentStatus::Idle);
    assert_eq!(shown.title, "work");
}

#[test]
fn an_unchanged_transcript_is_not_mirrored_again() {
    let mut forum = Forum::new();
    let stamp = Stamp {
        seconds: 5,
        nanos: 0,
        size: 10,
    };
    assert!(forum.poll_once("s1", Some(stamp)));
    assert!(!forum.poll_once("s1", Some(stamp)));
    assert!(forum.poll_once("s1", None));
    assert!(forum.poll_once("s1", Some(Stamp { size: 11, ..stamp })));
}

#[test]
fn a_stale_session_adopts_the_newest_unclaimed_file() {
    assert!(check_rotation(Some(TimeSpan {
        secs: 300,
        nanos: 1
    })));
    assert!(!check_rotation(Some(TimeSpan {
        secs: 300,
        nanos: 0
    })));
    assert!(!check_rotation(None));
    let file = |path: &str, seconds: i64| TranscriptFile {
        path: path.to_owned(),
        stamp: Stamp {
            seconds,
            nanos: 0,
            size: 1,
        },
    };
    let files = vec![file("/tmp/s1.jsonl", 1), file("/tmp/new.jsonl", 9)];
    let session = row("s1");
    let bound = files[0].stamp;
    assert_eq!(transcript_directory(&session).as_deref(), Some("/tmp"));
    assert_eq!(
        rotated_session_file(&session, bound, &files, &vec![], &vec![row("s1")]).as_deref(),
        Some("/tmp/new.jsonl")
    );
    let reporting = vec![agent("a", Some("/tmp/new.jsonl"))];
    assert!(rotated_session_file(&session, bound, &files, &reporting, &vec![]).is_none());
    let reading = vec![row("new")];
    assert!(rotated_session_file(&session, bound, &files, &vec![], &reading).is_none());
    let same = vec![file("/tmp//s1.jsonl", 9)];
    assert!(rotated_session_file(&session, bound, &same, &vec![], &vec![]).is_none());
    let tied = vec![file("/tmp/sibling.jsonl", 1), file("/tmp/s1.jsonl", 1)];
    assert!(rotated_session_file(&session, bound, &tied, &vec![], &vec![]).is_none());
    let adopted = adopt_transcript(&session, "/tmp/new.jsonl");
    assert!(adopted.hosts("s1") && adopted.hosts("/tmp/new.jsonl"));
    assert_eq!(adopted.synced_messages, 0);
}

#[test]
fn a_live_agent_gets_its_post() {
    let mut forum = Forum::new();
    assert!(forum.ensure_session_post(&agent("a", None)).is_none());
    let live = agent("a", Some("s1"));
    let (path, harness) = forum.ensure_session_post(&live).unwrap();
    assert_eq!((path.as_str(), harness), ("s1", Harness::Omp));
    assert!(matches!(
        forum.ensure_found(&live, &path, None, None),
        EnsureStep::Create(key) if key.as_str() == "s1"
    ));
    let found = row("s1");
    assert!(matches!(
        forum.ensure_found(&live, &path, Some(&found), None),
        EnsureStep::Check(ChannelId(1), _)
    ));
    let adopted = row("old");
    assert!(matches!(
        forum.ensure_found(&live, &path, None, Some(&adopted)),
        EnsureStep::Check(ChannelId(1), key) if key.as_str() == "old"
    ));
    assert_eq!(forum.hosted("a").unwrap().as_str(), "old");
}

#[test]
fn a_fresh_post_restarts_the_cursor() {
    let path = SessionPath::new("s1".to_owned());
    let mut existing = row("s1");
    existing.synced_messages = 7;
    let bound = bind_session(
        Some(existing),
        "other",
        &path,
        "/x",
        ChannelId(9),
        Some(MessageId(10)),
    )
    .unwrap();
    assert_eq!(bound.synced_messages, 0);
    assert_eq!(bound.post_channel_id, Some(9));
    assert_eq!(bound.starter_message_id, Some(10));
    assert_eq!(bound.workspace_label, "w1");
    let new = bind_session(None, "label", &path, "/x", ChannelId(9), None).unwrap();
    assert_eq!(new.transcript_path, "s1");
    assert_eq!(new.workspace_label, "label");
    assert!(bind_session(None, "label", &path, "/x", ChannelId(u64::MAX), None).is_err());
}

#[test]
fn manual_posts_are_deleted() {
    let bot = UserId(1);
    assert!(handle_thread_create(true, Some(UserId(2)), bot));
    assert!(!handle_thread_create(true, Some(bot), bot));
    assert!(!handle_thread_create(false, Some(UserId(2)), bot));
    assert!(!handle_thread_create(true, None, bot));
}

#[test]
fn a_session_is_resumed_once_at_a_time() {
    let mut forum = Forum::new();
    assert!(forum.begin_resume("s1"));
    assert!(!forum.begin_resume("s1"));
    forum.end_resume("s1");
    assert!(forum.begin_resume("s1"));
}

#[test]
fn a_session_is_resumed_in_its_workspace() {
    let session = row("s1");
    assert_eq!(resume_post(&session).unwrap(), ChannelId(1));
    let open = workspace("w7", "w1");
    let plan = resume_session(&session, Some(Harness::Codex), Some(&open), "name");
    assert_eq!(plan.args, vec!["resume", "s1"]);
    assert_eq!(plan.label, "w1");
    assert_eq!(plan.workspace.unwrap().as_str(), "w7");
    let plan = resume_session(&session, None, None, "name");
    assert_eq!(plan.harness, Harness::Omp);
    assert_eq!(plan.label, "name");
    assert!(plan.workspace.is_none());
    let resumed = resumed_row(&session, "name", "/new");
    assert_eq!(resumed.cwd, "/new");
    assert_eq!(resumed.transcript_path, session.transcript_path);
    let mut unbound = row("s1");
    unbound.post_channel_id = None;
    assert_eq!(
        resume_post(&unbound).unwrap_err().message(),
        "session `s1` has no forum post"
    );
}

#[test]
fn taken_names_get_a_suffix() {
    let taken = vec!["n".to_owned(), "n-2".to_owned()];
    assert_eq!(unique_agent_name("n", &taken), "n-3");
    assert_eq!(unique_agent_name("m", &taken), "m");
    assert!(fresh_agent_name(&vec![agent("a", None)]).starts_with("herdcord-"));
}

#[test]
fn a_launch_follows_the_live_agent() {
    let agents = vec![agent("a", None)];
    let workspaces = vec![workspace("w1", "label")];
    let sessions = vec![row("s1")];
    let home = Some("/home/ann".to_owned());
    assert_eq!(
        launch_cwd_in("label", &agents, &workspaces, &sessions, &home),
        "/home/me"
    );
    assert_eq!(
        launch_cwd("label", &agents, &workspaces, &sessions),
        "/home/me"
    );
    assert_eq!(
        launch_cwd_in("other", &agents, &workspaces, &sessions, &home),
        "/tmp"
    );
    assert_eq!(
        launch_cwd_in("other", &agents, &workspaces, &vec![], &home),
        "/home/ann"
    );
}

#[test]
fn a_failed_start_closes_its_tab() {
    let mut run: SpawnRun<String> = SpawnRun::start();
    let place = Place::Tab(TabId::new("t1".to_owned()));
    let pane = PaneId::new("p1".to_owned());
    assert!(matches!(
        run.advance(SpawnEvent::Created(Ok((place, pane)))),
        SpawnStep::Start(_)
    ));
    assert!(matches!(
        run.advance(SpawnEvent::Started(Err("late".to_owned()))),
        SpawnStep::Close(Place::Tab(_))
    ));
    assert!(matches!(
        run.advance(SpawnEvent::Closed),
        SpawnStep::Failed(error) if error == "late"
    ));
}

fn forum_tags() -> Vec<ForumTag> {
    managed_tags()
        .into_iter()
        .enumerate()
        .map(|(index, tag)| ForumTag {
            id: ForumTagId(index as u64 + 1),
            name: tag.name,
            moderated: false,
            emoji: Some(ForumEmoji::Name(tag.emoji.to_owned())),
        })
        .collect()
}

#[test]
fn forum_tags_are_exactly_the_managed_ones() {
    let mut tags = forum_tags();
    assert_eq!(tags.len(), 10);
    assert_eq!(tags[1].name, "working");
    assert!(!replaces_tags(&tags));
    tags.reverse();
    assert!(!replaces_tags(&tags));
    tags[0].emoji = None;
    assert!(replaces_tags(&tags));
    assert!(replaces_tags(&vec![]));
}

#[test]
fn a_live_post_is_tagged_and_reopened() {
    let tags = forum_tags();
    let thread = Some(ThreadState {
        archived: true,
        name: "old".to_owned(),
    });
    let edit = update_post_metadata(
        &tags,
        Some(Harness::Omp),
        AgentStatus::Working,
        Some("new"),
        &thread,
    );
    assert_eq!(edit.applied, vec![ForumTagId(6), ForumTagId(2)]);
    assert!(edit.unarchive);
    assert_eq!(edit.name.as_deref(), Some("new"));
    let same = update_post_metadata(&tags, None, AgentStatus::Idle, Some("old"), &thread);
    assert!(same.name.is_none());
    assert_eq!(
        applied_harness(&edit.applied, &tags),
        Some(Harness::Omp)
    );
    assert_eq!(
        dead_post_tags(&tags, Some(Harness::Omp)),
        vec![ForumTagId(6)]
    );
    assert_eq!(applied_harness(&vec![ForumTagId(2)], &tags), None);
}

#[test]
fn a_worktree_mirrors_its_main_workspace() {
    let mut tree = workspace("w2", "tree");
    tree.worktree = Some(WorktreeSpace {
        repo_key: "/r/.git".to_owned(),
        repo_name: "r".to_owned(),
        repo_root: "/r".to_owned(),
        checkout_path: "/t".to_owned(),
        is_linked_worktree: true,
    });
    let workspaces = vec![workspace("w1", "main")];
    assert_eq!(
        forum_workspace(&tree, Some("w1"), &workspaces).label,
        "main"
    );
    assert_eq!(
        forum_workspace(&tree, Some("w9"), &workspaces).label,
        "tree"
    );
    let list = WorktreeList {
        source: None,
        worktrees: vec![WorktreeEntry {
            open_workspace_id: Some("w2".to_owned()),
            branch: Some("feature".to_owned()),
        }],
    };
    assert_eq!(worktree_branch(&tree, &list).as_deref(), Some("feature"));
    assert!(worktree_branch(&workspaces[0], &list).is_none());
}

#[test]
fn a_workspace_keeps_its_forum() {
    let open = workspace("w1", "label");
    assert_eq!(ensure_workspace_forum(None).unwrap(), ForumStep::Create);
    let bound = upsert_forum(None, &open, ChannelId(3)).unwrap();
    assert_eq!(
        ensure_workspace_forum(Some(&bound)).unwrap(),
        ForumStep::Check(ChannelId(3))
    );
    assert!(sync_workspace_forum(&open, "label").is_none());
    assert_eq!(
        sync_workspace_forum(&open, "old").as_deref(),
        Some("label")
    );
    assert!(matches!(
        rekey_workspace(&open, Some(&bound), None, None),
        RekeyStep::Keep
    ));
    let stale = WorkspaceRow {
        label: "before".to_owned(),
        workspace_id: "w1".to_owned(),
        forum_channel_id: Some(3),
    };
    let RekeyStep::Move(delete, row) = rekey_workspace(&open, None, Some(&stale), None) else {
        panic!("a renamed workspace moves its row");
    };
    assert_eq!(delete, "before");
    assert_eq!(row.label, "label");
    assert_eq!(row.forum_channel_id, Some(3));
    assert_eq!(
        prune_stale_workspace(&stale, &vec![open]),
        WorkspacePrune::Check(ChannelId(3))
    );
}

#[test]
fn a_deleted_post_is_created_again() {
    assert!(recreates_post(Existence::Gone));
    assert!(!recreates_post(Existence::Exists));
    assert!(!recreates_post(Existence::Unknown));
    assert!(prunes_workspace(Existence::Gone));
    assert!(!prunes_workspace(Existence::Exists));
    assert!(!prunes_workspace(Existence::Unknown));
}

#[test]
fn a_title_is_read_from_the_synced_transcript() {
    let path = SessionPath::new("s1".to_owned());
    assert_eq!(title_source(None, &path), "s1");
    assert_eq!(title_source(Some(&row("s1")), &path), "/tmp/s1.jsonl");
}

#[test]
fn a_live_agent_is_introduced() {
    let mut live = agent("w1:p1", Some("s1"));
    live.cwd = "/work".to_owned();
    let intro = agent_intro(&live, Some("feature"));
    assert!(intro.contains("w1:p1"));
    assert!(intro.contains("feature"));
    assert!(intro.contains("/work"));
    assert!(intro.contains("s1"));
}

#[test]
fn a_worktree_has_no_forum_of_its_own() {
    let main = workspace("w1", "main");
    let tree = workspace("w2", "tree");
    assert!(has_own_forum(&main, &main));
    assert!(!has_own_forum(&tree, &main));
    let list = WorktreeList {
        source: Some(WorktreeSource {
            source_workspace_id: Some("w1".to_owned()),
        }),
        worktrees: vec![],
    };
    assert_eq!(worktree_source(&list), Some("w1"));
    assert_eq!(
        live_panes(&vec![agent("w1:p1", None), agent("w1:p2", None)]),
        vec!["w1:p1".to_owned(), "w1:p2".to_owned()]
    );
}
