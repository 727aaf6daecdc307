//! Session updates as Discord messages.

use agentcord::db::RenderProjection;
use agentcord::discord::present::{render_projection, render_text, render_tool_text};
use agentcord::discord::render::{
    batch_entry, collect_projection, reduce, BatchEntry, ContentBlock, ContentChunk,
    ProjectionEvent, ProjectionOutcome, SessionUpdate,
};
use agentcord::discord::split::split_message;
use agentcord::discord::sync::{plan_messages, SyncAction, SyncRun};
use agentcord::ids::{GenericChannelId, MessageId};
use serde_json::Value;

/// Wraps an update in a synthetic live projection event.
fn event(update: SessionUpdate) -> ProjectionEvent {
    ProjectionEvent {
        thread_id: GenericChannelId(1),
        turn_id: "2".into(),
        replay: false,
        update,
    }
}

fn chunk(text: &str, message_id: Option<&str>) -> ContentChunk {
    ContentChunk {
        content: ContentBlock::Text(text.to_owned()),
        message_id: message_id.map(str::to_owned),
    }
}

fn agent(text: &str, message_id: Option<&str>) -> ProjectionEvent {
    event(SessionUpdate::AgentMessageChunk(chunk(text, message_id)))
}

fn json(source: &str) -> Value {
    serde_json::from_str(source).expect("valid JSON")
}

fn updated(previous: Option<RenderProjection>, event: &ProjectionEvent) -> RenderProjection {
    match reduce(previous, event).unwrap() {
        ProjectionOutcome::Updated(projection) => projection,
        ProjectionOutcome::Ignored => panic!("the update should change the projection"),
    }
}

/// Verifies chunks for one ACP message append in order.
#[test]
fn text_chunks_accumulate_by_protocol_message_id() {
    let state = updated(None, &agent("hello ", Some("m1")));
    let state = updated(Some(state), &agent("world", Some("m1")));
    assert_eq!(state.source_kind, "agent_message");
    assert_eq!(state.source_id, "m1");
    assert_eq!(state.state_json, r#"{"text":"hello world"}"#);
}

/// Verifies replayed ACP user messages become normal user projections.
#[test]
fn replayed_user_chunks_render_as_user_messages() {
    let mut replay = event(SessionUpdate::UserMessageChunk(chunk(
        "hello from history",
        Some("user-1"),
    )));
    replay.replay = true;
    let state = updated(None, &replay);
    assert_eq!(state.source_kind, "user_message");
    assert_eq!(state.source_id, "user-1");
    assert_eq!(
        render_projection(&state).unwrap(),
        vec!["hello from history"]
    );
}

/// Verifies live user echoes remain invisible because the gateway message is
/// already present in Discord.
#[test]
fn live_user_chunks_are_ignored() {
    let live = event(SessionUpdate::UserMessageChunk(chunk(
        "already visible",
        Some("user-1"),
    )));
    assert_eq!(reduce(None, &live).unwrap(), ProjectionOutcome::Ignored);
}

/// Verifies replay ignores unkeyed history while live output uses its turn.
#[test]
fn unkeyed_replay_is_ignored_but_live_text_uses_the_turn() {
    let mut replay = agent("history", None);
    replay.replay = true;
    assert_eq!(reduce(None, &replay).unwrap(), ProjectionOutcome::Ignored);

    let state = updated(None, &agent("live", None));
    assert_eq!(state.source_id, "turn:2");
}

/// Verifies a new ACP message ID starts a separate projection source.
#[test]
fn a_new_protocol_message_id_starts_a_new_source() {
    let first = updated(None, &agent("first", Some("m1")));
    let second = updated(Some(first), &agent("second", Some("m2")));
    assert_eq!(second.source_id, "m2");
    assert_eq!(second.state_json, r#"{"text":"second"}"#);
}

/// Verifies an identical replay chunk is idempotently ignored.
#[test]
fn an_already_rendered_replay_chunk_is_ignored() {
    let live = agent("answer", Some("m1"));
    let state = updated(None, &live);
    let mut replay = live;
    replay.replay = true;
    assert_eq!(
        reduce(Some(state), &replay).unwrap(),
        ProjectionOutcome::Ignored
    );
}

/// Verifies replay deduplication works across multiple chunks.
#[test]
fn already_rendered_multi_chunk_replay_is_ignored() {
    let first = agent("hello ", Some("m1"));
    let second = agent("world", Some("m1"));
    let state = updated(None, &first);
    let state = updated(Some(state), &second);

    let mut replay_first = first;
    replay_first.replay = true;
    let mut replay_second = second;
    replay_second.replay = true;
    assert_eq!(
        reduce(Some(state.clone()), &replay_first).unwrap(),
        ProjectionOutcome::Ignored
    );
    assert_eq!(
        reduce(Some(state), &replay_second).unwrap(),
        ProjectionOutcome::Ignored
    );
}

/// Verifies streamed internal thoughts use their own stable projection.
#[test]
fn thought_chunks_render_as_italic_text() {
    let first = event(SessionUpdate::AgentThoughtChunk(chunk(
        "checking ",
        Some("thought-1"),
    )));
    let second = event(SessionUpdate::AgentThoughtChunk(chunk(
        "the plan",
        Some("thought-1"),
    )));
    let state = updated(None, &first);
    let state = updated(Some(state), &second);
    assert_eq!(state.source_kind, "agent_thought");
    assert_eq!(
        render_projection(&state).unwrap(),
        vec!["*checking the plan*"]
    );
}

/// Renders read tool updates as a path-only call without returning content.
#[test]
fn read_tool_calls_render_as_path_only() {
    let call = event(SessionUpdate::ToolCall {
        tool_call_id: "tool-1".to_owned(),
        fields: json(
            r#"{"toolCallId":"tool-1","title":"src/main.rs","kind":"read","status":"in_progress"}"#,
        ),
    });
    let state = updated(None, &call);
    let update = event(SessionUpdate::ToolCallUpdate {
        tool_call_id: "tool-1".to_owned(),
        fields: json(
            r#"{"toolCallId":"tool-1","status":"completed","content":[{"type":"content","content":{"type":"text","text":"source text"}}]}"#,
        ),
    });
    let state = updated(Some(state), &update);
    let rendered = render_projection(&state).unwrap().concat();
    assert_eq!(rendered, "📖 **read** `src/main.rs`");
}

/// Keeps the tool name while omitting a title that only repeats it.
#[test]
fn redundant_tool_titles_are_omitted() {
    let state = json(
        r#"{"toolCallId":"tool-1","title":"Switch_Mode","kind":"switch_mode","status":"pending"}"#,
    );
    assert_eq!(render_tool_text(&state), "🔁 **switch mode** · *pending*");
}

/// Omits an execute title when it repeats the command in the shell block.
#[test]
fn execute_titles_matching_commands_are_omitted() {
    let state = json(
        r#"{"toolCallId":"tool-1","title":"cargo test","kind":"execute","status":"completed",
            "rawInput":{"command":"cargo test"},
            "rawOutput":{"stdout":"test output","stderr":"terminal output"}}"#,
    );
    assert_eq!(
        render_tool_text(&state),
        "⚙️ **execute**\n```sh\ncargo test\n```"
    );
}

/// Omits an execute title when it repeats the command with a shell prompt.
#[test]
fn execute_titles_with_shell_prompt_are_omitted() {
    let state = json(
        r#"{"toolCallId":"tool-1","title":"$ cargo test","kind":"execute","status":"completed",
            "rawInput":{"command":"cargo test"},"rawOutput":{"stdout":"test output"}}"#,
    );
    assert_eq!(
        render_tool_text(&state),
        "⚙️ **execute**\n```sh\ncargo test\n```"
    );
}

/// Retains an execute title when it describes a different command.
#[test]
fn execute_titles_different_from_commands_are_shown() {
    let state = json(
        r#"{"toolCallId":"tool-1","title":"run tests","kind":"execute","status":"completed",
            "rawInput":{"command":"cargo test"}}"#,
    );
    assert_eq!(
        render_tool_text(&state),
        "⚙️ **execute** `run tests`\n```sh\ncargo test\n```"
    );
}

/// Omits search results while retaining the query in the tool header.
#[test]
fn search_tool_calls_render_without_results() {
    let state = json(
        r#"{"toolCallId":"tool-1","title":"src/**/*.rs","kind":"search","status":"completed",
            "content":[{"type":"text","text":"search results"}],
            "rawOutput":{"matches":["src/main.rs"]}}"#,
    );
    assert_eq!(render_tool_text(&state), "🔍 **search** `src/**/*.rs`");
}

/// Verifies plans replace their checklist state in one stable projection.
#[test]
fn plans_render_as_checklists() {
    let update = event(SessionUpdate::Plan(json(
        r#"{"entries":[
            {"content":"inspect the repository","priority":"high","status":"completed"},
            {"content":"implement the change","priority":"medium","status":"in_progress"}]}"#,
    )));
    let state = updated(None, &update);
    assert_eq!(state.source_kind, "plan");
    let rendered = render_projection(&state).unwrap().concat();
    assert!(rendered.contains("📝 **plan**"));
    assert!(rendered.contains("[x] inspect the repository"));
    assert!(rendered.contains("[~] implement the change"));
}

/// Verifies message splitting respects Unicode boundaries and limits.
#[test]
fn message_chunks_are_unicode_safe_and_bounded() {
    let chunks = split_message(&"🙂".repeat(20), 7);
    assert!(chunks.iter().all(|chunk| chunk.chars().count() <= 7));
    assert_eq!(chunks.concat(), "🙂".repeat(20));
}

/// Keeps an edit header with its diff and repeats fences when splitting.
#[test]
fn fenced_code_chunks_keep_their_language_and_delimiters() {
    let fence = char::from(96).to_string().repeat(3);
    let value = format!("edit blah\n{fence}diff\n+ one\n- two\n+ three\n{fence}");
    assert_eq!(
        split_message(&value, value.chars().count()),
        vec![value.clone()]
    );
    assert_eq!(
        split_message(&value, 30),
        vec![
            format!("edit blah\n{fence}diff\n+ one\n{fence}"),
            format!("{fence}diff\n- two\n+ three\n{fence}")
        ]
    );
}

/// Keeps split thought code blocks inside the existing italic wrapper.
#[test]
fn thought_code_chunks_keep_italic_wrappers() {
    let fence = char::from(96).to_string().repeat(3);
    let body = "line\n".repeat(500);
    let value = format!("{fence}rust\n{body}{fence}");
    let mut object = serde_json::Map::new();
    object.insert("text".to_owned(), Value::String(value));
    let chunks = render_text(&Value::Object(object), true);
    assert!(chunks.len() > 1);
    assert!(chunks.iter().all(|chunk| {
        chunk.starts_with('*') && chunk.ends_with('*') && chunk.matches(&fence).count() == 2
    }));
}

/// Verifies planning edits, appends, and suffix deletions preserves order.
#[test]
fn message_plan_preserves_order_when_appending_and_deleting() {
    let previous = vec![MessageId(1), MessageId(2), MessageId(3)];
    let target = vec!["first".into(), "second".into()];
    let plan = plan_messages(&previous, &target);
    assert_eq!(
        plan.edits,
        vec![
            (MessageId(1), "first".into()),
            (MessageId(2), "second".into())
        ]
    );
    assert_eq!(plan.sends, Vec::<String>::new());
    assert_eq!(plan.deletes, vec![MessageId(3)]);

    let target = vec![
        "first".into(),
        "second".into(),
        "third".into(),
        "fourth".into(),
    ];
    let plan = plan_messages(&previous, &target);
    assert_eq!(plan.sends, vec!["fourth"]);
    assert_eq!(plan.deletes, Vec::<MessageId>::new());
}

#[test]
fn a_synchronized_projection_holds_the_target_messages() {
    let target = vec!["one".to_owned(), "two".to_owned()];
    let mut run = SyncRun::new(vec![MessageId(5)], &target);
    assert!(matches!(
        run.next_action(),
        SyncAction::Edit { id: MessageId(5), .. }
    ));
    run.succeeded(MessageId(5));
    assert!(matches!(run.next_action(), SyncAction::Send { .. }));
    run.succeeded(MessageId(9));
    assert!(matches!(run.next_action(), SyncAction::Done));
    assert_eq!(run.message_ids(), vec![MessageId(5), MessageId(9)]);
}

#[test]
fn updates_of_one_batch_share_their_projection() {
    let first = agent("a", Some("m1"));
    let mut projections: Vec<RenderProjection> = Vec::new();
    let entry = batch_entry(&projections, &first);
    assert!(matches!(&entry, BatchEntry::Stored { kind: "agent_message", .. }));
    collect_projection(&mut projections, &first, None).unwrap();
    let second = agent("b", Some("m1"));
    let entry = batch_entry(&projections, &second);
    assert!(matches!(entry, BatchEntry::InBatch(0)));
    collect_projection(&mut projections, &second, None).unwrap();
    assert_eq!(projections.len(), 1);
    assert_eq!(projections[0].state_json, r#"{"text":"ab"}"#);
    let other = event(SessionUpdate::Other);
    assert!(matches!(batch_entry(&projections, &other), BatchEntry::NoSource));
}
