//! What the library promises of all inputs, on chosen values.

use agentcord::acp::model::ModelSpec;
use agentcord::acp::options::{
    category_current_value, AcpError, SessionConfigKind, SessionConfigOption,
    SessionConfigOptionCategory, SessionConfigSelect, SessionConfigSelectOption,
    SessionConfigSelectOptions,
};
use agentcord::acp::protocol::{new_session, run_new, NewSession};
use agentcord::commands::choices::{
    category_choices, model_choices, named_choices, offer, offer_toggle, Candidate, CHOICE_LIMIT,
};
use agentcord::acp::registry::{stopped, StopWait};
use agentcord::commands::harness::{
    herdr_unreachable, launchable, preselected_forum, thread_link,
};
use agentcord::commands::herdr::control_env;
use agentcord::commands::session::{
    failure_reply, model_reply, queued_reply, starter_reply, thread_reply,
};
use agentcord::commands::workspace::{
    creation_failed, expand_home, free_label, home_unresolved, pair_parts, path_query, PathQuery,
};
use agentcord::config::{expand_string, find_problem, AgentConfig, TagEmoji};
use agentcord::control::truncate_reply;
use agentcord::db::RenderProjection;
use agentcord::discord::forum::escape_inline;
use agentcord::discord::permission::unauthorized_notice;
use agentcord::discord::present::{break_fences, fence, render_projections};
use agentcord::discord::render::{extend_text, parse_object_state, parse_state};
use agentcord::discord::split::{message_parts, split_message, MessagePart};
use agentcord::discord::sync::{plan_messages, SyncAction, SyncRun};
use agentcord::elicitation::make_id;
use agentcord::error::BotError;
use agentcord::forum::lookup::Channel;
use agentcord::herdr::error::HerdrError;
use agentcord::herdr::event::EventKind;
use agentcord::herdr::model::{Workspace, WorkspaceId};
use agentcord::ids::{ChannelId, GenericChannelId, GuildId, MessageId};
use agentcord::maps::TextMap;
use agentcord::numbers::{format_i64, format_u64, parse_i64, read_u64, ParseIntError};
use agentcord::paths::{expand_home_in, label_below, shorten_home_in};
use agentcord::session::Harness;
use agentcord::text::{cap, sort_texts, split_whitespace, trim, truncate_end};

fn texts(values: &[&str]) -> Vec<String> {
    values.iter().map(|value| (*value).to_owned()).collect()
}

fn select(id: &str, current: &str, values: &[&str], category: SessionConfigOptionCategory) -> SessionConfigOption {
    SessionConfigOption {
        id: id.to_owned(),
        name: id.to_owned(),
        category: Some(category),
        kind: SessionConfigKind::Select(SessionConfigSelect {
            current_value: current.to_owned(),
            options: SessionConfigSelectOptions::Ungrouped(
                values
                    .iter()
                    .map(|value| SessionConfigSelectOption {
                        value: (*value).to_owned(),
                        name: value.to_uppercase(),
                    })
                    .collect(),
            ),
        }),
    }
}

#[test]
fn a_written_number_is_read_back() {
    for n in [0u64, 7, 10, 4096, u64::MAX] {
        assert_eq!(read_u64(&format_u64(n)), Ok(n));
    }
    for n in [i64::MIN, -1, 0, 42, i64::MAX] {
        assert_eq!(parse_i64(&format_i64(n)), Some(n));
    }
    assert_eq!(read_u64("+5"), Ok(5));
    assert_eq!(read_u64(""), Err(ParseIntError::Empty));
    assert_eq!(read_u64("-5"), Err(ParseIntError::InvalidDigit));
    assert_eq!(
        read_u64("18446744073709551616"),
        Err(ParseIntError::TooLarge)
    );
}

#[test]
fn a_canonical_selector_is_read_back() {
    for input in ["openai/gpt-5:high", "openai/gpt-5", "gpt-5:low"] {
        let spec = ModelSpec::parse(input).unwrap();
        assert_eq!(ModelSpec::parse(&spec.canonical()).unwrap(), spec);
    }
}

#[test]
fn an_expanded_home_is_shortened_again() {
    let home = Some("/home/me".to_owned());
    for path in ["~", "~/work/project"] {
        let expanded = expand_home_in(path, &home).unwrap();
        assert_eq!(shorten_home_in(&expanded, &home), path);
    }
    assert_eq!(expand_home_in("~", &None), None);
    assert_eq!(shorten_home_in("/home/meadow", &home), "/home/meadow");
}

#[test]
fn a_text_without_references_stays_as_it_is() {
    let lookup = |_: &str| Some("value".to_owned());
    assert_eq!(expand_string("no reference", &lookup), "no reference");
    assert_eq!(expand_string("a ${NAME} b", &lookup), "a value b");
}

#[test]
fn an_unusable_agent_has_a_problem() {
    let agent = AgentConfig {
        display_name: "Example".to_owned(),
        command: "example".to_owned(),
        args: vec![],
        env: vec![],
        emoji: TagEmoji::Unicode("🤖".to_owned()),
    };
    assert_eq!(find_problem("example", &agent), None);
    assert!(find_problem(" ", &agent).is_some());
    let silent = AgentConfig {
        command: String::new(),
        ..agent
    };
    assert!(find_problem("example", &silent).is_some());
}

#[test]
fn parts_make_up_their_text() {
    let source = "before\n```rust\nfn main() {}\n```\nafter";
    let mut rebuilt = String::new();
    for part in message_parts(source) {
        match part {
            MessagePart::Text(text) => rebuilt.push_str(&text),
            MessagePart::Code {
                opening,
                body,
                closing,
            } => {
                rebuilt.push_str(&opening);
                rebuilt.push_str(&body);
                rebuilt.push_str(&closing);
            }
        }
    }
    assert_eq!(rebuilt, source);
}

#[test]
fn a_reply_that_is_cut_fits() {
    let reply = truncate_reply(&"a".repeat(500), 100);
    assert_eq!(reply.chars().count(), 100);
    assert!(reply.ends_with("\n… (truncated)"));
}

#[test]
fn an_escaped_text_stays_on_its_line() {
    assert_eq!(escape_inline("a `b`\r\n@c"), "a ˋbˋ  @c");
}

#[test]
fn a_finished_run_holds_the_target() {
    let previous = vec![MessageId(1), MessageId(2), MessageId(3)];
    let target = texts(&["one", "two"]);
    let plan = plan_messages(&previous, &target);
    assert_eq!(plan.edits.len(), 2);
    assert_eq!(plan.sends.len(), 0);
    assert_eq!(plan.deletes, vec![MessageId(3)]);
    let mut run = SyncRun::new(previous, &target);
    let mut actions = 0;
    loop {
        match run.next_action() {
            SyncAction::Done => break,
            _ => {
                actions += 1;
                run.succeeded(MessageId(9));
            }
        }
    }
    assert_eq!(actions, 3);
    assert_eq!(run.message_ids(), vec![MessageId(1), MessageId(2)]);
}

#[test]
fn every_event_has_one_wire_name() {
    let kinds = [
        EventKind::WorkspaceCreated,
        EventKind::WorkspaceUpdated,
        EventKind::WorkspaceClosed,
        EventKind::WorkspaceRenamed,
        EventKind::TabCreated,
        EventKind::TabClosed,
        EventKind::PaneCreated,
        EventKind::PaneClosed,
        EventKind::PaneUpdated,
        EventKind::PaneExited,
        EventKind::PaneAgentDetected,
        EventKind::PaneAgentStatusChanged,
    ];
    for kind in kinds {
        let wire = kind.subscription().replace('.', "_");
        assert_eq!(EventKind::from_wire(&wire), Some(kind));
    }
}

#[test]
fn harness_labels_are_read_back() {
    for harness in Harness::all() {
        assert_eq!(Harness::parse(&harness.to_label()), Some(harness));
    }
    assert_eq!(Harness::parse("nothing"), None);
}

#[test]
fn offers_are_limited() {
    let values: Vec<(String, String)> = (0..40)
        .map(|n| (format!("v{n}"), "n".repeat(150)))
        .collect();
    let offered = named_choices(&values, "");
    assert_eq!(offered.len(), CHOICE_LIMIT);
    assert!(offered.iter().all(|choice| choice.name.chars().count() <= 100));
}

#[test]
fn session_options_are_suggested() {
    let options = vec![
        select(
            "model",
            "openai/gpt",
            &["openai/gpt", "openai/mini"],
            SessionConfigOptionCategory::Model,
        ),
        select(
            "thinking",
            "low",
            &["low", "high"],
            SessionConfigOptionCategory::ThoughtLevel,
        ),
    ];
    let names = |partial: &str| -> Vec<String> {
        model_choices(&options, partial)
            .into_iter()
            .map(|choice| choice.value)
            .collect()
    };
    assert_eq!(
        names(""),
        texts(&[
            "openai/gpt:high",
            "openai/gpt:low",
            "openai/mini:high",
            "openai/mini:low",
        ])
    );
    assert_eq!(names("MINI:L"), texts(&["openai/mini:low"]));
    let levels = category_choices(&options, &SessionConfigOptionCategory::ThoughtLevel, "hi");
    assert_eq!(levels.len(), 1);
    assert_eq!(levels[0].value, "high");
    assert_eq!(
        category_current_value(&options, &SessionConfigOptionCategory::ThoughtLevel, &[]),
        Some("low".to_owned())
    );
    assert_eq!(
        category_current_value(&options, &SessionConfigOptionCategory::Mode, &[]),
        None
    );
}

#[test]
fn sorted_values_are_named_once() {
    let sorted = sort_texts(&texts(&["b", "a", "é", "a"]));
    assert_eq!(sorted, texts(&["a", "b", "é"]));
}

#[test]
fn texts_are_cut_and_trimmed() {
    assert_eq!(trim("  a b\t\n"), "a b");
    assert_eq!(cap("áéí", 2), "áé");
    assert_eq!(truncate_end("áéí", 2), "á…");
    assert_eq!(truncate_end("áé", 2), "áé");
    assert_eq!(split_whitespace(" a  b\tc "), texts(&["a", "b", "c"]));
}

#[test]
fn a_map_holds_the_last_value_of_a_key() {
    let mut map: TextMap<u64> = TextMap::new();
    map.insert("a".to_owned(), 1);
    map.insert("b".to_owned(), 2);
    map.insert("a".to_owned(), 3);
    assert_eq!(map.get("a"), Some(&3));
    assert_eq!(map.keys().len(), 2);
    assert_eq!(map.remove("a"), Some(3));
    assert!(!map.contains("a"));
    assert_eq!(map.get("b"), Some(&2));
}

#[test]
fn a_new_session_is_what_the_agent_reported() {
    let created = NewSession {
        session_id: "s1".to_owned(),
        config_options: vec![],
    };
    assert_eq!(
        new_session(Some(created), Ok(Ok(()))).unwrap().session_id,
        "s1"
    );
    let message = |error: Result<NewSession, BotError>| match error {
        Ok(_) => panic!("a session was reported"),
        Err(error) => error.message(),
    };
    assert!(message(new_session(None, Ok(Ok(()))))
        .ends_with("acp new session ended before returning a session"));
    assert!(message(new_session(None, Err("panicked".to_owned())))
        .ends_with("acp new session task failed: panicked"));
    assert!(message(new_session(None, Ok(Err(AcpError::internal("broken"))))).contains("broken"));
}

#[test]
fn a_live_session_reports_its_own_error_first() {
    let own = AcpError::internal("own");
    let task = AcpError::internal("task");
    assert_eq!(run_new(Ok(()), Ok(Ok(()))), Ok(()));
    assert_eq!(run_new(Err(own.clone()), Ok(Err(task.clone()))), Err(own));
    assert_eq!(run_new(Ok(()), Ok(Err(task.clone()))), Err(task));
    assert_eq!(
        run_new(Ok(()), Err("aborted".to_owned())),
        Err(AcpError::Internal(
            "acp `session/new` task failed: aborted".to_owned()
        ))
    );
}

#[test]
fn commands_are_answered() {
    let thread = GenericChannelId(7);
    assert_eq!(thread_reply("created", thread), "created <#7>");
    assert_eq!(model_reply("openai/gpt"), "model `openai/gpt` selected");
    assert_eq!(failure_reply("couldn't", "no"), "couldn't: no");
    assert_eq!(starter_reply(Some("first")), "first");
    assert_eq!(starter_reply(None), "this thread has no messages");
    assert_eq!(queued_reply("/plan"), "queued **/plan**");
    assert_eq!(
        thread_link(GuildId(1), 2),
        "https://discord.com/channels/1/2"
    );
    assert_eq!(
        unauthorized_notice(),
        "you are not allowed to answer this request"
    );
}

#[test]
fn stored_states_are_read() {
    assert_eq!(parse_state("{\"text\":\"a\"}").unwrap(), "a");
    assert!(parse_state("{\"text\":1}").is_err());
    assert!(parse_state("{").is_err());
    assert!(parse_object_state("{}").is_ok());
    assert!(matches!(
        parse_object_state("[]"),
        Err(BotError::ProjectionStateNotObject)
    ));
}

#[test]
fn projections_are_rendered_in_order() {
    let projection = |id: &str, state: &str| RenderProjection {
        thread_id: GenericChannelId(1),
        source_kind: "agent_message".to_owned(),
        source_id: id.to_owned(),
        state_json: state.to_owned(),
        message_ids: vec![],
    };
    let rendered = render_projections(vec![
        projection("m1", "{\"text\":\"one\"}"),
        projection("m2", "{\"text\":\"two\"}"),
    ])
    .unwrap();
    assert_eq!(rendered.len(), 2);
    assert_eq!(rendered[0].0.source_id, "m1");
    assert_eq!(rendered[0].1, texts(&["one"]));
    assert_eq!(rendered[1].1, texts(&["two"]));
    assert!(render_projections(vec![projection("m1", "not json")]).is_err());
}

#[test]
fn offers_hold_what_the_needle_finds() {
    let candidate = |name: &str, found_by: &[&str]| Candidate {
        name: name.to_owned(),
        value: name.to_lowercase(),
        found_by: texts(found_by),
    };
    let candidates = vec![
        candidate("One", &["one", "first"]),
        candidate("Two", &["two"]),
    ];
    let found = offer(&candidates, "irs");
    assert_eq!(found.len(), 1);
    assert_eq!(found[0].name, "One");
    assert_eq!(found[0].value, "one");
    assert_eq!(offer(&candidates, "").len(), 2);
    assert_eq!(offer(&candidates, "IRS").len(), 0);
    assert_eq!(offer_toggle("a").len(), 1);
    assert_eq!(offer_toggle("e").len(), 2);
}

#[test]
fn a_chunk_extends_the_shown_text() {
    assert_eq!(extend_text("ab", false, "b"), Some("abb".to_owned()));
    assert_eq!(extend_text("ab", true, "b"), None);
    assert_eq!(extend_text("ab", true, "c"), Some("abc".to_owned()));
    assert_eq!(extend_text("ab", false, ""), None);
    let state = |source: &str| parse_state(source).ok();
    assert_eq!(state(" \n"), Some(String::new()));
    assert_eq!(state("{\"text\":\"a\",\"more\":1}"), Some("a".to_owned()));
    assert_eq!(state(" {\"more\":1e999,\"text\":\"a\"}"), Some("a".to_owned()));
    assert_eq!(state("{\"text\":\"a\",\"text\":\"b\"}"), None);
    assert_eq!(state("{\"more\":1}"), None);
    assert_eq!(state("{\"text\":1}"), None);
    assert_eq!(state(" [\"a\"]"), Some("a".to_owned()));
    assert_eq!(state("[\"a\",\"b\"]"), None);
    assert_eq!(state("[]"), None);
    assert_eq!(state("\"a\""), None);
}

#[test]
fn paths_are_labelled_by_their_place() {
    let home = Some("/home/me".to_owned());
    assert_eq!(
        label_below(Some("project".to_owned()), "/home/me/work/project", &home),
        "project"
    );
    assert_eq!(
        label_below(Some(String::new()), "/home/me/work", &home),
        "~/work"
    );
    assert_eq!(label_below(None, "/srv/work", &home), "/srv/work");
    let pair = |path: &str| {
        pair_parts(path, Some("/work".to_owned()), Some("pro".to_owned()))
    };
    assert_eq!(pair("/work/pro"), ("/work".to_owned(), "pro".to_owned()));
    assert_eq!(pair("/work/"), ("/work/".to_owned(), String::new()));
    assert_eq!(pair("/work/.."), ("/work/..".to_owned(), String::new()));
}

#[test]
fn a_label_is_given_out_once() {
    let spaces = vec![Workspace {
        workspace_id: WorkspaceId::new("w1".to_owned()),
        label: "work".to_owned(),
        worktree: None,
    }];
    assert_eq!(free_label("play".to_owned(), &spaces).unwrap(), "play");
    assert_eq!(
        free_label("work".to_owned(), &spaces).unwrap_err().message(),
        "a workspace named `work` already exists (`w1`)"
    );
}

#[test]
fn component_ids_differ_by_nonce_and_part() {
    assert_eq!(make_id(7, "open"), "agentcord:elicit:7:open");
    assert_ne!(make_id(1, "1:open"), make_id(11, "open"));
    assert_ne!(make_id(1, "open"), make_id(1, "decline"));
}

#[test]
fn a_broken_text_cannot_close_its_fence() {
    assert_eq!(break_fences("```"), "`\u{200b}``");
    assert_eq!(break_fences("````"), "`\u{200b}`\u{200b}``");
    let block = fence("````", "sh");
    let body = block
        .strip_prefix("```sh\n")
        .and_then(|rest| rest.strip_suffix("\n```"))
        .expect("a fenced block");
    assert!(!body.contains("```"));
    assert_eq!(break_fences("a `b` ``c"), "a `b` ``c");
}

#[test]
fn a_message_that_fits_stays_whole() {
    let value = "text\n```rs\nlet a = 1;\n```\nmore\n";
    let length = value.chars().count();
    assert_eq!(split_message(value, length), vec![value.to_owned()]);
    assert!(split_message(value, length - 1).len() > 1);
    assert_eq!(split_message("```\n```", 20), vec!["```\n\n```".to_owned()]);
}

#[test]
fn a_read_selector_shows_its_input() {
    for input in ["  openai/gpt/4o:high ", "model", "a/b", "m:low"] {
        let spec = input.parse::<ModelSpec>().unwrap();
        assert_eq!(spec.canonical(), input.trim());
    }
}

#[test]
fn an_absolute_rest_leaves_the_home_directory() {
    assert_eq!(expand_home("~//etc", "/h").as_deref(), Some("/etc"));
    assert_eq!(expand_home("~/etc", "/h").as_deref(), Some("/h/etc"));
    assert!(matches!(
        path_query("~//etc/ho", "/h"),
        PathQuery::Search { root, basename, .. } if root == "/etc" && basename == "ho"
    ));
}

#[test]
fn a_stopped_actor_is_waited_for() {
    assert!(stopped(StopWait::Released).is_ok());
    assert!(matches!(
        stopped(StopWait::ActorGone),
        Err(BotError::AcpActorExited)
    ));
    assert!(matches!(
        stopped(StopWait::TimedOut),
        Err(BotError::AcpActorStopTimedOut)
    ));
}

#[test]
fn an_agent_is_launched_into_an_open_workspace() {
    assert_eq!(
        launchable(&vec![]),
        Err("there are no herdr workspaces to launch into.")
    );
    assert_eq!(
        launchable(&vec!["b".to_owned(), "a".to_owned()]),
        Ok(vec!["a".to_owned(), "b".to_owned()])
    );
    let id = ChannelId(7);
    let parent = ChannelId(8);
    assert_eq!(preselected_forum(Channel::Guild(None), id).unwrap(), Some(7));
    assert_eq!(
        preselected_forum(Channel::Guild(Some(parent)), id).unwrap(),
        Some(7)
    );
    assert_eq!(
        preselected_forum(Channel::GuildThread(parent), id).unwrap(),
        Some(8)
    );
    assert_eq!(preselected_forum(Channel::Other, id).unwrap(), None);
    assert_eq!(
        preselected_forum(Channel::Guild(None), ChannelId(u64::MAX))
            .unwrap_err()
            .message(),
        "channel id overflows i64"
    );
    assert_eq!(
        herdr_unreachable(&HerdrError::Timeout).message(),
        "couldn't reach herdr: herdr request timed out"
    );
    assert_eq!(
        creation_failed(&HerdrError::Timeout).message(),
        "couldn't create the workspace: herdr request timed out"
    );
    assert_eq!(
        home_unresolved().message(),
        "couldn't resolve your home directory"
    );
}

#[test]
fn the_control_command_knows_its_socket() {
    assert_eq!(
        control_env("/run/herdr.sock"),
        vec![
            ("HERDR_ENV", "1".to_owned()),
            ("HERDR_SOCKET_PATH", "/run/herdr.sock".to_owned())
        ]
    );
}
