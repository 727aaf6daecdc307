//! Slash commands and their forms.

use agentcord::acp::protocol::ListedSession;
use agentcord::commands::choices::{
    agent_choices, command_choices, session_choices, AgentCommand, Choice,
};
use agentcord::commands::harness::{launch_from_modal, launch_report, workspace_labels};
use agentcord::commands::herdr::{control_reply, herdr, HerdrStep};
use agentcord::commands::session::{
    agent_argument, agent_key_at, allowed, command, handle_message, mode_reply, resolve_mode,
    resolve_project_path, typed_project_path, ProjectLookup,
};
use agentcord::commands::workspace::{
    complete_path, created_reply, expand_home, folder_target, path_query, resolve_folder,
    workspace_label, DirectoryEntry, FolderLookup, PathQuery,
};
use agentcord::commands::{agent, harness};
use agentcord::config::{AgentConfig, AgentKey, Agents, TagEmoji};
use agentcord::error::BotError;
use agentcord::herdr::model::{CreatedWorkspace, PaneId, Workspace, WorkspaceId};
use agentcord::ids::{GenericChannelId, GuildId, UserId};
use agentcord::modal::{ModalInput, SelectOption, Submitted};
use agentcord::session::Harness;

fn menu(custom_id: &str, value: &str) -> Submitted {
    Submitted::Select {
        custom_id: custom_id.to_owned(),
        values: vec![value.to_owned()],
    }
}

fn input(custom_id: &str, value: &str) -> Submitted {
    Submitted::Text {
        custom_id: custom_id.to_owned(),
        value: value.to_owned(),
    }
}

/// A submitted launch modal.
fn modal_data(kind: &str, workspace: &str, prompt: &str) -> Vec<Submitted> {
    vec![
        menu("kind", kind),
        menu("workspace", workspace),
        input("prompt", prompt),
    ]
}

fn agents() -> Agents {
    let mut agents = Agents::new();
    agents.insert(
        AgentKey::new("codex"),
        AgentConfig {
            display_name: "Codex Agent".to_owned(),
            command: "codex-acp".to_owned(),
            args: vec![],
            env: vec![],
            emoji: TagEmoji::Unicode("🤖".to_owned()),
        },
    );
    agents
}

fn defaults(components: &[ModalInput], wanted: Option<&str>) -> Vec<String> {
    let mut found: Vec<String> = Vec::new();
    for component in components {
        if let ModalInput::Select {
            custom_id, options, ..
        } = component
        {
            if wanted.map_or(true, |id| id == custom_id) {
                let chosen = options.iter().filter(|option: &&SelectOption| option.default);
                found.extend(chosen.map(|option| option.value.clone()));
            }
        }
    }
    found
}

#[test]
fn parse_agent_modal_extracts_kind_workspace_and_prompt() {
    let data = modal_data(
        &Harness::ClaudeCode.to_label(),
        "my-workspace",
        "fix the bug",
    );
    let selection = harness::parse_agent_modal(&data);
    assert_eq!(selection.kind, Some(Harness::ClaudeCode));
    assert_eq!(selection.workspace.as_deref(), Some("my-workspace"));
    assert_eq!(selection.prompt.as_deref(), Some("fix the bug"));
}

#[test]
fn parse_agent_modal_falls_back_on_unknown_kind() {
    let data = modal_data("bogus", "my-workspace", "hi");
    let selection = harness::parse_agent_modal(&data);
    assert_eq!(selection.kind, None);
    assert_eq!(selection.workspace.as_deref(), Some("my-workspace"));
    assert_eq!(selection.prompt.as_deref(), Some("hi"));
}

#[test]
fn parse_agent_modal_tolerates_empty_payloads() {
    assert_eq!(
        harness::parse_agent_modal(&vec![]),
        harness::AgentSelection {
            kind: None,
            workspace: None,
            prompt: None,
        }
    );
}

#[test]
fn agent_modal_preselects_the_default_workspace() {
    let labels = vec!["alpha".to_owned(), "beta".to_owned()];
    let modal = harness::build_agent_modal("custom", &labels, Some("beta"));
    assert_eq!(
        defaults(&modal.components, Some(harness::WORKSPACE_SELECT_ID)),
        vec!["beta"]
    );
}

#[test]
fn agent_modal_defaults_only_the_kind_without_a_channel_workspace() {
    let labels = vec!["alpha".to_owned()];
    let modal = harness::build_agent_modal("custom", &labels, None);
    assert_eq!(defaults(&modal.components, None), vec!["omp"]);
}

/// Verifies modal component values are mapped to the launch form.
#[test]
fn parses_agent_modal_values() {
    let data = vec![
        menu("agent", "codex"),
        input("project", "~/Projects/demo"),
        input("prompt", "fix the tests"),
    ];
    let values = agent::parse_agent_modal(&data);
    assert_eq!(values.agent.as_deref(), Some("codex"));
    assert_eq!(values.project.as_deref(), Some("~/Projects/demo"));
    assert_eq!(values.prompt.as_deref(), Some("fix the tests"));
}

#[test]
fn expand_home_expands_tilde_forms() {
    let home = "/home/test-user";
    assert_eq!(expand_home("~", home).as_deref(), Some(home));
    assert_eq!(
        expand_home("~/a/b", home).as_deref(),
        Some("/home/test-user/a/b")
    );
    assert_eq!(expand_home("/abs/path", home).as_deref(), Some("/abs/path"));
    assert_eq!(expand_home("rel/path", home).as_deref(), Some("rel/path"));
    assert_eq!(expand_home("", home), None);
    assert_eq!(expand_home("~user", home), None);
    assert_eq!(expand_home("~user/thing", home), None);
}

#[test]
fn resolve_folder_expands_and_validates() {
    let root = "/root/dir";
    assert_eq!(folder_target("~/project", root).unwrap(), "/root/dir/project");
    let found = FolderLookup::Directory("/root/dir/project".to_owned());
    assert_eq!(
        resolve_folder("~/project", found).unwrap(),
        "/root/dir/project"
    );
    let missing = FolderLookup::Missing("no such file".to_owned());
    let error = resolve_folder("/root/dir/missing", missing).unwrap_err();
    assert!(error.message().contains("doesn't exist"));
    let error = resolve_folder("/root/dir/notes.txt", FolderLookup::NotDirectory).unwrap_err();
    assert!(error.message().contains("not a directory"));
    let error = folder_target("~other/project", root).unwrap_err();
    assert!(error.message().contains("only `~`"));
}

fn entries() -> Vec<DirectoryEntry> {
    let entry = |name: &str, is_directory: bool| DirectoryEntry {
        name: name.to_owned(),
        is_directory,
    };
    vec![
        entry("foobar", true),
        entry("foo", true),
        entry("alpha", true),
        entry(".hidden", true),
        entry("file.txt", false),
    ]
}

fn complete(input: &str, home: &str, listing: &Vec<DirectoryEntry>) -> Vec<String> {
    match path_query(input, home) {
        PathQuery::Known(suggestions) => suggestions,
        PathQuery::Search {
            prefix, basename, ..
        } => complete_path(&prefix, &basename, listing),
    }
}

#[test]
fn complete_path_lists_matching_directories() {
    let home = "/home/me";
    assert_eq!(
        complete("/root/fo", home, &entries()),
        vec!["/root/foo/", "/root/foobar/"]
    );
    let inner = vec![DirectoryEntry {
        name: "bar".to_owned(),
        is_directory: true,
    }];
    assert_eq!(complete("/root/foo/", home, &inner), vec!["/root/foo/bar/"]);
    assert_eq!(complete("/root/.h", home, &entries()), vec!["/root/.hidden/"]);
    assert_eq!(
        complete("/root/file", home, &entries()),
        Vec::<String>::new()
    );
    assert_eq!(
        complete("/root/missing/", home, &vec![]),
        Vec::<String>::new()
    );
}

#[test]
fn complete_path_keeps_tilde_form() {
    let home = "/home/me";
    assert_eq!(
        complete("~/fo", home, &entries()),
        vec!["~/foo/".to_owned(), "~/foobar/".to_owned()]
    );
    assert_eq!(
        complete("~", home, &entries()),
        vec![
            "~/alpha/".to_owned(),
            "~/foo/".to_owned(),
            "~/foobar/".to_owned()
        ]
    );
    assert_eq!(complete("", home, &entries()), vec!["~/".to_owned()]);
    assert_eq!(complete("~user", home, &entries()), Vec::<String>::new());
    assert_eq!(
        complete("~/foo/al", home, &entries()),
        vec!["~/foo/alpha/".to_owned()]
    );
}

#[test]
fn complete_path_caps_at_discord_limit() {
    let listing: Vec<DirectoryEntry> = (0..30)
        .map(|index| DirectoryEntry {
            name: format!("d{index}"),
            is_directory: true,
        })
        .collect();
    let suggestions = complete("/root/", "/home/me", &listing);
    assert_eq!(suggestions.len(), 25);
    assert!(suggestions.windows(2).all(|pair| pair[0] <= pair[1]));
}

#[test]
fn a_launch_needs_every_value() {
    let values = agent::parse_agent_modal(&vec![
        menu("agent", "codex"),
        input("project", "/work"),
        input("prompt", "go"),
    ]);
    assert!(matches!(
        agent::agent(&values, &agents()),
        agent::AgentStep::Resolve { .. }
    ));
    assert_eq!(agent::launch_prompt(&values).unwrap(), "go");
    let empty = agent::parse_agent_modal(&vec![]);
    assert!(matches!(
        agent::agent(&empty, &agents()),
        agent::AgentStep::Reply(_)
    ));
    assert!(agent::launch_prompt(&empty).is_err());
    let selection = harness::parse_agent_modal(&modal_data("omp", "w", " "));
    assert!(matches!(
        harness::agent(selection),
        harness::LaunchStep::Reply(_)
    ));
    let selection = harness::parse_agent_modal(&modal_data("omp", "w", "go"));
    assert!(matches!(
        harness::agent(selection),
        harness::LaunchStep::Launch { .. }
    ));
}

#[test]
fn a_bound_session_is_linked() {
    assert_eq!(
        agent::bound_reply(
            "imported",
            &agents(),
            &AgentKey::new("codex"),
            GuildId(1),
            GenericChannelId(2)
        ),
        "imported **Codex Agent** — https://discord.com/channels/1/2"
    );
    assert_eq!(launch_from_modal("w", true, Some(3)).unwrap(), 3);
    assert!(launch_from_modal("w", false, Some(3)).is_err());
    assert!(launch_from_modal("w", true, None).is_err());
    assert!(launch_report(Harness::Omp, "w", Err("late")).contains("late"));
    assert_eq!(
        workspace_labels(&vec!["b".to_owned(), "a".to_owned()]),
        vec!["a", "b"]
    );
}

#[test]
fn choices_are_filtered_without_regard_to_case() {
    assert_eq!(
        agent_choices(&agents(), "CODEX"),
        vec![Choice {
            name: "Codex Agent".to_owned(),
            value: "codex".to_owned()
        }]
    );
    assert!(agent_choices(&agents(), "other").is_empty());
    let sessions = vec![ListedSession {
        session_id: "0123456789abcdefXYZ".to_owned(),
        project_path: "/work".to_owned(),
        title: Some(" ".to_owned()),
    }];
    let offered = session_choices(&sessions, "");
    assert_eq!(offered.len(), 1);
    assert!(offered[0].name.starts_with("session 0123456789"));
    let commands = vec![AgentCommand {
        name: "init".to_owned(),
        description: "start".to_owned(),
        hint: None,
    }];
    assert_eq!(command_choices(&commands, "in").len(), 1);
}

#[test]
fn commands_become_prompts() {
    assert_eq!(command("/init", Some(" now ")).unwrap(), "/init now");
    assert_eq!(command("init", None).unwrap(), "/init");
    assert_eq!(
        command(" / ", None).unwrap_err().message(),
        "the command name is empty"
    );
    assert!(allowed(UserId(1), UserId(1)));
    assert!(!allowed(UserId(1), UserId(2)));
    assert!(handle_message(UserId(1), UserId(1), UserId(9), "hi"));
    assert!(!handle_message(UserId(2), UserId(1), UserId(9), "hi"));
    assert_eq!(mode_reply(None, "plan"), "mode set to **plan**");
}

#[test]
fn modes_are_resolved_by_id_or_name() {
    let modes = vec![("plan".to_owned(), "Planning".to_owned())];
    assert_eq!(resolve_mode(Some(&modes), " plan ").unwrap(), "plan");
    assert_eq!(resolve_mode(Some(&modes), "PLANNING").unwrap(), "plan");
    assert_eq!(
        resolve_mode(Some(&modes), "x").unwrap_err().message(),
        "unknown mode `x`"
    );
    assert_eq!(
        resolve_mode(None, "x").unwrap_err().message(),
        "the agent has not advertised any session modes"
    );
}

#[test]
fn agents_are_chosen_by_position() {
    assert_eq!(agent_key_at(&agents(), 0).unwrap().as_str(), "codex");
    assert!(agent_key_at(&agents(), 1).is_err());
    assert_eq!(agent_argument(&agents(), Some(0)).unwrap().as_str(), "codex");
    assert!(agent_argument(&agents(), Some(-1)).is_none());
    assert!(agent_argument(&agents(), None).is_none());
}

#[test]
fn a_project_has_to_be_a_directory() {
    let found = |is_directory: bool| ProjectLookup::Found {
        path: "/work".to_owned(),
        is_directory,
    };
    assert_eq!(resolve_project_path("/w", found(true)).unwrap(), "/work");
    assert!(matches!(
        resolve_project_path("/w", found(false)),
        Err(BotError::ProjectNotDirectory { .. })
    ));
    assert!(matches!(
        resolve_project_path("/w", ProjectLookup::Failed("gone".to_owned())),
        Err(BotError::ProjectPathResolution { .. })
    ));
    let home = Some("/home/me".to_owned());
    assert_eq!(typed_project_path("~/w", &home).unwrap(), "/home/me/w");
    assert!(matches!(
        typed_project_path("~/w", &None),
        Err(BotError::HomeDirectoryUnavailable)
    ));
}

#[test]
fn a_workspace_is_named_after_its_folder() {
    let open = Workspace {
        workspace_id: WorkspaceId::new("w1".to_owned()),
        label: "demo".to_owned(),
        worktree: None,
    };
    assert_eq!(workspace_label("/work/demo", &vec![]).unwrap(), "demo");
    assert!(workspace_label("/work/demo", &vec![open.clone()]).is_err());
    let created = CreatedWorkspace {
        workspace: open,
        pane_id: PaneId::new("w1:p1".to_owned()),
    };
    assert!(created_reply("demo", &created, "/work/demo").contains("demo"));
}

#[test]
fn the_control_agent_needs_a_prompt() {
    assert!(matches!(herdr(false, "go"), HerdrStep::Reply(_)));
    assert!(matches!(herdr(true, " "), HerdrStep::Reply(_)));
    assert!(matches!(herdr(true, "go"), HerdrStep::Run(_)));
    assert!(control_reply(&Ok("done".to_owned()), 2000).contains("done"));
    let failed: Result<String, BotError> = Err(BotError::Other("late".to_owned()));
    assert!(control_reply(&failed, 2000).contains("late"));
}
