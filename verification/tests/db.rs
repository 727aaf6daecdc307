//! Stored sessions and projections.

use agentcord::config::AgentKey;
use agentcord::db::migrate::{migrate_session_labels, migrate_workspace_ids};
use agentcord::db::{
    insert_session, model, parse_id, projection, replace_projection, RenderProjection, SessionRow,
};
use agentcord::error::BotError;
use agentcord::herdr::model::{Workspace, WorkspaceId};
use agentcord::ids::{GenericChannelId, MessageId};

fn session(thread: u64) -> SessionRow {
    SessionRow {
        thread_id: GenericChannelId(thread),
        agent_key: AgentKey::new("example"),
        session_id: format!("session-{thread}"),
        project_path: "/work/project".to_owned(),
    }
}

#[test]
fn a_stored_session_is_restored() {
    let stored = insert_session(&session(10)).unwrap();
    assert_eq!(stored.thread_id, "10");
    let restored = SessionRow::from_stored(stored).unwrap();
    assert_eq!(restored.thread_id, GenericChannelId(10));
    assert_eq!(restored.agent_key.as_str(), "example");
    assert_eq!(restored.session_id, "session-10");
    assert_eq!(restored.project_path, "/work/project");
}

/// Verifies relative project paths cannot enter durable state.
#[test]
fn rejects_relative_project_paths() {
    let mut row = session(40);
    row.project_path = "relative/project".to_owned();
    assert!(matches!(
        insert_session(&row),
        Err(BotError::RelativeProjectPath { .. })
    ));
}

#[test]
fn a_malformed_snowflake_is_reported() {
    assert_eq!(parse_id("42").unwrap(), 42);
    assert_eq!(
        parse_id("4x").unwrap_err().message(),
        "invalid stored discord id `4x`: invalid digit found in string"
    );
    assert!(parse_id("").is_err());
    assert!(parse_id("99999999999999999999").is_err());
}

#[test]
fn messages_are_stored_in_order() {
    let shown = RenderProjection {
        thread_id: GenericChannelId(20),
        source_kind: "turn".into(),
        source_id: "1".into(),
        state_json: r#"{"text":"one"}"#.into(),
        message_ids: vec![MessageId(2), MessageId(1)],
    };
    let stored = replace_projection(&shown).unwrap();
    assert_eq!(stored[0].position, 0);
    assert_eq!(stored[0].message, "2");
    let read = projection(
        GenericChannelId(20),
        "turn".to_owned(),
        "1".to_owned(),
        r#"{"text":"one"}"#.to_owned(),
        &stored,
    )
    .unwrap();
    assert_eq!(read, shown);
}

#[test]
fn old_keys_are_migrated() {
    let workspaces = vec![Workspace {
        workspace_id: WorkspaceId::new("w3".to_owned()),
        label: "demo".to_owned(),
        worktree: None,
    }];
    let rows = vec![model::WorkspaceRow {
        label: "w3".to_owned(),
        workspace_id: String::new(),
        forum_channel_id: Some(5),
    }];
    let migrations = migrate_workspace_ids(&rows, &workspaces);
    assert_eq!(migrations.len(), 1);
    assert_eq!(migrations[0].delete, "w3");
    assert_eq!(migrations[0].upsert.label, "demo");
    assert_eq!(migrations[0].upsert.workspace_id, "w3");
    assert_eq!(migrations[0].upsert.forum_channel_id, Some(5));
    let again: Vec<model::WorkspaceRow> = migrations
        .into_iter()
        .map(|migration| migration.upsert)
        .collect();
    assert!(migrate_workspace_ids(&again, &workspaces).is_empty());
    let sessions = vec![model::SessionRow {
        session_path: "s".to_owned(),
        post_channel_id: None,
        workspace_label: "w3".to_owned(),
        cwd: "/".to_owned(),
        transcript_path: "s".to_owned(),
        synced_messages: 0,
        last_discord_message_id: None,
        starter_message_id: None,
    }];
    let updated = migrate_session_labels(&sessions, &workspaces);
    assert_eq!(updated.len(), 1);
    assert_eq!(updated[0].workspace_label, "demo");
    assert!(migrate_session_labels(&updated, &workspaces).is_empty());
}
