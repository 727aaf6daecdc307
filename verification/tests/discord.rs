//! Forum posts, tags, threads and webhooks of ACP sessions.

use agentcord::acp::options::{
    SessionConfigKind, SessionConfigOption, SessionConfigOptionCategory, SessionConfigSelect,
    SessionConfigSelectOptions,
};
use agentcord::acp::protocol::{ImportedSession, NewSession};
use agentcord::config::{AgentConfig, AgentKey, Agents, TagEmoji};
use agentcord::db::SessionRow;
use agentcord::discord::forum::{
    configured_emoji_key, copy_tag, emoji_key, escape_inline, find_session_tag, forum_channel,
    plan_tags, tag_ids, update_session_starter, ForumEmoji, ForumTag, SessionMetadata,
};
use agentcord::discord::posts::{
    import_checked, import_inspected, import_looked_up, import_session, ImportStep, PostEvent,
    PostRun, PostStep,
};
use agentcord::discord::threads::{
    handle_forum_thread_update, reconcile_thread, ArchiveListing, ArchiveStep, ForumThread,
    ReconcileError, ReconcileRun, ThreadAction, ThreadChange, ThreadOutcome, ThreadPage,
};
use agentcord::discord::webhook::{
    profile_name, user_webhook, MirrorNext, MirrorRun, Posted, Poster,
};
use agentcord::error::BotError;
use agentcord::ids::{ChannelId, EmojiId, ForumTagId, GenericChannelId};

fn row(thread: u64) -> SessionRow {
    SessionRow {
        thread_id: GenericChannelId(thread),
        agent_key: AgentKey::new("codex"),
        session_id: "s`1".to_owned(),
        project_path: "/home/me/work".to_owned(),
    }
}

fn agents() -> Agents {
    let mut agents = Agents::new();
    agents.insert(
        AgentKey::new("codex"),
        AgentConfig {
            display_name: "Codex".to_owned(),
            command: "codex-acp".to_owned(),
            args: vec![],
            env: vec![],
            emoji: TagEmoji::Unicode("🤖".to_owned()),
        },
    );
    agents
}

fn tag(id: u64, name: &str, emoji: Option<ForumEmoji>) -> ForumTag {
    ForumTag {
        id: ForumTagId(id),
        name: name.to_owned(),
        moderated: true,
        emoji,
    }
}

fn thread(id: u64, archived: bool, at: i64) -> ForumThread {
    ForumThread {
        id: GenericChannelId(id),
        parent: ChannelId(3),
        archived,
        archive_timestamp: Some(at),
        created_at: 0,
    }
}

#[test]
fn a_session_is_shown_by_its_metadata() {
    let metadata = SessionMetadata::from_row(&row(1), Some("m"));
    let home = Some("/home/me".to_owned());
    assert_eq!(metadata.post_title_in(&home), "~/work · session s`1");
    assert!(metadata.post_title().ends_with(" · session s`1"));
    assert_eq!(metadata.starter_message(), "session `sˋ1` · model `m`");
    assert_eq!(escape_inline("a`\r\nb"), "aˋ  b");
    assert_eq!(
        update_session_starter(&row(1), None, Some("other")).as_deref(),
        Some("session `sˋ1`")
    );
    assert!(update_session_starter(&row(1), None, Some("session `sˋ1`")).is_none());
    assert!(update_session_starter(&row(1), None, None).is_none());
    let long = SessionMetadata {
        title: Some("t\u{7}".repeat(200)),
        ..metadata
    };
    let title = long.post_title_in(&home);
    assert_eq!(title.chars().count(), 100);
    assert!(title.ends_with('…') && !title.contains('\u{7}'));
}

#[test]
fn a_new_session_shows_its_default_model() {
    let created = NewSession {
        session_id: "s1".to_owned(),
        config_options: vec![SessionConfigOption {
            id: "model".to_owned(),
            name: "Model".to_owned(),
            category: Some(SessionConfigOptionCategory::Model),
            kind: SessionConfigKind::Select(SessionConfigSelect {
                current_value: "gpt".to_owned(),
                options: SessionConfigSelectOptions::Ungrouped(vec![]),
            }),
        }],
    };
    let metadata = SessionMetadata::of_new(&AgentKey::new("codex"), "/work", &created);
    assert_eq!(metadata.model.as_deref(), Some("gpt"));
}

#[test]
fn a_forum_has_a_tag_for_each_agent() {
    let foreign = tag(1, "foreign", Some(ForumEmoji::Id(EmojiId(9))));
    let plan = plan_tags(&vec![foreign.clone()], &agents());
    let update = plan.update.expect("the agent's tag is missing");
    assert_eq!(update.len(), 1);
    assert_eq!(update[0].name, "codex");
    assert!(!update[0].moderated);
    let ours = tag(2, "codex", Some(ForumEmoji::Name("🤖".to_owned())));
    assert!(plan_tags(&vec![ours.clone()], &agents()).update.is_none());
    let tags = vec![foreign, ours];
    let update = plan_tags(&tags, &agents()).update.expect("a foreign tag is dropped");
    assert_eq!(update.len(), 1);
    assert!(update[0].moderated);
    let ids = tag_ids(&tags, &agents());
    assert_eq!(
        find_session_tag(&ids, &AgentKey::new("codex")).unwrap(),
        ForumTagId(2)
    );
    assert!(matches!(
        find_session_tag(&ids, &AgentKey::new("other")),
        Err(BotError::MissingForumTag { .. })
    ));
    assert_eq!(copy_tag(&tags[0]).name, "foreign");
    assert_eq!(emoji_key(&tags[0].emoji), "id:9");
    assert_eq!(
        configured_emoji_key(&TagEmoji::Unicode("🤖".to_owned())),
        "unicode:🤖"
    );
    assert_eq!(emoji_key(&None), "none");
    assert!(forum_channel(ChannelId(3), true).is_ok());
    assert_eq!(
        forum_channel(ChannelId(3), false).unwrap_err().message(),
        "discord channel `3` is not a forum"
    );
}

#[test]
fn a_post_that_cannot_be_stored_is_deleted() {
    let tags = vec![(AgentKey::new("codex"), ForumTagId(2))];
    let metadata = SessionMetadata::from_row(&row(1), None);
    let (mut run, post) =
        PostRun::<String>::create_session_post(metadata.clone(), &tags, &None).unwrap();
    assert!(post.title.starts_with("/home/me/work"));
    let created = GenericChannelId(7);
    assert!(matches!(
        run.create_and_store_session(PostEvent::Created(Ok(created))),
        PostStep::Tag(GenericChannelId(7), ForumTagId(2))
    ));
    let PostStep::Store(stored) = run.create_and_store_session(PostEvent::Tagged(Ok(()))) else {
        panic!("a tagged post is stored");
    };
    assert_eq!(stored.thread_id, created);
    assert!(matches!(
        run.create_and_store_session(PostEvent::Stored(Err("full".to_owned()))),
        PostStep::Delete(GenericChannelId(7))
    ));
    assert!(matches!(
        run.create_and_store_session(PostEvent::Deleted),
        PostStep::Failed(error) if error == "full"
    ));
    assert!(matches!(
        PostRun::<String>::create_session_post(metadata, &vec![], &None),
        Err(BotError::MissingForumTag { .. })
    ));
}

#[test]
fn an_import_needs_an_unbound_session() {
    assert!(matches!(
        import_session(" "),
        ImportStep::Refuse(BotError::EmptySessionId)
    ));
    assert!(matches!(import_session("s1"), ImportStep::LookUp));
    assert!(matches!(import_looked_up(None), ImportStep::Inspect));
    let bound = GenericChannelId(4);
    assert!(matches!(
        import_looked_up(Some(bound)),
        ImportStep::CheckThread(GenericChannelId(4))
    ));
    assert!(matches!(
        import_checked(bound, true),
        ImportStep::Refuse(BotError::AlreadyImported { .. })
    ));
    assert!(matches!(import_checked(bound, false), ImportStep::Forget(_)));
    let imported = |path: &str| ImportedSession {
        session_id: "s1".to_owned(),
        project_path: path.to_owned(),
        title: None,
    };
    let key = AgentKey::new("codex");
    assert!(matches!(
        import_inspected(&key, imported("work"), None),
        ImportStep::Refuse(BotError::NonAbsoluteProjectPath { .. })
    ));
    let ImportStep::Bind(metadata) =
        import_inspected(&key, imported("/a/../work"), Some("/work".to_owned()))
    else {
        panic!("an absolute path is bound");
    };
    assert_eq!(metadata.project_path, "/work");
}

#[test]
fn archived_threads_are_listed_page_by_page() {
    let mut listing = ArchiveListing::start(ChannelId(3), &vec![thread(1, false, 0)]);
    let page = |threads: Vec<ForumThread>, has_more: bool| ThreadPage { threads, has_more };
    assert_eq!(
        listing.archived_forum_threads(&page(vec![thread(2, true, 50)], true)),
        ArchiveStep::Request(50)
    );
    assert_eq!(
        listing.archived_forum_threads(&page(vec![thread(2, true, 50)], true)),
        ArchiveStep::Done
    );
    let ids: Vec<u64> = listing.into_threads().iter().map(|found| found.id.0).collect();
    assert_eq!(ids, vec![1, 2]);
}

#[test]
fn unmanaged_threads_are_deleted() {
    let tags = vec![(AgentKey::new("codex"), ForumTagId(2))];
    let managed = vec![row(1)];
    assert!(matches!(
        reconcile_thread(&thread(1, true, 0), &managed, &tags, &None),
        ThreadAction::Leave
    ));
    assert!(matches!(
        reconcile_thread(&thread(9, false, 0), &managed, &tags, &None),
        ThreadAction::Delete(GenericChannelId(9))
    ));
    assert!(matches!(
        reconcile_thread(&thread(1, false, 0), &managed, &tags, &None),
        ThreadAction::Retag { tag: ForumTagId(2), .. }
    ));
    assert!(matches!(
        reconcile_thread(&thread(1, false, 0), &managed, &vec![], &None),
        ThreadAction::Untagged(_)
    ));
    let mut run: ReconcileRun<String> = ReconcileRun::new();
    run.record(ThreadOutcome::Settled);
    run.record(ThreadOutcome::Failed(ReconcileError::Outside("first".to_owned())));
    run.record(ThreadOutcome::Failed(ReconcileError::Outside("second".to_owned())));
    assert!(matches!(
        run.reconcile_threads(),
        Err(ReconcileError::Outside(error)) if error == "first"
    ));
}

#[test]
fn an_archived_thread_stops_its_session() {
    let forum = ChannelId(3);
    let open = thread(1, false, 0);
    let closed = thread(1, true, 0);
    assert_eq!(
        handle_forum_thread_update(forum, Some(open), closed),
        ThreadChange::Archived
    );
    assert_eq!(
        handle_forum_thread_update(forum, Some(closed), open),
        ThreadChange::Reopened
    );
    assert_eq!(
        handle_forum_thread_update(forum, Some(open), open),
        ThreadChange::Ignore
    );
    assert_eq!(
        handle_forum_thread_update(ChannelId(9), None, open),
        ThreadChange::Ignore
    );
}

#[test]
fn a_mirrored_prompt_falls_back_to_the_bot() {
    assert_eq!(profile_name(None, None, "ann"), "ann (via agentcord)");
    assert_eq!(
        user_webhook(&vec![None, Some("agentcord".to_owned())]),
        Some(1)
    );
    assert_eq!(user_webhook(&vec![Some("other".to_owned())]), None);
    let mut run = MirrorRun::mirror_user_message("hello", true);
    assert_eq!(run.next(), Some((Poster::Webhook, "hello")));
    assert_eq!(run.record(Posted::Failed), MirrorNext::DropWebhook);
    assert_eq!(run.next(), Some((Poster::Bot, "hello")));
    assert_eq!(run.record(Posted::Failed), MirrorNext::Fail);
}
