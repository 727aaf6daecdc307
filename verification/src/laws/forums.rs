//! Laws of forum posts, tags and threads.

use vstd::prelude::*;

use crate::acp::protocol::ListedView;
use crate::config::{AgentView, EmojiView};
use crate::control;
use crate::db::{RowView, SessionRow};
use crate::discord::forum;
use crate::discord::forum::{ForumEmoji, ForumTag, MetadataView};
use crate::discord::posts;
use crate::discord::posts::{PostEvent, PostPhase, PostStepView};
use crate::discord::threads;
use crate::discord::threads::{ArchiveStep, ForumThread, ThreadAction, ThreadPage};
use crate::discord::webhook;
use crate::discord::webhook::{MirrorNext, MirrorView, Posted, Poster};
use crate::ids::{ChannelId, ForumTagId};
use crate::laws::tools;
use crate::numbers;
use crate::paths;
use crate::seqs;
use crate::session;
use crate::text;

verus! {

/// An escaped text differs from the text in its backticks and line ends alone.
pub proof fn escaping_keeps_the_other_characters(value: Seq<char>)
    ensures
        forall|i: int|
            0 <= i < value.len() ==> #[trigger] forum::escaped(value)[i] == if value[i] == '`' {
                'ˋ'
            } else if value[i] == '\n' || value[i] == '\r' {
                ' '
            } else {
                value[i]
            },
{
}

/// The title of a post tells the project and the title of the session, or its
/// identifier where it has no visible title, cut where Discord permits no more.
pub proof fn a_post_title_tells_project_and_session(
    metadata: MetadataView,
    home: Option<Seq<char>>,
)
    ensures
        ({
            let titled = metadata.title is Some && !text::is_blank(metadata.title->0);
            let told = paths::shortened_home(metadata.project_path, home) + " · "@ + if titled {
                metadata.title->0
            } else {
                "session "@ + metadata.session_id
            };
            let plain = Seq::new(
                told.len(),
                |i: int|
                    if text::is_control(told[i]) {
                        ' '
                    } else {
                        told[i]
                    },
            );
            let title = metadata.post_title(home);
            &&& title.len() <= 100
            &&& text::trimmed(plain).len() <= 100 ==> title == text::trimmed(plain)
            &&& text::trimmed(plain).len() > 100 ==> title == text::trimmed(plain).take(99).push(
                '…',
            )
        }),
{
    let titled = metadata.title is Some && !text::is_blank(metadata.title->0);
    let told = paths::shortened_home(metadata.project_path, home) + " · "@ + if titled {
        metadata.title->0
    } else {
        "session "@ + metadata.session_id
    };
    assert(text::without_controls(told) =~= Seq::new(
        told.len(),
        |i: int|
            if text::is_control(told[i]) {
                ' '
            } else {
                told[i]
            },
    ));
}

/// The first message of a post names the session and, where it is known, the model.
pub proof fn a_starter_names_session_and_model(metadata: MetadataView)
    ensures
        text::contains(metadata.starter(), forum::escaped(metadata.session_id)),
        metadata.model matches Some(model) ==> text::contains(
            metadata.starter(),
            forum::escaped(model),
        ),
        metadata.model is None ==> metadata.starter() == "session `"@ + forum::escaped(
            metadata.session_id,
        ) + "`"@,
{
    let id = forum::escaped(metadata.session_id);
    let none = Seq::<char>::empty();
    match metadata.model {
        Some(model) => {
            let rest = " · model `"@ + forum::escaped(model) + "`"@;
            tools::lemma_contains("session `"@, id, "`"@ + rest);
            assert("session `"@ + id + ("`"@ + rest) =~= metadata.starter());
            let head = "session `"@ + id + "`"@ + " · model `"@;
            tools::lemma_contains(head, forum::escaped(model), "`"@);
            assert(head + forum::escaped(model) + "`"@ =~= metadata.starter());
        },
        None => {
            tools::lemma_contains("session `"@, id, "`"@ + none);
            assert("session `"@ + id + ("`"@ + none) =~= metadata.starter());
            assert("session `"@ + id + "`"@ + none =~= "session `"@ + id + "`"@);
        },
    }
}

/// A tag shows an emoji: the same characters, or the custom emoji with the same
/// number.
pub open spec fn shows_emoji(shown: Option<EmojiView>, wanted: EmojiView) -> bool {
    match wanted {
        EmojiView::Unicode(value) => shown == Some(EmojiView::Unicode(value)),
        EmojiView::Custom(id, _) => shown matches Some(EmojiView::Custom(own, _)) && own == id,
    }
}

/// A tag of the forum is that of an agent: named by its key and with its emoji.
pub open spec fn is_tag_of(tag: ForumTag, key: Seq<char>, emoji: EmojiView) -> bool {
    tag.name@ == key && match emoji {
        EmojiView::Unicode(value) => tag.emoji matches Some(ForumEmoji::Name(name)) && name@
            == value,
        EmojiView::Custom(id, _) => tag.emoji == Some(ForumEmoji::Id(id)),
    }
}

proof fn lemma_shows(tag: ForumTag, key: Seq<char>, emoji: EmojiView)
    ensures
        forum::shows(key, emoji)(tag) <==> is_tag_of(tag, key, emoji),
{
    let own = forum::emoji_key_of(tag.emoji);
    let wanted = forum::configured_key_of(emoji);
    reveal_strlit("id:");
    reveal_strlit("unicode:");
    reveal_strlit("unknown");
    reveal_strlit("none");
    let by_id = "id:"@;
    let by_text = "unicode:"@;
    assert(by_id[0] == 'i' && by_text[0] == 'u' && by_text[2] == 'i' && "unknown"@[2] == 'k'
        && "none"@[0] == 'n');
    assert("unknown"@[0] == 'u');
    match tag.emoji {
        Some(ForumEmoji::Id(id)) => match emoji {
            EmojiView::Custom(other, _) => {
                if own == wanted {
                    assert(own.skip(3) =~= numbers::decimal(id.0 as nat));
                    assert(wanted.skip(3) =~= numbers::decimal(other.0 as nat));
                    numbers::decimal_is_injective(id.0 as nat, other.0 as nat);
                }
            },
            EmojiView::Unicode(_) => {
                assert(own[0] == 'i' && wanted[0] == 'u');
            },
        },
        Some(ForumEmoji::Name(name)) => match emoji {
            EmojiView::Custom(other, _) => {
                assert(own[0] == 'u' && wanted[0] == 'i');
            },
            EmojiView::Unicode(value) => {
                if own == wanted {
                    assert(own.skip(8) =~= name@);
                    assert(wanted.skip(8) =~= value);
                }
            },
        },
        Some(ForumEmoji::Other) => match emoji {
            EmojiView::Custom(_, _) => {
                assert(own[0] == 'u' && wanted[0] == 'i');
            },
            EmojiView::Unicode(_) => {
                assert(own[2] == 'k' && wanted[2] == 'i');
            },
        },
        None => match emoji {
            EmojiView::Custom(_, _) => {
                assert(own[0] == 'n' && wanted[0] == 'i');
            },
            EmojiView::Unicode(_) => {
                assert(own[0] == 'n' && wanted[0] == 'u');
            },
        },
    }
}

/// The forum gets one tag for each agent, in order, named by its key and with its
/// emoji; who may set a tag that was there before stays as it was.
pub proof fn every_agent_has_its_tag(
    tags: Seq<ForumTag>,
    agents: Seq<(Seq<char>, AgentView)>,
    i: int,
)
    requires
        0 <= i < agents.len(),
    ensures
        forum::desired_tags(tags, agents).len() == agents.len(),
        forum::desired_tags(tags, agents)[i].name == agents[i].0,
        shows_emoji(forum::desired_tags(tags, agents)[i].emoji, agents[i].1.emoji),
        forum::desired_tags(tags, agents)[i].moderated ==> exists|k: int|
            0 <= k < tags.len() && is_tag_of(
                #[trigger] tags[k],
                agents[i].0,
                agents[i].1.emoji,
            ) && tags[k].moderated,
{
    let (key, agent) = agents[i];
    let wanted = forum::shows(key, agent.emoji);
    seqs::lemma_first_where(tags, wanted);
    let at = seqs::first_where(tags, wanted);
    if at < tags.len() {
        lemma_shows(tags[at], key, agent.emoji);
        assert(is_tag_of(tags[at], key, agent.emoji));
    }
    assert(forum::desired_tags(tags, agents)[i] == forum::desired_tag(tags, agents[i]));
}

/// The tags of a forum are left alone exactly where there are as many as agents and
/// each agent has its own.
pub proof fn tags_are_left_where_each_agent_has_one(
    tags: Seq<ForumTag>,
    agents: Seq<(Seq<char>, AgentView)>,
)
    ensures
        forum::tags_current(tags, agents) <==> tags.len() == agents.len() && (forall|i: int|
            0 <= i < agents.len() ==> has_tag(tags, #[trigger] agents[i])),
{
    assert forall|i: int| 0 <= i < agents.len() implies (seqs::first_where(
        tags,
        forum::shows((#[trigger] agents[i]).0, agents[i].1.emoji),
    ) < tags.len() <==> has_tag(tags, agents[i])) by {
        let (key, agent) = agents[i];
        let wanted = forum::shows(key, agent.emoji);
        seqs::lemma_first_where(tags, wanted);
        let at = seqs::first_where(tags, wanted);
        if at < tags.len() {
            lemma_shows(tags[at], key, agent.emoji);
            assert(is_tag_of(tags[at], key, agent.emoji));
        } else {
            assert forall|k: int| 0 <= k < tags.len() implies !is_tag_of(
                #[trigger] tags[k],
                key,
                agent.emoji,
            ) by {
                lemma_shows(tags[k], key, agent.emoji);
                assert(!wanted(tags[k]));
            }
        }
    }
}

/// Some tag of the forum is that of an agent.
pub open spec fn has_tag(tags: Seq<ForumTag>, agent: (Seq<char>, AgentView)) -> bool {
    exists|k: int|
        0 <= k < tags.len() && is_tag_of(#[trigger] tags[k], agent.0, agent.1.emoji)
}

/// Some agent has a key.
pub open spec fn has_key(agents: Seq<(Seq<char>, AgentView)>, key: Seq<char>) -> bool {
    exists|i: int| 0 <= i < agents.len() && (#[trigger] agents[i]).0 == key
}

/// The tag at a position is the first with a name.
pub open spec fn is_first_named(tags: Seq<ForumTag>, name: Seq<char>, at: int) -> bool {
    &&& 0 <= at < tags.len()
    &&& tags[at].name@ == name
    &&& forall|k: int| 0 <= k < at ==> (#[trigger] tags[k]).name@ != name
}

/// The tag of a session is the first tag of the forum that its agent's key names, as
/// long as the agent is configured.
pub proof fn a_session_gets_the_tag_of_its_agent(
    tags: Seq<ForumTag>,
    agents: Seq<(Seq<char>, AgentView)>,
    key: Seq<char>,
)
    ensures
        match forum::session_tag(forum::agent_tags(tags, agents), key) {
            Some(id) => has_key(agents, key) && exists|at: int| #[trigger]
                is_first_named(tags, key, at) && tags[at].id == id,
            None => !has_key(agents, key) || forall|at: int| !#[trigger] is_first_named(
                tags,
                key,
                at,
            ),
        },
    decreases agents.len(),
{
    let all = forum::agent_tags(tags, agents);
    let wanted = forum::tag_of(key);
    seqs::lemma_first_where(all, wanted);
    if agents.len() > 0 {
        let head = agents.drop_last();
        let before = forum::agent_tags(tags, head);
        a_session_gets_the_tag_of_its_agent(tags, head, key);
        seqs::lemma_first_where(before, wanted);
        let last = agents.last();
        let named = forum::tag_named(last.0);
        seqs::lemma_first_where(tags, named);
        let at = seqs::first_where(tags, named);
        let found = seqs::first_where(before, wanted);
        if at < tags.len() {
            assert(is_first_named(tags, last.0, at)) by {
                assert forall|k: int| 0 <= k < at implies (#[trigger] tags[k]).name@ != last.0 by {
                    assert(!named(tags[k]));
                }
            }
        } else {
            assert forall|k: int| !#[trigger] is_first_named(tags, last.0, k) by {
                if 0 <= k < tags.len() {
                    assert(!named(tags[k]));
                }
            }
        }
        if has_key(head, key) {
            let i = choose|i: int| 0 <= i < head.len() && (#[trigger] head[i]).0 == key;
            assert(agents[i].0 == key);
        }
        if has_key(agents, key) && last.0 != key {
            let i = choose|i: int| 0 <= i < agents.len() && (#[trigger] agents[i]).0 == key;
            assert(head[i].0 == key);
        }
        if last.0 == key {
            assert(agents[agents.len() - 1].0 == key);
        }
        if found < before.len() {
            assert forall|i: int| 0 <= i < found implies !wanted(#[trigger] all[i]) by {
                assert(all[i] == before[i]);
            }
            assert(all[found] == before[found]);
            seqs::lemma_first_where_is(all, wanted, found);
        } else {
            assert forall|i: int| 0 <= i < before.len() implies !wanted(#[trigger] all[i]) by {
                assert(all[i] == before[i]);
            }
            if at < tags.len() && last.0 == key {
                assert(wanted(all[before.len() as int]));
                seqs::lemma_first_where_is(all, wanted, before.len() as int);
            } else {
                assert forall|i: int| 0 <= i < all.len() implies !wanted(#[trigger] all[i]) by {
                    if i < before.len() {
                        assert(all[i] == before[i]);
                    }
                }
                seqs::lemma_first_where_is(all, wanted, all.len() as int);
            }
        }
    }
}

/// A post is tagged with the tag of its agent, stored as the session it is for, and
/// bound where both went well; otherwise what failed first is what is reported.
pub proof fn a_post_is_tagged_stored_and_bound<E>(
    phase: PostPhase<E>,
    event: PostEvent<E>,
    metadata: MetadataView,
    tag: ForumTagId,
)
    requires
        posts::post_event(phase, event),
    ensures
        ({
            let (next, step) = posts::post_next(phase, event, metadata, tag);
            &&& step matches PostStepView::Tag(thread, used) ==> used == tag && event
                == PostEvent::<E>::Created(Ok(thread)) && next == PostPhase::<E>::Tagging(thread)
            &&& step matches PostStepView::Store(row) ==> {
                &&& phase == PostPhase::<E>::Tagging(row.thread_id)
                &&& next == PostPhase::<E>::Storing(row.thread_id)
                &&& row.agent_key == metadata.agent_key
                &&& row.session_id == metadata.session_id
                &&& row.project_path == metadata.project_path
            }
            &&& step matches PostStepView::Bound(thread) ==> phase == PostPhase::<E>::Storing(
                thread,
            ) && (event matches PostEvent::Stored(Ok(_)))
            &&& event matches PostEvent::Created(Ok(thread)) ==> step is Tag
            &&& event matches PostEvent::Tagged(Ok(_)) ==> step is Store
            &&& event matches PostEvent::Stored(Ok(_)) ==> step is Bound
            &&& event matches PostEvent::Created(Err(error)) ==> step == PostStepView::Failed(error)
            &&& event matches PostEvent::Tagged(Err(error)) ==> (next matches PostPhase::Cleaning(
                _,
                kept,
            ) && kept == error)
            &&& event matches PostEvent::Stored(Err(error)) ==> (next matches PostPhase::Cleaning(
                _,
                kept,
            ) && kept == error)
            &&& phase matches PostPhase::Cleaning(_, error) ==> step == PostStepView::Failed(error)
        }),
{
}

proof fn lemma_with_thread(listed: Seq<ForumThread>, thread: ForumThread, other: ForumThread)
    requires
        threads::distinct(listed),
    ensures
        threads::with_thread(listed, thread).contains(thread),
        other.id != thread.id ==> (threads::with_thread(listed, thread).contains(other)
            <==> listed.contains(other)),
        threads::distinct(threads::with_thread(listed, thread)),
{
    let wanted = threads::with_id(thread.id);
    seqs::lemma_first_where(listed, wanted);
    let at = seqs::first_where(listed, wanted);
    let next = threads::with_thread(listed, thread);
    if at < listed.len() {
        assert(next[at] == thread);
    } else {
        assert(next.last() == thread);
        assert forall|i: int| 0 <= i < listed.len() implies (#[trigger] listed[i]).id
            != thread.id by {
            assert(!wanted(listed[i]));
        }
    }
    if other.id != thread.id {
        if next.contains(other) {
            let i = choose|i: int| 0 <= i < next.len() && next[i] == other;
            assert(listed[i] == other);
        }
        if listed.contains(other) {
            let i = choose|i: int| 0 <= i < listed.len() && listed[i] == other;
            assert(next[i] == other);
        }
    }
}

/// The thread at a position is the last of a page with its identifier.
pub open spec fn is_last_of_page(page: Seq<ForumThread>, at: int, forum_id: ChannelId) -> bool {
    &&& 0 <= at < page.len()
    &&& page[at].parent == forum_id
    &&& forall|k: int|
        at < k < page.len() && (#[trigger] page[k]).parent == forum_id ==> page[k].id
            != page[at].id
}

/// A page adds the threads of the forum that it holds, as it tells of them last, and
/// leaves all other threads of the listing as they are.
pub proof fn a_page_adds_the_threads_of_the_forum(
    listed: Seq<ForumThread>,
    page: Seq<ForumThread>,
    forum_id: ChannelId,
    at: int,
    other: ForumThread,
)
    requires
        threads::distinct(listed),
    ensures
        is_last_of_page(page, at, forum_id) ==> threads::with_page(
            listed,
            page,
            forum_id,
        ).contains(page[at]),
        (forall|k: int|
            0 <= k < page.len() && (#[trigger] page[k]).parent == forum_id ==> page[k].id
                != other.id) ==> (threads::with_page(listed, page, forum_id).contains(other)
            <==> listed.contains(other)),
        threads::distinct(threads::with_page(listed, page, forum_id)),
    decreases page.len(),
{
    if page.len() > 0 {
        let head = page.drop_last();
        let last = page.last();
        let before = threads::with_page(listed, head, forum_id);
        if 0 <= at < head.len() && is_last_of_page(page, at, forum_id) {
            assert forall|k: int|
                at < k < head.len() && (#[trigger] head[k]).parent == forum_id implies head[k].id
                != head[at].id by {
                assert(page[k].parent == forum_id);
            }
            assert(is_last_of_page(head, at, forum_id));
            a_page_adds_the_threads_of_the_forum(listed, head, forum_id, at, other);
        } else {
            a_page_adds_the_threads_of_the_forum(listed, head, forum_id, -1, other);
        }
        if forall|k: int|
            0 <= k < page.len() && (#[trigger] page[k]).parent == forum_id ==> page[k].id
                != other.id {
            assert forall|k: int|
                0 <= k < head.len() && (#[trigger] head[k]).parent == forum_id implies head[k].id
                != other.id by {
                assert(page[k].parent == forum_id);
            }
        }
        if last.parent == forum_id {
            assert(page[page.len() - 1].parent == forum_id);
            lemma_with_thread(before, last, other);
            if is_last_of_page(page, at, forum_id) && at < head.len() {
                assert(page[page.len() - 1].id != page[at].id);
                lemma_with_thread(before, last, page[at]);
            }
        }
    }
}

/// The archive is asked for more exactly where there is more, from the time of the
/// last thread of the page, unless that is where it was asked from already.
pub proof fn the_archive_is_read_on(before: Option<i64>, page: ThreadPage)
    ensures
        ({
            let last = page.threads@.last();
            let time = if last.archive_timestamp is Some {
                last.archive_timestamp->0
            } else {
                last.created_at
            };
            threads::archive_next(before, page) == if page.has_more && page.threads@.len() > 0
                && before != Some(time) {
                ArchiveStep::Request(time)
            } else {
                ArchiveStep::Done
            }
        }),
{
}

/// A thread is deleted exactly where it is open and no session is stored for it; an
/// archived one is left alone; and a thread with a session gets the tag of the agent of
/// that very session.
pub proof fn only_open_threads_without_a_session_are_deleted(
    action: ThreadAction,
    thread: ForumThread,
    managed: Seq<SessionRow>,
    tags: Seq<(Seq<char>, ForumTagId)>,
    home: Option<Seq<char>>,
)
    requires
        threads::is_action(action, thread, managed, tags, home),
    ensures
        action is Delete <==> !thread.archived && (forall|i: int|
            0 <= i < managed.len() ==> (#[trigger] managed[i]).thread_id != thread.id),
        action matches ThreadAction::Delete(id) ==> id == thread.id,
        action is Leave <==> thread.archived,
        action matches ThreadAction::Retag { thread: id, tag, row, .. } ==> {
            &&& id == thread.id
            &&& row@.thread_id == thread.id
            &&& exists|i: int| 0 <= i < managed.len() && (#[trigger] managed[i])@ == row@
            &&& forum::session_tag(tags, row@.agent_key) == Some(tag)
        },
{
    let wanted = threads::row_of(thread.id);
    lemma_last_where(managed, wanted);
    let at = seqs::last_where(managed, wanted);
    if at >= 0 {
        assert(wanted(managed[at]));
        assert(managed[at].thread_id == thread.id);
    } else {
        assert forall|i: int| 0 <= i < managed.len() implies (#[trigger] managed[i]).thread_id
            != thread.id by {
            assert(!wanted(managed[i]));
        }
    }
}

/// What `last_where` finds is the last such item.
pub proof fn lemma_last_where<T>(items: Seq<T>, wanted: spec_fn(T) -> bool)
    ensures
        -1 <= seqs::last_where(items, wanted) < items.len(),
        seqs::last_where(items, wanted) >= 0 ==> wanted(items[seqs::last_where(items, wanted)]),
        forall|i: int|
            seqs::last_where(items, wanted) < i < items.len() ==> !wanted(#[trigger] items[i]),
    decreases items.len(),
{
    if items.len() > 0 && !wanted(items.last()) {
        let head = items.drop_last();
        lemma_last_where(head, wanted);
        assert forall|i: int|
            seqs::last_where(items, wanted) < i < items.len() implies !wanted(
            #[trigger] items[i],
        ) by {
            if i < head.len() {
                assert(head[i] == items[i]);
            }
        }
    }
}

/// A message that the webhook did not take is posted by the bot from then on; a webhook
/// that failed is dropped, and only a failure of the bot itself ends the mirroring.
pub proof fn the_bot_stands_in_for_the_webhook(run: MirrorView, posted: Posted)
    ensures
        ({
            let (after, next) = webhook::mirrored(run, posted);
            &&& next == MirrorNext::Fail <==> run.poster == Poster::Bot && !(posted is Sent)
            &&& next == MirrorNext::DropWebhook <==> run.poster == Poster::Webhook && posted
                is Failed
            &&& after.poster == if posted is Sent {
                run.poster
            } else {
                Poster::Bot
            }
        }),
{
}

/// A mirrored message is shown under the name that the guild knows its author by, or
/// else all of Discord, or else the account, and says that it was mirrored.
pub proof fn a_mirrored_message_names_its_author(
    member: Option<Seq<char>>,
    global: Option<Seq<char>>,
    name: Seq<char>,
)
    ensures
        text::ends_with(webhook::shown_name(member, global, name), " (via agentcord)"@),
        member matches Some(shown) ==> text::starts_with(
            webhook::shown_name(member, global, name),
            shown,
        ),
        member is None ==> (global matches Some(shown) ==> text::starts_with(
            webhook::shown_name(member, global, name),
            shown,
        )),
        member is None && global is None ==> text::starts_with(
            webhook::shown_name(member, global, name),
            name,
        ),
{
    let shown = webhook::shown_name(member, global, name);
    let note = " (via agentcord)"@;
    let head = shown.take(shown.len() - note.len());
    assert(shown.subrange(shown.len() - note.len(), shown.len() as int) =~= note);
    if let Some(own) = member {
        assert(shown.subrange(0, own.len() as int) =~= own);
    } else if let Some(own) = global {
        assert(shown.subrange(0, own.len() as int) =~= own);
    } else {
        assert(shown.subrange(0, name.len() as int) =~= name);
    }
}

/// A reply that fits is sent as it is, and one that does not starts as the output does
/// and says that it was cut.
pub proof fn a_cut_reply_says_so(output: Seq<char>, limit: nat)
    ensures
        output.len() <= limit ==> control::cut_reply(output, limit) == output,
        output.len() > limit && limit >= 14 ==> {
            let reply = control::cut_reply(output, limit);
            &&& reply.len() == limit
            &&& reply.take(limit - 14) == output.take(limit - 14)
            &&& reply.skip(limit - 14) == "\n… (truncated)"@
        },
{
    reveal_strlit("\n… (truncated)");
    if output.len() > limit && limit >= 14 {
        let reply = control::cut_reply(output, limit);
        assert(reply.take(limit - 14) =~= output.take(limit - 14));
        assert(reply.skip(limit - 14) =~= "\n… (truncated)"@);
    }
}

/// A name in kebab case is the name in small letters with a dash before each capital
/// but the first character.
pub proof fn a_label_is_the_name_in_small_letters(name: Seq<char>)
    requires
        forall|i: int| 0 <= i < name.len() ==> #[trigger] name[i] != '-',
    ensures
        session::kebab(name).filter(|c: char| c != '-') == Seq::new(
            name.len(),
            |i: int| text::ascii_lower(name[i]),
        ),
        forall|i: int|
            0 <= i < session::kebab(name).len() ==> !('A' <= (#[trigger] session::kebab(name)[i])
                && session::kebab(name)[i] <= 'Z'),
    decreases name.len(),
{
    reveal(Seq::filter);
    let kept = |c: char| c != '-';
    if name.len() > 0 {
        let head = name.drop_last();
        let c = name.last();
        a_label_is_the_name_in_small_letters(head);
        let before = session::kebab(head);
        let lowered = Seq::new(head.len(), |i: int| text::ascii_lower(head[i]));
        assert(name[name.len() - 1] != '-');
        assert(text::ascii_lower(c) != '-');
        let dashed = before.push('-');
        assert(dashed.drop_last() =~= before);
        assert(dashed.filter(kept) =~= before.filter(kept));
        let all = session::kebab(name);
        assert(all.last() == text::ascii_lower(c));
        assert(all.drop_last() =~= before || all.drop_last() =~= dashed);
        assert(all.filter(kept) =~= lowered.push(text::ascii_lower(c)));
        assert(lowered.push(text::ascii_lower(c)) =~= Seq::new(
            name.len(),
            |i: int| text::ascii_lower(name[i]),
        ));
        assert forall|i: int| 0 <= i < all.len() implies !('A' <= (#[trigger] all[i]) && all[i]
            <= 'Z') by {
            if i < before.len() {
                assert(all[i] == before[i]);
            }
        }
    } else {
        assert(session::kebab(name).filter(kept) =~= Seq::<char>::empty());
    }
}

/// The webhook that is found bears the wanted name, no earlier one does, and one is found
/// wherever there is one.
pub proof fn the_named_webhook_is_found(names: Seq<Option<String>>, wanted: Seq<char>)
    ensures
        ({
            let at = seqs::first_where(names, webhook::is_named(wanted));
            &&& 0 <= at <= names.len()
            &&& at < names.len() ==> (names[at] matches Some(name) && name@ == wanted)
            &&& forall|i: int|
                0 <= i < at ==> !((#[trigger] names[i]) matches Some(name) && name@ == wanted)
        }),
{
    let named = webhook::is_named(wanted);
    seqs::lemma_first_where(names, named);
    let at = seqs::first_where(names, named);
    if at < names.len() {
        assert(named(names[at]));
    }
    assert forall|i: int| 0 <= i < at implies !((#[trigger] names[i]) matches Some(name) && name@
        == wanted) by {
        assert(!named(names[i]));
    }
}

/// What is shown of a stored session is what is stored of it.
pub proof fn a_stored_session_is_shown_as_stored(row: RowView, model: Option<Seq<char>>)
    ensures
        ({
            let shown = MetadataView::of_row(row, model);
            &&& shown.agent_key == row.agent_key
            &&& shown.project_path == row.project_path
            &&& shown.session_id == row.session_id
            &&& shown.title is None
            &&& shown.model == model
        }),
{
}

/// An imported session runs in the canonical form of its directory where it has one,
/// and in the directory that the agent reported otherwise.
pub proof fn an_imported_session_runs_in_its_directory(
    imported: ListedView,
    canonical: Option<Seq<char>>,
)
    ensures
        canonical matches Some(path) ==> posts::imported_path(imported, canonical) == path,
        canonical is None ==> posts::imported_path(imported, canonical) == imported.project_path,
{
}

} // verus!
