//! Forum tag management: the managed tag set (statuses and harnesses), its
//! reconciliation onto a forum channel, and the metadata writes that apply tags
//! (plus title and archive state) to a session post.

use vstd::prelude::*;

use crate::discord::forum::{ForumEmoji, ForumTag};
use crate::herdr::model::AgentStatus;
use crate::ids::ForumTagId;
use crate::seqs;
use crate::session;
use crate::session::Harness;
use crate::text;

verus! {

/// Emoji for harness tags.
pub const HARNESS_EMOJI: &'static str = "🤖";

/// The emoji of a status tag.
pub open spec fn emoji_of(status: AgentStatus) -> Seq<char> {
    match status {
        AgentStatus::Idle => "⚪"@,
        AgentStatus::Working => "🟡"@,
        AgentStatus::Blocked => "🔴"@,
        AgentStatus::Done => "🟢"@,
        AgentStatus::Unknown => "⚫"@,
    }
}

/// The statuses that have a tag, in order.
pub open spec fn tag_statuses() -> Seq<AgentStatus> {
    seq![
        AgentStatus::Idle,
        AgentStatus::Working,
        AgentStatus::Blocked,
        AgentStatus::Done,
        AgentStatus::Unknown,
    ]
}

/// The managed tags of a forum, by name and emoji: one for each status, then one
/// for each harness. Discord allows at most 20 tags per forum channel.
pub open spec fn managed() -> Seq<(Seq<char>, Seq<char>)> {
    tag_statuses().map_values(|status: AgentStatus| (status.name(), emoji_of(status)))
        + Harness::every().map_values(|harness: Harness| (harness.label(), HARNESS_EMOJI@))
}

/// A tag by name and emoji.
pub struct WantedTag {
    /// Name of the tag.
    pub name: String,
    /// Unicode emoji of the tag.
    pub emoji: &'static str,
}

/// The content of wanted tags.
pub open spec fn wanted_views(tags: Seq<WantedTag>) -> Seq<(Seq<char>, Seq<char>)> {
    tags.map_values(|tag: WantedTag| (tag.name@, tag.emoji@))
}

fn status_emoji(status: AgentStatus) -> (emoji: &'static str)
    ensures
        emoji@ == emoji_of(status),
{
    match status {
        AgentStatus::Idle => "⚪",
        AgentStatus::Working => "🟡",
        AgentStatus::Blocked => "🔴",
        AgentStatus::Done => "🟢",
        AgentStatus::Unknown => "⚫",
    }
}

fn status_tag(status: AgentStatus) -> (tag: WantedTag)
    ensures
        tag.name@ == status.name(),
        tag.emoji@ == emoji_of(status),
{
    WantedTag { name: text::copy(status.as_str()), emoji: status_emoji(status) }
}

fn harness_tag(harness: Harness) -> (tag: WantedTag)
    ensures
        tag.name@ == harness.label(),
        tag.emoji@ == HARNESS_EMOJI@,
{
    WantedTag { name: harness.to_label(), emoji: HARNESS_EMOJI }
}

/// Returns the managed tags of a forum: the lifecycle statuses and every harness,
/// with their canonical emojis.
pub fn managed_tags() -> (tags: Vec<WantedTag>)
    ensures
        wanted_views(tags@) == managed(),
        tags@.len() <= 20,
{
    let tags = vec![
        status_tag(AgentStatus::Idle),
        status_tag(AgentStatus::Working),
        status_tag(AgentStatus::Blocked),
        status_tag(AgentStatus::Done),
        status_tag(AgentStatus::Unknown),
        harness_tag(Harness::Omp),
        harness_tag(Harness::ClaudeCode),
        harness_tag(Harness::Codex),
        harness_tag(Harness::Pi),
        harness_tag(Harness::Opencode),
    ];
    assert(wanted_views(tags@) =~= managed());
    tags
}

/// The unicode emoji of a forum tag, empty where it uses none.
pub open spec fn shown_emoji(tag: ForumTag) -> Seq<char> {
    match tag.emoji {
        Some(ForumEmoji::Name(name)) => name@,
        _ => Seq::empty(),
    }
}

/// Returns the unicode emoji of a forum tag, when it uses one.
pub fn tag_emoji(tag: &ForumTag) -> (emoji: String)
    ensures
        emoji@ == shown_emoji(*tag),
{
    match &tag.emoji {
        Some(ForumEmoji::Name(name)) => text::copy(name.as_str()),
        _ => String::new(),
    }
}

/// A forum tag by name and emoji.
pub open spec fn shown(tag: ForumTag) -> (Seq<char>, Seq<char>) {
    (tag.name@, shown_emoji(tag))
}

/// Forum tags by name and emoji.
pub open spec fn shown_all(tags: Seq<ForumTag>) -> Seq<(Seq<char>, Seq<char>)> {
    tags.map_values(|tag: ForumTag| shown(tag))
}

/// Two lists hold the same items.
pub open spec fn same_items<T>(left: Seq<T>, right: Seq<T>) -> bool {
    forall|item: T| #[trigger] left.contains(item) <==> right.contains(item)
}

fn is_managed(tag: &ForumTag) -> (result: bool)
    ensures
        result == managed().contains(shown(*tag)),
{
    let wanted = managed_tags();
    let emoji = tag_emoji(tag);
    let ghost views = wanted_views(wanted@);
    let mut i: usize = 0;
    while i < wanted.len()
        invariant
            i <= wanted@.len(),
            views == wanted_views(wanted@),
            views == managed(),
            emoji@ == shown_emoji(*tag),
            forall|j: int| 0 <= j < i ==> #[trigger] views[j] != shown(*tag),
        decreases wanted@.len() - i,
    {
        assert(views[i as int] == (wanted@[i as int].name@, wanted@[i as int].emoji@));
        if text::same(wanted[i].name.as_str(), tag.name.as_str()) && text::same(
            wanted[i].emoji,
            emoji.as_str(),
        ) {
            assert(views[i as int] == shown(*tag));
            return true;
        }
        i += 1;
    }
    false
}

fn has_tag(tags: &Vec<ForumTag>, wanted: &WantedTag) -> (result: bool)
    ensures
        result == shown_all(tags@).contains((wanted.name@, wanted.emoji@)),
{
    let ghost views = shown_all(tags@);
    let mut i: usize = 0;
    while i < tags.len()
        invariant
            i <= tags@.len(),
            views == shown_all(tags@),
            forall|j: int|
                0 <= j < i ==> #[trigger] views[j] != (wanted.name@, wanted.emoji@),
        decreases tags@.len() - i,
    {
        assert(views[i as int] == shown(tags@[i as int]));
        let emoji = tag_emoji(&tags[i]);
        if text::same(tags[i].name.as_str(), wanted.name.as_str()) && text::same(
            emoji.as_str(),
            wanted.emoji,
        ) {
            assert(views[i as int] == (wanted.name@, wanted.emoji@));
            return true;
        }
        i += 1;
    }
    false
}

/// Decides whether a forum's tag list is replaced: when it differs from the
/// managed tags. Missing tags are created and any tag this bot does not manage is
/// dropped, so a forum's tags are exactly the bot's.
pub fn replaces_tags(tags: &Vec<ForumTag>) -> (replaces: bool)
    ensures
        replaces == !same_items(shown_all(tags@), managed()),
{
    let ghost current = shown_all(tags@);
    let mut i: usize = 0;
    while i < tags.len()
        invariant
            i <= tags@.len(),
            current == shown_all(tags@),
            forall|j: int| 0 <= j < i ==> managed().contains(#[trigger] current[j]),
        decreases tags@.len() - i,
    {
        assert(current[i as int] == shown(tags@[i as int]));
        if !is_managed(&tags[i]) {
            assert(current.contains(current[i as int]));
            return true;
        }
        i += 1;
    }
    let wanted = managed_tags();
    let mut k: usize = 0;
    while k < wanted.len()
        invariant
            k <= wanted@.len(),
            current == shown_all(tags@),
            wanted_views(wanted@) == managed(),
            forall|j: int| 0 <= j < k ==> current.contains(#[trigger] managed()[j]),
        decreases wanted@.len() - k,
    {
        assert(wanted_views(wanted@)[k as int] == (
            wanted@[k as int].name@,
            wanted@[k as int].emoji@,
        ));
        if !has_tag(tags, &wanted[k]) {
            assert(managed().contains(managed()[k as int]));
            return true;
        }
        k += 1;
    }
    proof {
        assert forall|item: (Seq<char>, Seq<char>)| #[trigger]
            current.contains(item) <==> managed().contains(item) by {
            if current.contains(item) {
                let j = choose|j: int| 0 <= j < current.len() && current[j] == item;
                assert(managed().contains(current[j]));
            }
            if managed().contains(item) {
                let j = choose|j: int| 0 <= j < managed().len() && managed()[j] == item;
                assert(current.contains(managed()[j]));
            }
        }
    }
    false
}

/// A forum whose tags were replaced by the managed ones is left alone.
pub proof fn managed_tags_settle(tags: Seq<ForumTag>)
    requires
        shown_all(tags) == managed(),
    ensures
        same_items(shown_all(tags), managed()),
{
}

/// Managed tags with a name.
pub open spec fn is_tag(name: Seq<char>) -> spec_fn(ForumTag) -> bool {
    |tag: ForumTag| tag.name@ == name && managed().contains(shown(tag))
}

/// The id of the managed tag with a name; of several, the last.
pub open spec fn tag_of(tags: Seq<ForumTag>, name: Seq<char>) -> Option<ForumTagId> {
    let at = seqs::last_where(tags, is_tag(name));
    if at >= 0 {
        Some(tags[at].id)
    } else {
        None
    }
}

/// Finds the id of the managed tag with a name.
pub fn tag_id(tags: &Vec<ForumTag>, name: &str) -> (id: Option<ForumTagId>)
    ensures
        id == tag_of(tags@, name@),
{
    let ghost wanted = is_tag(name@);
    let mut end: usize = tags.len();
    assert(tags@.take(end as int) =~= tags@);
    while end > 0
        invariant
            end <= tags@.len(),
            wanted == is_tag(name@),
            seqs::last_where(tags@.take(end as int), wanted) == seqs::last_where(tags@, wanted),
        decreases end,
    {
        let ghost left = tags@.take(end as int);
        assert(left.last() == tags@[end - 1]);
        assert(left.drop_last() =~= tags@.take(end - 1));
        let tag = &tags[end - 1];
        if text::same(tag.name.as_str(), name) && is_managed(tag) {
            return Some(tag.id);
        }
        end -= 1;
    }
    None
}

/// The tags among those asked for that exist, in order.
pub open spec fn applied_tags(first: Option<ForumTagId>, second: Option<ForumTagId>) -> Seq<ForumTagId> {
    match (first, second) {
        (Some(first), Some(second)) => seq![first, second],
        (Some(first), None) => seq![first],
        (None, Some(second)) => seq![second],
        (None, None) => Seq::empty(),
    }
}

/// The tag of a harness, where there is one.
pub open spec fn harness_tag_of(tags: Seq<ForumTag>, harness: Option<Harness>) -> Option<ForumTagId> {
    match harness {
        Some(harness) => tag_of(tags, harness.label()),
        None => None,
    }
}

fn find_harness_tag(tags: &Vec<ForumTag>, harness: Option<Harness>) -> (id: Option<ForumTagId>)
    ensures
        id == harness_tag_of(tags@, harness),
{
    match harness {
        Some(harness) => tag_id(tags, harness.to_label().as_str()),
        None => None,
    }
}

/// What is known of a post's thread.
pub struct ThreadState {
    /// Whether the thread is archived.
    pub archived: bool,
    /// Name of the thread.
    pub name: String,
}

/// A change of a post's thread.
pub struct PostEdit {
    /// Tags to apply.
    pub applied: Vec<ForumTagId>,
    /// Whether the thread is to be unarchived.
    pub unarchive: bool,
    /// New name of the thread, if any.
    pub name: Option<String>,
}

/// Makes the change that applies `harness` and `status` tags and the post title to
/// a session post and reopens it: a live agent's post is always open, so an
/// archived thread is unarchived.
///
/// Tags are applied unconditionally — herdr is the truth, Discord mirrors it. The
/// title rename is skipped when it is unchanged: renaming the thread makes Discord
/// post a message into it, so identical renames would spam the thread. A thread of
/// unknown state is renamed and its archive state left alone.
pub fn update_post_metadata(
    tags: &Vec<ForumTag>,
    harness: Option<Harness>,
    status: AgentStatus,
    title: Option<&str>,
    thread: &Option<ThreadState>,
) -> (edit: PostEdit)
    ensures
        edit.applied@ == applied_tags(
            harness_tag_of(tags@, harness),
            tag_of(tags@, status.name()),
        ),
        match thread {
            Some(thread) => edit.unarchive == thread.archived && text::opt_text(edit.name)
                == match title {
                Some(title) => if title@ == thread.name@ {
                    None
                } else {
                    Some(title@)
                },
                None => None,
            },
            None => !edit.unarchive && text::opt_text(edit.name) == text::opt_str(title),
        },
{
    let mut applied: Vec<ForumTagId> = Vec::new();
    if let Some(id) = find_harness_tag(tags, harness) {
        applied.push(id);
    }
    if let Some(id) = tag_id(tags, status.as_str()) {
        applied.push(id);
    }
    assert(applied@ =~= applied_tags(
        harness_tag_of(tags@, harness),
        tag_of(tags@, status.name()),
    ));
    let (unarchive, name) = match thread {
        Some(thread) => (
            thread.archived,
            match title {
                Some(title) => if text::same(thread.name.as_str(), title) {
                    None
                } else {
                    Some(text::copy(title))
                },
                None => None,
            },
        ),
        None => (
            false,
            match title {
                Some(title) => Some(text::copy(title)),
                None => None,
            },
        ),
    };
    PostEdit { applied, unarchive, name }
}

/// Returns the tags of a dead session's post: only the harness tag; the status tag
/// is dropped.
pub fn dead_post_tags(tags: &Vec<ForumTag>, harness: Option<Harness>) -> (applied: Vec<ForumTagId>)
    ensures
        applied@ == applied_tags(harness_tag_of(tags@, harness), None),
{
    let mut applied: Vec<ForumTagId> = Vec::new();
    if let Some(id) = find_harness_tag(tags, harness) {
        applied.push(id);
    }
    assert(applied@ =~= applied_tags(harness_tag_of(tags@, harness), None));
    applied
}

/// Tags with an id.
pub open spec fn has_tag_id(id: ForumTagId) -> spec_fn(ForumTag) -> bool {
    |tag: ForumTag| tag.id == id
}

/// The name of the tag with an id.
pub open spec fn name_of_tag(tags: Seq<ForumTag>, id: ForumTagId) -> Option<Seq<char>> {
    let at = seqs::last_where(tags, has_tag_id(id));
    if at >= 0 {
        Some(tags[at].name@)
    } else {
        None
    }
}

/// Finds the name of the tag with an id among a forum's available tags.
pub fn tag_name(tags: &Vec<ForumTag>, id: ForumTagId) -> (name: Option<&str>)
    ensures
        text::opt_str(name) == name_of_tag(tags@, id),
{
    let ghost wanted = has_tag_id(id);
    let mut end: usize = tags.len();
    assert(tags@.take(end as int) =~= tags@);
    while end > 0
        invariant
            end <= tags@.len(),
            wanted == has_tag_id(id),
            seqs::last_where(tags@.take(end as int), wanted) == seqs::last_where(tags@, wanted),
        decreases end,
    {
        let ghost left = tags@.take(end as int);
        assert(left.last() == tags@[end - 1]);
        assert(left.drop_last() =~= tags@.take(end - 1));
        if tags[end - 1].id == id {
            return Some(tags[end - 1].name.as_str());
        }
        end -= 1;
    }
    None
}

/// An applied tag is that of a harness.
pub open spec fn is_harness_tag(tags: Seq<ForumTag>, id: ForumTagId, harness: Harness) -> bool {
    name_of_tag(tags, id) == Some(harness.label())
}

/// Finds the harness of the first harness tag applied to a post, if any — the
/// harness a dead session's thread keeps carrying.
pub fn applied_harness(applied: &Vec<ForumTagId>, tags: &Vec<ForumTag>) -> (found: Option<Harness>)
    ensures
        match found {
            Some(harness) => exists|i: int|
                0 <= i < applied@.len() && is_harness_tag(
                    tags@,
                    #[trigger] applied@[i],
                    harness,
                ) && forall|j: int, any: Harness|
                    0 <= j < i ==> !#[trigger] is_harness_tag(tags@, applied@[j], any),
            None => forall|i: int, any: Harness|
                0 <= i < applied@.len() ==> !#[trigger] is_harness_tag(tags@, applied@[i], any),
        },
{
    let mut i: usize = 0;
    while i < applied.len()
        invariant
            i <= applied@.len(),
            forall|j: int, any: Harness|
                0 <= j < i ==> !#[trigger] is_harness_tag(tags@, applied@[j], any),
        decreases applied@.len() - i,
    {
        if let Some(name) = tag_name(tags, applied[i]) {
            if let Some(harness) = Harness::parse(name) {
                assert(is_harness_tag(tags@, applied@[i as int], harness));
                return Some(harness);
            }
            assert(forall|any: Harness| name@ != #[trigger] any.label());
        }
        i += 1;
    }
    None
}

/// The tags a live post carries tell its harness again once it is dead: the
/// harness tag is found by its name, whatever else is applied.
pub proof fn a_harness_tag_names_its_harness(
    tags: Seq<ForumTag>,
    id: ForumTagId,
    left: Harness,
    right: Harness,
)
    requires
        is_harness_tag(tags, id, left),
        is_harness_tag(tags, id, right),
    ensures
        left == right,
{
    session::harness_labels_are_distinct(left, right);
}

} // verus!
