//! Discord forum primitives for session creation and import.

use vstd::prelude::*;

use crate::acp::options;
use crate::acp::protocol::NewSession;
use crate::config::{AgentKey, AgentView, Agents, EmojiView, TagEmoji};
use crate::db::{RowView, SessionRow};
use crate::error::{BotError, BotResult};
use crate::ids::{ChannelId, EmojiId, ForumTagId};
use crate::numbers;
use crate::paths;
use crate::seqs;
use crate::text;

verus! {

/// Discord's maximum forum post title length.
pub const FORUM_TITLE_LIMIT: usize = 100;

/// ACP metadata needed to create the Discord binding.
#[derive(Clone, Debug)]
pub struct SessionMetadata {
    /// Configured agent key used for the forum tag.
    pub agent_key: AgentKey,
    /// Session working directory used in the forum title.
    pub project_path: String,
    /// Agent-owned ACP session identifier.
    pub session_id: String,
    /// Optional agent-provided title, used in the forum title.
    pub title: Option<String>,
    /// Current ACP model shown in the starter message; not persisted locally.
    pub model: Option<String>,
}

/// The content of session metadata.
pub ghost struct MetadataView {
    pub agent_key: Seq<char>,
    pub project_path: Seq<char>,
    pub session_id: Seq<char>,
    pub title: Option<Seq<char>>,
    pub model: Option<Seq<char>>,
}

impl View for SessionMetadata {
    type V = MetadataView;

    open spec fn view(&self) -> MetadataView {
        MetadataView {
            agent_key: self.agent_key@,
            project_path: self.project_path@,
            session_id: self.session_id@,
            title: text::opt_text(self.title),
            model: text::opt_text(self.model),
        }
    }
}

/// A text that is safe inside an inline code span: without backticks and line
/// breaks.
pub open spec fn escaped(value: Seq<char>) -> Seq<char> {
    text::replaced(text::replaced(text::replaced(value, '`', 'ˋ'), '\n', ' '), '\r', ' ')
}

/// Escapes values embedded in inline Markdown code spans.
pub fn escape_inline(value: &str) -> (result: String)
    ensures
        result@ == escaped(value@),
{
    let quoted = text::replace_char(value, '`', 'ˋ');
    let line = text::replace_char(quoted.as_str(), '\n', ' ');
    text::replace_char(line.as_str(), '\r', ' ')
}

/// An escaped text neither ends its code span nor its line.
pub proof fn an_escaped_text_stays_inline(value: Seq<char>)
    ensures
        escaped(value).len() == value.len(),
        forall|i: int|
            0 <= i < value.len() ==> (#[trigger] escaped(value)[i]) != '`' && escaped(value)[i]
                != '\n' && escaped(value)[i] != '\r',
{
}

impl MetadataView {
    /// What is shown of the session in its title.
    pub open spec fn shown_title(self) -> Seq<char> {
        match self.title {
            Some(title) if !text::is_blank(title) => title,
            _ => "session "@ + self.session_id,
        }
    }

    /// The forum title, given the user's home directory.
    pub open spec fn post_title(self, home: Option<Seq<char>>) -> Seq<char> {
        text::ellipsized(
            text::trimmed(
                text::without_controls(
                    paths::shortened_home(self.project_path, home) + " · "@ + self.shown_title(),
                ),
            ),
            FORUM_TITLE_LIMIT as nat,
        )
    }

    /// The starter message of the session's post.
    pub open spec fn starter(self) -> Seq<char> {
        let model = match self.model {
            Some(model) => " · model `"@ + escaped(model) + "`"@,
            None => Seq::empty(),
        };
        "session `"@ + escaped(self.session_id) + "`"@ + model
    }

    /// The metadata of a persisted session.
    pub open spec fn of_row(row: RowView, model: Option<Seq<char>>) -> MetadataView {
        MetadataView {
            agent_key: row.agent_key,
            project_path: row.project_path,
            session_id: row.session_id,
            title: None,
            model,
        }
    }
}

impl SessionMetadata {
    /// Builds display metadata from a persisted session binding.
    pub fn from_row(row: &SessionRow, model: Option<&str>) -> (metadata: SessionMetadata)
        ensures
            metadata@ == MetadataView::of_row(row@, text::opt_str(model)),
    {
        SessionMetadata {
            agent_key: row.agent_key.copy(),
            project_path: text::copy(row.project_path.as_str()),
            session_id: text::copy(row.session_id.as_str()),
            title: None,
            model: match model {
                Some(model) => Some(text::copy(model)),
                None => None,
            },
        }
    }

    /// Builds the metadata of a session that was just created.
    pub fn of_new(agent_key: &AgentKey, project_path: &str, created: &NewSession) -> (metadata:
        SessionMetadata)
        ensures
            metadata@ == (MetadataView {
                agent_key: agent_key@,
                project_path: project_path@,
                session_id: created.session_id@,
                title: None,
                model: options::current_model(created.config_options@),
            }),
    {
        SessionMetadata {
            agent_key: agent_key.copy(),
            project_path: text::copy(project_path),
            session_id: text::copy(created.session_id.as_str()),
            title: None,
            model: options::default_model(&created.config_options),
        }
    }

    /// Builds a bounded forum title from this session's metadata and a given home
    /// directory.
    pub fn post_title_in(&self, home: &Option<String>) -> (title: String)
        ensures
            title@ == self@.post_title(text::opt_text(*home)),
    {
        let fallback = text::join2("session ", self.session_id.as_str());
        let shown = match &self.title {
            Some(title) => if text::blank(title.as_str()) {
                fallback.as_str()
            } else {
                title.as_str()
            },
            None => fallback.as_str(),
        };
        let project_path = paths::shorten_home_in(self.project_path.as_str(), home);
        let raw = text::join3(project_path.as_str(), " · ", shown);
        let clean = text::blank_controls(raw.as_str());
        text::truncate_end(text::trim(clean.as_str()).as_str(), FORUM_TITLE_LIMIT)
    }

    /// Builds a bounded forum title from this session's metadata. The home
    /// directory is the current user's.
    pub fn post_title(&self) -> (title: String)
        ensures
            exists|home: Option<Seq<char>>| title@ == #[trigger] self@.post_title(home),
    {
        let home = paths::home_dir();
        let title = self.post_title_in(&home);
        assert(title@ == self@.post_title(text::opt_text(home)));
        title
    }

    /// Renders the immutable starter message for this session post.
    pub fn starter_message(&self) -> (message: String)
        ensures
            message@ == self@.starter(),
    {
        let model = match &self.model {
            Some(model) => text::join3(" · model `", escape_inline(model.as_str()).as_str(), "`"),
            None => String::new(),
        };
        text::join4(
            "session `",
            escape_inline(self.session_id.as_str()).as_str(),
            "`",
            model.as_str(),
        )
    }
}

/// A forum title fits Discord.
pub proof fn a_post_title_fits_discord(metadata: MetadataView, home: Option<Seq<char>>)
    ensures
        metadata.post_title(home).len() <= FORUM_TITLE_LIMIT,
{
}

/// Decides whether the first message of a session's thread is edited: where it
/// exists and does not show the session as it is now.
pub fn update_session_starter(row: &SessionRow, model: Option<&str>, first: Option<&str>) -> (edit:
    Option<String>)
    ensures
        text::opt_text(edit) == {
            let wanted = MetadataView::of_row(row@, text::opt_str(model)).starter();
            match first {
                Some(shown) if shown@ != wanted => Some(wanted),
                _ => None,
            }
        },
{
    let metadata = SessionMetadata::from_row(row, model);
    let wanted = metadata.starter_message();
    match first {
        Some(shown) => if text::same(shown, wanted.as_str()) {
            None
        } else {
            Some(wanted)
        },
        None => None,
    }
}

/// Checks the kind of the configured Discord channel.
pub fn forum_channel(forum: ChannelId, is_forum: bool) -> (result: BotResult)
    ensures
        match result {
            Ok(_) => is_forum,
            Err(error) => !is_forum && (error matches BotError::ForumChannelRequired { channel }
                && channel@ == numbers::decimal(forum.0 as nat)),
        },
{
    if is_forum {
        Ok(())
    } else {
        Err(BotError::ForumChannelRequired { channel: numbers::format_u64(forum.0) })
    }
}

/// Emoji of an existing forum tag.
#[derive(Clone, Debug)]
pub enum ForumEmoji {
    /// A custom emoji.
    Id(EmojiId),
    /// A Unicode emoji.
    Name(String),
    /// An emoji of another kind.
    Other,
}

/// An existing forum tag.
#[derive(Clone, Debug)]
pub struct ForumTag {
    /// Identifies the tag.
    pub id: ForumTagId,
    /// Name of the tag.
    pub name: String,
    /// Whether only moderators may apply the tag.
    pub moderated: bool,
    /// Emoji of the tag, if any.
    pub emoji: Option<ForumEmoji>,
}

/// A tag as it is sent to Discord.
#[derive(Clone, Debug)]
pub struct CreateForumTag {
    /// Name of the tag.
    pub name: String,
    /// Whether only moderators may apply the tag.
    pub moderated: bool,
    /// Emoji of the tag, if any.
    pub emoji: Option<TagEmoji>,
}

/// The content of a tag that is sent to Discord.
pub ghost struct NewTagView {
    pub name: Seq<char>,
    pub moderated: bool,
    pub emoji: Option<EmojiView>,
}

impl View for CreateForumTag {
    type V = NewTagView;

    open spec fn view(&self) -> NewTagView {
        NewTagView {
            name: self.name@,
            moderated: self.moderated,
            emoji: match self.emoji {
                Some(emoji) => Some(emoji@),
                None => None,
            },
        }
    }
}

/// A comparable key for the emoji of an existing tag.
pub open spec fn emoji_key_of(emoji: Option<ForumEmoji>) -> Seq<char> {
    match emoji {
        Some(ForumEmoji::Id(id)) => "id:"@ + numbers::decimal(id.0 as nat),
        Some(ForumEmoji::Name(name)) => "unicode:"@ + name@,
        Some(ForumEmoji::Other) => "unknown"@,
        None => "none"@,
    }
}

/// A comparable key for a configured emoji.
pub open spec fn configured_key_of(emoji: EmojiView) -> Seq<char> {
    match emoji {
        EmojiView::Unicode(value) => "unicode:"@ + value,
        EmojiView::Custom(id, _) => "id:"@ + numbers::decimal(id.0 as nat),
    }
}

/// Produces a comparable key for an existing Discord forum emoji.
pub fn emoji_key(emoji: &Option<ForumEmoji>) -> (key: String)
    ensures
        key@ == emoji_key_of(*emoji),
{
    match emoji {
        Some(ForumEmoji::Id(id)) => text::join2("id:", numbers::format_u64(id.0).as_str()),
        Some(ForumEmoji::Name(name)) => text::join2("unicode:", name.as_str()),
        Some(ForumEmoji::Other) => text::copy("unknown"),
        None => text::copy("none"),
    }
}

/// Produces a comparable key for a configured forum emoji.
pub fn configured_emoji_key(emoji: &TagEmoji) -> (key: String)
    ensures
        key@ == configured_key_of(emoji@),
{
    match emoji {
        TagEmoji::Unicode(value) => text::join2("unicode:", value.as_str()),
        TagEmoji::Custom { id, .. } => text::join2("id:", numbers::format_u64(id.0).as_str()),
    }
}

/// An existing tag as it is sent to Discord again.
pub open spec fn kept_tag(tag: ForumTag) -> NewTagView {
    NewTagView {
        name: tag.name@,
        moderated: tag.moderated,
        emoji: match tag.emoji {
            Some(ForumEmoji::Id(id)) => Some(EmojiView::Custom(id, false)),
            Some(ForumEmoji::Name(name)) => Some(EmojiView::Unicode(name@)),
            _ => None,
        },
    }
}

/// Copies an existing forum tag while preserving its moderation and emoji.
pub fn copy_tag(tag: &ForumTag) -> (created: CreateForumTag)
    ensures
        created@ == kept_tag(*tag),
{
    CreateForumTag {
        name: text::copy(tag.name.as_str()),
        moderated: tag.moderated,
        emoji: match &tag.emoji {
            Some(ForumEmoji::Id(id)) => Some(TagEmoji::Custom { id: *id, animated: false }),
            Some(ForumEmoji::Name(name)) => Some(TagEmoji::Unicode(text::copy(name.as_str()))),
            _ => None,
        },
    }
}

/// A tag that shows an agent: with its key as the name, and its emoji.
pub open spec fn shows(key: Seq<char>, emoji: EmojiView) -> spec_fn(ForumTag) -> bool {
    |tag: ForumTag| tag.name@ == key && emoji_key_of(tag.emoji) == configured_key_of(emoji)
}

/// The tag that an agent should have: the one that shows it, or a new one.
pub open spec fn desired_tag(tags: Seq<ForumTag>, agent: (Seq<char>, AgentView)) -> NewTagView {
    let at = seqs::first_where(tags, shows(agent.0, agent.1.emoji));
    if at < tags.len() {
        kept_tag(tags[at])
    } else {
        NewTagView { name: agent.0, moderated: false, emoji: Some(agent.1.emoji) }
    }
}

/// The tags that a forum should have: one per agent, in the order of the agents.
pub open spec fn desired_tags(tags: Seq<ForumTag>, agents: Seq<(Seq<char>, AgentView)>) -> Seq<
    NewTagView,
> {
    agents.map_values(|agent: (Seq<char>, AgentView)| desired_tag(tags, agent))
}

/// Every agent has its tag and no other tag exists.
pub open spec fn tags_current(tags: Seq<ForumTag>, agents: Seq<(Seq<char>, AgentView)>) -> bool {
    &&& tags.len() == agents.len()
    &&& forall|i: int|
        0 <= i < agents.len() ==> seqs::first_where(
            tags,
            shows((#[trigger] agents[i]).0, agents[i].1.emoji),
        ) < tags.len()
}

/// The content of tags that are sent to Discord.
pub open spec fn tag_views(tags: Seq<CreateForumTag>) -> Seq<NewTagView> {
    tags.map_values(|tag: CreateForumTag| tag@)
}

fn find_tag(tags: &Vec<ForumTag>, key: &str, emoji: &TagEmoji) -> (at: usize)
    ensures
        at == seqs::first_where(tags@, shows(key@, emoji@)),
        at <= tags@.len(),
{
    let ghost wanted = shows(key@, emoji@);
    let wanted_key = configured_emoji_key(emoji);
    let mut at: usize = 0;
    while at < tags.len()
        invariant
            at <= tags@.len(),
            wanted == shows(key@, emoji@),
            wanted_key@ == configured_key_of(emoji@),
            forall|i: int| 0 <= i < at ==> !wanted(#[trigger] tags@[i]),
        decreases tags@.len() - at,
    {
        if text::same(tags[at].name.as_str(), key) && text::same(
            emoji_key(&tags[at].emoji).as_str(),
            wanted_key.as_str(),
        ) {
            proof {
                seqs::lemma_first_where_is(tags@, wanted, at as int);
            }
            return at;
        }
        at += 1;
    }
    proof {
        seqs::lemma_first_where_is(tags@, wanted, at as int);
    }
    at
}

/// What the tags of the configured forum need.
pub struct TagPlan {
    /// Tags to set, where those of the forum are not current.
    pub update: Option<Vec<CreateForumTag>>,
}

/// Compares the tags of the configured forum with the configured agents: unless
/// every agent has its tag and no other tag exists, the tags are set anew.
pub fn plan_tags(tags: &Vec<ForumTag>, agents: &Agents) -> (plan: TagPlan)
    ensures
        match plan.update {
            Some(desired) => !tags_current(tags@, agents@) && tag_views(desired@) == desired_tags(
                tags@,
                agents@,
            ),
            None => tags_current(tags@, agents@),
        },
{
    let ghost all = agents@;
    let mut desired: Vec<CreateForumTag> = Vec::new();
    let mut current = tags.len() == agents.len();
    let mut i: usize = 0;
    assert(tag_views(desired@) =~= desired_tags(tags@, all).take(0));
    while i < agents.len()
        invariant
            i <= all.len(),
            all == agents@,
            tag_views(desired@) == desired_tags(tags@, all).take(i as int),
            current == (tags@.len() == all.len() && forall|j: int|
                0 <= j < i ==> seqs::first_where(
                    tags@,
                    shows((#[trigger] all[j]).0, all[j].1.emoji),
                ) < tags@.len()),
        decreases all.len() - i,
    {
        if let (Some(key), Some(agent)) = (agents.key_at(i), agents.agent_at(i)) {
            let ghost before = tag_views(desired@);
            let at = find_tag(tags, key.as_str(), &agent.emoji);
            assert(all[i as int].0 == key@ && all[i as int].1.emoji == agent.emoji@);
            let tag = if at < tags.len() {
                copy_tag(&tags[at])
            } else {
                current = false;
                CreateForumTag {
                    name: text::copy(key.as_str()),
                    moderated: false,
                    emoji: Some(agent.emoji.copy()),
                }
            };
            assert(tag@ == desired_tag(tags@, all[i as int]));
            desired.push(tag);
            assert(tag_views(desired@) =~= before.push(desired_tag(tags@, all[i as int])));
            assert(desired_tags(tags@, all).take(i + 1) =~= desired_tags(tags@, all).take(
                i as int,
            ).push(desired_tag(tags@, all[i as int])));
        }
        i += 1;
    }
    assert(desired_tags(tags@, all).take(i as int) =~= desired_tags(tags@, all));
    TagPlan {
        update: if current {
            None
        } else {
            Some(desired)
        },
    }
}

/// A tag on the forum is what was sent to Discord.
pub open spec fn is_applied(tag: ForumTag, sent: NewTagView) -> bool {
    tag.name@ == sent.name && tag.moderated == sent.moderated && match sent.emoji {
        Some(EmojiView::Unicode(value)) => tag.emoji matches Some(ForumEmoji::Name(name)) && name@
            == value,
        Some(EmojiView::Custom(id, _)) => tag.emoji == Some(ForumEmoji::Id(id)),
        None => tag.emoji is None,
    }
}

proof fn lemma_configured_key(emoji: EmojiView)
    ensures
        configured_key_of(emoji) != "none"@,
        configured_key_of(emoji) != "unknown"@,
{
    reveal_strlit("none");
    reveal_strlit("unknown");
    reveal_strlit("unicode:");
    reveal_strlit("id:");
    let key = configured_key_of(emoji);
    assert(key[0] == 'u' || key[0] == 'i');
    assert(key[0] == 'u' ==> key[2] == 'i');
    assert("none"@[0] == 'n' && "unknown"@[0] == 'u' && "unknown"@[2] == 'k');
}

/// Once the desired tags are on the forum they need no further change.
pub proof fn desired_tags_settle(
    tags: Seq<ForumTag>,
    agents: Seq<(Seq<char>, AgentView)>,
    applied: Seq<ForumTag>,
)
    requires
        applied.len() == agents.len(),
        forall|i: int|
            0 <= i < agents.len() ==> is_applied(
                #[trigger] applied[i],
                desired_tags(tags, agents)[i],
            ),
    ensures
        tags_current(applied, agents),
{
    assert forall|i: int| 0 <= i < agents.len() implies seqs::first_where(
        applied,
        shows((#[trigger] agents[i]).0, agents[i].1.emoji),
    ) < applied.len() by {
        let wanted = shows(agents[i].0, agents[i].1.emoji);
        let at = seqs::first_where(tags, wanted);
        seqs::lemma_first_where(tags, wanted);
        assert(is_applied(applied[i], desired_tags(tags, agents)[i]));
        lemma_configured_key(agents[i].1.emoji);
        assert(wanted(applied[i]));
        seqs::lemma_first_where(applied, wanted);
    }
}

/// Tags with a name.
pub open spec fn tag_named(name: Seq<char>) -> spec_fn(ForumTag) -> bool {
    |tag: ForumTag| tag.name@ == name
}

/// The tag of each agent that has one, by the agents' keys.
pub open spec fn agent_tags(tags: Seq<ForumTag>, agents: Seq<(Seq<char>, AgentView)>) -> Seq<
    (Seq<char>, ForumTagId),
>
    decreases agents.len(),
{
    if agents.len() == 0 {
        Seq::empty()
    } else {
        let before = agent_tags(tags, agents.drop_last());
        let at = seqs::first_where(tags, tag_named(agents.last().0));
        if at < tags.len() {
            before.push((agents.last().0, tags[at].id))
        } else {
            before
        }
    }
}

/// The content of a list of tags by agent.
pub open spec fn tag_id_views(tags: Seq<(AgentKey, ForumTagId)>) -> Seq<(Seq<char>, ForumTagId)> {
    tags.map_values(|tag: (AgentKey, ForumTagId)| (tag.0@, tag.1))
}

/// Finds the tag of every configured agent.
pub fn tag_ids(tags: &Vec<ForumTag>, agents: &Agents) -> (ids: Vec<(AgentKey, ForumTagId)>)
    ensures
        tag_id_views(ids@) == agent_tags(tags@, agents@),
{
    let ghost all = agents@;
    let mut ids: Vec<(AgentKey, ForumTagId)> = Vec::new();
    let mut i: usize = 0;
    assert(tag_id_views(ids@) =~= agent_tags(tags@, all.take(0)));
    while i < agents.len()
        invariant
            i <= all.len(),
            all == agents@,
            tag_id_views(ids@) == agent_tags(tags@, all.take(i as int)),
        decreases all.len() - i,
    {
        let ghost before = tag_id_views(ids@);
        assert(all.take(i + 1).drop_last() =~= all.take(i as int));
        if let Some(key) = agents.key_at(i) {
            let ghost wanted = tag_named(key@);
            let mut at: usize = 0;
            while at < tags.len() && !text::same(tags[at].name.as_str(), key.as_str())
                invariant
                    at <= tags@.len(),
                    wanted == tag_named(key@),
                    forall|j: int| 0 <= j < at ==> !wanted(#[trigger] tags@[j]),
                decreases tags@.len() - at,
            {
                at += 1;
            }
            proof {
                seqs::lemma_first_where_is(tags@, wanted, at as int);
            }
            if at < tags.len() {
                ids.push((key.copy(), tags[at].id));
                assert(tag_id_views(ids@) =~= before.push((key@, tags@[at as int].id)));
            }
        }
        i += 1;
    }
    assert(all.take(i as int) =~= all);
    ids
}

/// Tags of an agent.
pub open spec fn tag_of(key: Seq<char>) -> spec_fn((Seq<char>, ForumTagId)) -> bool {
    |tag: (Seq<char>, ForumTagId)| tag.0 == key
}

/// The tag that a session gets, `None` where its agent has none.
pub open spec fn session_tag(tags: Seq<(Seq<char>, ForumTagId)>, key: Seq<char>) -> Option<
    ForumTagId,
> {
    let at = seqs::first_where(tags, tag_of(key));
    if at < tags.len() {
        Some(tags[at].1)
    } else {
        None
    }
}

/// Finds the tag that a session gets.
pub fn find_session_tag(tags: &Vec<(AgentKey, ForumTagId)>, key: &AgentKey) -> (result: BotResult<
    ForumTagId,
>)
    ensures
        match result {
            Ok(tag) => session_tag(tag_id_views(tags@), key@) == Some(tag),
            Err(error) => session_tag(tag_id_views(tags@), key@) is None && (
            error matches BotError::MissingForumTag { agent_key } && agent_key@ == key@),
        },
{
    let ghost all = tag_id_views(tags@);
    let ghost wanted = tag_of(key@);
    let mut at: usize = 0;
    while at < tags.len()
        invariant
            at <= tags@.len(),
            all == tag_id_views(tags@),
            all.len() == tags@.len(),
            wanted == tag_of(key@),
            forall|j: int| 0 <= j < at ==> !wanted(#[trigger] all[j]),
        decreases tags@.len() - at,
    {
        assert(all[at as int] == (tags@[at as int].0@, tags@[at as int].1));
        if text::same(tags[at].0.as_str(), key.as_str()) {
            proof {
                seqs::lemma_first_where_is(all, wanted, at as int);
            }
            return Ok(tags[at].1);
        }
        at += 1;
    }
    proof {
        seqs::lemma_first_where_is(all, wanted, at as int);
    }
    Err(BotError::MissingForumTag { agent_key: text::copy(key.as_str()) })
}

} // verus!
