//! Ordered ACP updates projected into Discord messages.
//!
//! The reducer is independent of Discord and persistence. It accepts one
//! ordered update at a time and returns the complete projection for the
//! affected source. The Discord adapter then synchronizes message IDs and
//! persists the result.

use vstd::prelude::*;

use crate::db;
use crate::db::{ProjectionView, RenderProjection};
use crate::error::{BotError, BotResult};
use crate::ids::GenericChannelId;
use crate::json;
use crate::json::JsonView;
use crate::text;
use serde_json::Value;

verus! {

/// One block of ACP content.
#[derive(Clone, Debug)]
pub enum ContentBlock {
    /// Plain text or Markdown.
    Text(String),
    /// A link to a resource the agent can read.
    ResourceLink {
        /// Human-readable resource name.
        name: String,
        /// Resource location.
        uri: String,
    },
    /// An embedded resource in its serialized form, `None` where it has none.
    Resource(Option<Value>),
    /// An image.
    Image {
        /// Media type of the image.
        mime_type: String,
    },
    /// An audio recording.
    Audio {
        /// Media type of the recording.
        mime_type: String,
    },
    /// Content of a kind that is not rendered.
    Other,
}

/// One streamed chunk of a message.
#[derive(Clone, Debug)]
pub struct ContentChunk {
    /// Content of the chunk.
    pub content: ContentBlock,
    /// ACP message the chunk belongs to, where the agent names one.
    pub message_id: Option<String>,
}

/// One ACP session update, as far as it is projected into Discord.
#[derive(Clone, Debug)]
pub enum SessionUpdate {
    /// A chunk of a user message.
    UserMessageChunk(ContentChunk),
    /// A chunk of an agent message.
    AgentMessageChunk(ContentChunk),
    /// A chunk of the agent's internal reasoning.
    AgentThoughtChunk(ContentChunk),
    /// A new tool call.
    ToolCall {
        /// Identifies the tool call.
        tool_call_id: String,
        /// The serialized tool call.
        fields: Value,
    },
    /// A change of a tool call.
    ToolCallUpdate {
        /// Identifies the tool call.
        tool_call_id: String,
        /// The serialized update.
        fields: Value,
    },
    /// The agent's current plan in its serialized form.
    Plan(Value),
    /// An update without a Discord representation.
    Other,
}

/// An ACP update together with the Discord session it belongs to.
#[derive(Clone, Debug)]
pub struct ProjectionEvent {
    /// Discord forum thread receiving the update.
    pub thread_id: GenericChannelId,
    /// Prompt identifier used to key chunks without an ACP message ID.
    pub turn_id: String,
    /// Whether the update was emitted while replaying `session/load`.
    pub replay: bool,
    /// Original ACP session update.
    pub update: SessionUpdate,
}

/// Result of applying one update to a source projection.
#[derive(Clone, Debug, PartialEq, Eq)]
pub enum ProjectionOutcome {
    /// The update has no Discord representation in the current projection.
    Ignored,
    /// The source changed and should be synchronized with Discord.
    Updated(RenderProjection),
}

/// The source of a chunk: its ACP message, or its turn while it is live.
pub open spec fn chunk_key(
    kind: Seq<char>,
    chunk: ContentChunk,
    turn_id: Seq<char>,
    replay: bool,
) -> Option<(Seq<char>, Seq<char>)> {
    match chunk.message_id {
        Some(id) => Some((kind, id@)),
        None => if replay {
            None
        } else {
            Some((kind, "turn:"@ + turn_id))
        },
    }
}

/// The stable source key of an update, where it has one.
pub open spec fn key_of(event: ProjectionEvent) -> Option<(Seq<char>, Seq<char>)> {
    match event.update {
        SessionUpdate::UserMessageChunk(chunk) => match chunk.message_id {
            Some(id) if event.replay => Some(("user_message"@, id@)),
            _ => None,
        },
        SessionUpdate::AgentMessageChunk(chunk) => chunk_key(
            "agent_message"@,
            chunk,
            event.turn_id@,
            event.replay,
        ),
        SessionUpdate::AgentThoughtChunk(chunk) => chunk_key(
            "agent_thought"@,
            chunk,
            event.turn_id@,
            event.replay,
        ),
        SessionUpdate::ToolCall { tool_call_id, .. } => Some(("tool_call"@, tool_call_id@)),
        SessionUpdate::ToolCallUpdate { tool_call_id, .. } => Some(("tool_call"@, tool_call_id@)),
        SessionUpdate::Plan(_) => Some(("plan"@, "current"@)),
        SessionUpdate::Other => None,
    }
}

fn keyed_chunk(kind: &'static str, chunk: &ContentChunk, turn_id: &str, replay: bool) -> (key: Option<
    (&'static str, String),
>)
    ensures
        match key {
            Some((k, id)) => chunk_key(kind@, *chunk, turn_id@, replay) == Some((k@, id@)),
            None => chunk_key(kind@, *chunk, turn_id@, replay) is None,
        },
{
    match &chunk.message_id {
        Some(id) => Some((kind, text::copy(id.as_str()))),
        None => if replay {
            None
        } else {
            Some((kind, text::join2("turn:", turn_id)))
        },
    }
}

/// Finds the stable source key for an update.
pub fn source_key(event: &ProjectionEvent) -> (key: Option<(&'static str, String)>)
    ensures
        match key {
            Some((kind, id)) => key_of(*event) == Some((kind@, id@)),
            None => key_of(*event) is None,
        },
{
    match &event.update {
        SessionUpdate::UserMessageChunk(chunk) => match &chunk.message_id {
            Some(id) => if event.replay {
                Some(("user_message", text::copy(id.as_str())))
            } else {
                None
            },
            None => None,
        },
        SessionUpdate::AgentMessageChunk(chunk) => keyed_chunk(
            "agent_message",
            chunk,
            event.turn_id.as_str(),
            event.replay,
        ),
        SessionUpdate::AgentThoughtChunk(chunk) => keyed_chunk(
            "agent_thought",
            chunk,
            event.turn_id.as_str(),
            event.replay,
        ),
        SessionUpdate::ToolCall { tool_call_id, .. } => Some(
            ("tool_call", text::copy(tool_call_id.as_str())),
        ),
        SessionUpdate::ToolCallUpdate { tool_call_id, .. } => Some(
            ("tool_call", text::copy(tool_call_id.as_str())),
        ),
        SessionUpdate::Plan(_) => Some(("plan", text::copy("current"))),
        SessionUpdate::Other => None,
    }
}

/// The text that a content block is rendered as.
pub open spec fn block_text(content: ContentBlock) -> Seq<char> {
    match content {
        ContentBlock::Text(value) => value@,
        ContentBlock::ResourceLink { name, uri } => "["@ + name@ + "]("@ + uri@ + ")"@,
        ContentBlock::Resource(resource) => match resource {
            Some(value) => match json::json_of(value).str_at("text"@) {
                Some(inner) => inner,
                None => "[embedded resource]"@,
            },
            None => "[embedded resource]"@,
        },
        ContentBlock::Image { mime_type } => "[image: "@ + mime_type@ + "]"@,
        ContentBlock::Audio { mime_type } => "[audio: "@ + mime_type@ + "]"@,
        ContentBlock::Other => "[unsupported acp content]"@,
    }
}

/// Converts supported ACP content blocks into renderable text.
pub fn content_text(content: &ContentBlock) -> (value: String)
    ensures
        value@ == block_text(*content),
{
    match content {
        ContentBlock::Text(value) => text::copy(value.as_str()),
        ContentBlock::ResourceLink { name, uri } => text::join5(
            "[",
            name.as_str(),
            "](",
            uri.as_str(),
            ")",
        ),
        ContentBlock::Resource(resource) => match resource {
            Some(value) => match json::str_member(value, "text") {
                Some(inner) => text::copy(inner),
                None => text::copy("[embedded resource]"),
            },
            None => text::copy("[embedded resource]"),
        },
        ContentBlock::Image { mime_type } => text::join3("[image: ", mime_type.as_str(), "]"),
        ContentBlock::Audio { mime_type } => text::join3("[audio: ", mime_type.as_str(), "]"),
        ContentBlock::Other => text::copy("[unsupported acp content]"),
    }
}

/// The accumulated text in a stored text state, empty where nothing is stored: a
/// list of that text alone, or an object with one `text` string.
pub open spec fn stored_text(state: Seq<char>) -> Option<Seq<char>> {
    if text::is_blank(state) {
        Some(Seq::empty())
    } else if text::trim_start(state)[0] == '[' {
        json::text_list(state)
    } else {
        json::text_block(state)
    }
}

/// The object in a stored object state, `{}` where nothing is stored.
pub open spec fn stored_object(state: Seq<char>) -> Option<JsonView> {
    if text::is_blank(state) {
        Some(JsonView::Object(Seq::empty()))
    } else {
        json::parsed_json(state)
    }
}

/// Decodes text state, treating an empty value as the empty text.
pub fn parse_state(state: &str) -> (result: BotResult<String>)
    ensures
        match result {
            Ok(value) => stored_text(state@) == Some(value@),
            Err(error) => stored_text(state@) is None && (error matches BotError::ProjectionDeserialize {
                context,
                ..
            } && context@ == "source state"@),
        },
{
    let decoded = match text::first_visible(state) {
        None => {
            return Ok(String::new());
        },
        Some('[') => json::parse_text_list(state),
        Some(_) => json::parse_text_block(state),
    };
    match decoded {
        Ok(value) => Ok(value),
        Err(source) => Err(BotError::ProjectionDeserialize { context: "source state", source }),
    }
}

/// Decodes one object-backed renderer state, defaulting empty state to `{}`.
pub fn parse_object_state(state: &str) -> (result: BotResult<Value>)
    ensures
        match result {
            Ok(value) => stored_object(state@) == Some(json::json_of(value)) && json::json_of(
                value,
            ) is Object,
            Err(BotError::ProjectionStateNotObject) => stored_object(state@) matches Some(value)
                && !(value is Object),
            Err(error) => stored_object(state@) is None && (error matches BotError::ProjectionDeserialize {
                context,
                ..
            } && context@ == "object state"@),
        },
{
    if text::blank(state) {
        return Ok(json::empty_object());
    }
    match json::parse(state) {
        Ok(value) => if json::object_entries(&value).is_some() {
            Ok(value)
        } else {
            Err(BotError::ProjectionStateNotObject)
        },
        Err(source) => Err(BotError::ProjectionDeserialize { context: "object state", source }),
    }
}

/// Keys of a serialized tool update that are not part of its state.
pub open spec fn unmerged_key(key: Seq<char>) -> bool {
    key == "toolCallId"@ || key == "_meta"@
}

/// Entries after those of an update are set on them, in order.
pub open spec fn merged_entries(
    target: Seq<(Seq<char>, JsonView)>,
    update: Seq<(Seq<char>, JsonView)>,
) -> Seq<(Seq<char>, JsonView)>
    decreases update.len(),
{
    if update.len() == 0 {
        target
    } else {
        let before = merged_entries(target, update.drop_last());
        let (key, value) = update.last();
        if unmerged_key(key) {
            before
        } else {
            json::with_entry(before, key, value)
        }
    }
}

/// An object with the members of an update set on it.
pub open spec fn merged(target: JsonView, update: JsonView) -> JsonView {
    match (target, update) {
        (JsonView::Object(entries), JsonView::Object(changes)) => JsonView::Object(
            merged_entries(entries, changes),
        ),
        _ => target,
    }
}

/// Merges one serialized tool update into an existing object state.
pub fn merge_object(target: &mut Value, update: &Value)
    ensures
        json::json_of(*final(target)) == merged(json::json_of(*old(target)), json::json_of(*update)),
{
    let ghost before = json::json_of(*target);
    if json::object_entries(target).is_none() {
        return;
    }
    let entries = match json::object_entries(update) {
        Some(entries) => entries,
        None => {
            return;
        },
    };
    let ghost all = json::entries_of(entries@);
    let ghost start = before->Object_0;
    let mut i: usize = 0;
    assert(all.take(0) =~= Seq::<(Seq<char>, JsonView)>::empty());
    while i < entries.len()
        invariant
            i <= entries@.len(),
            all == json::entries_of(entries@),
            json::json_of(*target) == JsonView::Object(merged_entries(start, all.take(i as int))),
        decreases entries@.len() - i,
    {
        let key = entries[i].0.as_str();
        proof {
            assert(all[i as int] == (entries@[i as int].0@, json::json_of(entries@[i as int].1)));
            assert(all.take(i + 1).drop_last() =~= all.take(i as int));
        }
        if !text::same(key, "toolCallId") && !text::same(key, "_meta") {
            json::insert(target, text::copy(key), entries[i].1.clone());
        }
        i += 1;
    }
    assert(all.take(i as int) =~= all);
}

/// What applying one update to a projection gives.
pub ghost enum Reduced {
    /// Nothing changes.
    Ignored,
    /// The projection of the update's source after it.
    Updated(ProjectionView),
    /// The stored text state cannot be decoded.
    BadText,
    /// The stored object state cannot be decoded.
    BadObject,
    /// The stored object state is JSON of another kind.
    NotObject,
}

/// The projection that an update starts from: the previous one where it is of
/// the update's source, else an empty one.
pub open spec fn base_of(
    previous: Option<ProjectionView>,
    thread_id: GenericChannelId,
    key: (Seq<char>, Seq<char>),
) -> ProjectionView {
    match previous {
        Some(projection) if projection.thread_id == thread_id && projection.source_kind == key.0
            && projection.source_id == key.1 => projection,
        _ => ProjectionView {
            thread_id,
            source_kind: key.0,
            source_id: key.1,
            state_json: Seq::empty(),
            message_ids: Seq::empty(),
        },
    }
}

/// The serialized text state that holds a text.
pub open spec fn text_state(value: Seq<char>) -> Seq<char> {
    json::json_text(json::text_object("text"@, value))
}

/// Adds a chunk of text to a text projection.
pub open spec fn reduced_text(base: ProjectionView, replay: bool, chunk: Seq<char>) -> Reduced {
    if chunk.len() == 0 {
        Reduced::Ignored
    } else {
        match stored_text(base.state_json) {
            None => Reduced::BadText,
            Some(before) => if replay && text::contains(before, chunk) {
                Reduced::Ignored
            } else {
                Reduced::Updated(
                    ProjectionView { state_json: text_state(before + chunk), ..base },
                )
            },
        }
    }
}

/// Sets the members of a serialized tool call on a tool projection.
pub open spec fn reduced_tool(base: ProjectionView, fields: JsonView) -> Reduced {
    match stored_object(base.state_json) {
        None => Reduced::BadObject,
        Some(before) => if before is Object {
            Reduced::Updated(
                ProjectionView { state_json: json::json_text(merged(before, fields)), ..base },
            )
        } else {
            Reduced::NotObject
        },
    }
}

/// The chunk that an update carries, where it carries one.
pub open spec fn chunk_of(update: SessionUpdate) -> Option<ContentChunk> {
    match update {
        SessionUpdate::UserMessageChunk(chunk) => Some(chunk),
        SessionUpdate::AgentMessageChunk(chunk) => Some(chunk),
        SessionUpdate::AgentThoughtChunk(chunk) => Some(chunk),
        _ => None,
    }
}

/// What applying an update gives.
pub open spec fn reduced(previous: Option<ProjectionView>, event: ProjectionEvent) -> Reduced {
    match key_of(event) {
        None => Reduced::Ignored,
        Some(key) => {
            let base = base_of(previous, event.thread_id, key);
            match event.update {
                SessionUpdate::UserMessageChunk(chunk) => reduced_text(
                    base,
                    event.replay,
                    block_text(chunk.content),
                ),
                SessionUpdate::AgentMessageChunk(chunk) => reduced_text(
                    base,
                    event.replay,
                    block_text(chunk.content),
                ),
                SessionUpdate::AgentThoughtChunk(chunk) => reduced_text(
                    base,
                    event.replay,
                    block_text(chunk.content),
                ),
                SessionUpdate::ToolCall { fields, .. } => reduced_tool(base, json::json_of(fields)),
                SessionUpdate::ToolCallUpdate { fields, .. } => reduced_tool(
                    base,
                    json::json_of(fields),
                ),
                SessionUpdate::Plan(plan) => Reduced::Updated(
                    ProjectionView { state_json: json::json_text(json::json_of(plan)), ..base },
                ),
                SessionUpdate::Other => Reduced::Ignored,
            }
        },
    }
}

/// A result of the reducer says what `reduced` says.
pub open spec fn is_reduced(result: BotResult<ProjectionOutcome>, expected: Reduced) -> bool {
    match expected {
        Reduced::Ignored => result matches Ok(ProjectionOutcome::Ignored),
        Reduced::Updated(view) => result matches Ok(ProjectionOutcome::Updated(projection))
            && projection@ == view,
        Reduced::BadText => result matches Err(BotError::ProjectionDeserialize { context, .. })
            && context@ == "source state"@,
        Reduced::BadObject => result matches Err(BotError::ProjectionDeserialize { context, .. })
            && context@ == "object state"@,
        Reduced::NotObject => result matches Err(BotError::ProjectionStateNotObject),
    }
}

/// Adds a chunk to the text that is shown. A chunk that is empty, or that a replay
/// repeats, adds nothing.
pub fn extend_text(shown: &str, replay: bool, chunk: &str) -> (next: Option<String>)
    ensures
        text::opt_text(next) == if chunk@.len() == 0 || (replay && text::contains(
            shown@,
            chunk@,
        )) {
            None
        } else {
            Some(shown@ + chunk@)
        },
{
    if chunk.is_empty() || (replay && text::has(shown, chunk)) {
        None
    } else {
        Some(text::join2(shown, chunk))
    }
}

fn reduce_text(projection: RenderProjection, replay: bool, content: &ContentBlock) -> (result: BotResult<
    ProjectionOutcome,
>)
    ensures
        is_reduced(result, reduced_text(projection@, replay, block_text(*content))),
        match result {
            Ok(ProjectionOutcome::Updated(next)) => {
                &&& stored_text(projection@.state_json) is Some
                &&& stored_text(next@.state_json) == Some(
                    stored_text(projection@.state_json)->0 + block_text(*content),
                )
            },
            _ => true,
        },
{
    let mut projection = projection;
    let chunk = content_text(content);
    if chunk.as_str().is_empty() {
        return Ok(ProjectionOutcome::Ignored);
    }
    let state = match parse_state(projection.state_json.as_str()) {
        Ok(state) => state,
        Err(error) => {
            return Err(error);
        },
    };
    let next = match extend_text(state.as_str(), replay, chunk.as_str()) {
        Some(next) => next,
        None => {
            return Ok(ProjectionOutcome::Ignored);
        },
    };
    let value = json::text_object_value("text", next.as_str());
    assert(json::json_of(value) == json::text_object("text"@, next@));
    match json::write(&value) {
        Ok(state_json) => {
            assert(text::trim_start(state_json@) == state_json@);
            projection.state_json = state_json;
            Ok(ProjectionOutcome::Updated(projection))
        },
        Err(source) => Err(BotError::ProjectionSerialize { context: "text state", source }),
    }
}

fn reduce_tool(projection: RenderProjection, fields: &Value, context: &'static str) -> (result: BotResult<
    ProjectionOutcome,
>)
    ensures
        is_reduced(result, reduced_tool(projection@, json::json_of(*fields))),
{
    let mut projection = projection;
    let mut state = match parse_object_state(projection.state_json.as_str()) {
        Ok(state) => state,
        Err(error) => {
            return Err(error);
        },
    };
    merge_object(&mut state, fields);
    match json::write(&state) {
        Ok(state_json) => {
            projection.state_json = state_json;
            Ok(ProjectionOutcome::Updated(projection))
        },
        Err(source) => Err(BotError::ProjectionSerialize { context, source }),
    }
}

/// The projection an update starts from.
fn base_projection(
    previous: Option<RenderProjection>,
    thread_id: GenericChannelId,
    kind: &str,
    id: String,
) -> (projection: RenderProjection)
    ensures
        projection@ == base_of(db::opt_projection(previous), thread_id, (kind@, id@)),
{
    if let Some(projection) = previous {
        if projection.thread_id == thread_id && text::same(projection.source_kind.as_str(), kind)
            && text::same(projection.source_id.as_str(), id.as_str()) {
            return projection;
        }
    }
    RenderProjection {
        thread_id,
        source_kind: text::copy(kind),
        source_id: id,
        state_json: String::new(),
        message_ids: Vec::new(),
    }
}

/// Applies one ordered ACP update without performing I/O.
///
/// A text update leaves a state that reads back as the text before it followed
/// by the text of its chunk.
pub fn reduce(previous: Option<RenderProjection>, event: &ProjectionEvent) -> (result: BotResult<
    ProjectionOutcome,
>)
    ensures
        is_reduced(result, reduced(db::opt_projection(previous), *event)),
        match (result, chunk_of(event.update), key_of(*event)) {
            (Ok(ProjectionOutcome::Updated(next)), Some(chunk), Some(key)) => {
                let before = stored_text(
                    base_of(db::opt_projection(previous), event.thread_id, key).state_json,
                );
                &&& before is Some
                &&& stored_text(next@.state_json) == Some(before->0 + block_text(chunk.content))
            },
            _ => true,
        },
        event.update matches SessionUpdate::Plan(plan) ==> (
        result matches Ok(ProjectionOutcome::Updated(next)) && next@.state_json == json::json_text(
            json::json_of(plan),
        )),
{
    let (kind, id) = match source_key(event) {
        Some(key) => key,
        None => {
            return Ok(ProjectionOutcome::Ignored);
        },
    };
    let projection = base_projection(previous, event.thread_id, kind, id);
    match &event.update {
        SessionUpdate::UserMessageChunk(chunk) => reduce_text(
            projection,
            event.replay,
            &chunk.content,
        ),
        SessionUpdate::AgentMessageChunk(chunk) => reduce_text(
            projection,
            event.replay,
            &chunk.content,
        ),
        SessionUpdate::AgentThoughtChunk(chunk) => reduce_text(
            projection,
            event.replay,
            &chunk.content,
        ),
        SessionUpdate::ToolCall { fields, .. } => reduce_tool(projection, fields, "tool state"),
        SessionUpdate::ToolCallUpdate { fields, .. } => reduce_tool(
            projection,
            fields,
            "tool state",
        ),
        SessionUpdate::Plan(plan) => match json::write(plan) {
            Ok(state_json) => {
                let mut projection = projection;
                projection.state_json = state_json;
                Ok(ProjectionOutcome::Updated(projection))
            },
            Err(source) => Err(BotError::ProjectionSerialize { context: "plan state", source }),
        },
        SessionUpdate::Other => Ok(ProjectionOutcome::Ignored),
    }
}

/// The source of a projection.
pub open spec fn source_of(projection: ProjectionView) -> (
    GenericChannelId,
    Seq<char>,
    Seq<char>,
) {
    (projection.thread_id, projection.source_kind, projection.source_id)
}

/// An update changes the projection of its own source only: whatever projection
/// it is applied to, the result is of the update's thread and source key.
pub proof fn an_update_changes_its_own_source(
    previous: Option<ProjectionView>,
    event: ProjectionEvent,
)
    ensures
        match reduced(previous, event) {
            Reduced::Updated(next) => key_of(event) matches Some(key) && source_of(next) == (
                event.thread_id,
                key.0,
                key.1,
            ),
            _ => true,
        },
{
}

/// An update keeps the Discord messages of the projection it is applied to, and
/// starts without messages on the projection of another source.
pub proof fn an_update_keeps_the_messages_of_its_source(
    previous: ProjectionView,
    event: ProjectionEvent,
)
    ensures
        match reduced(Some(previous), event) {
            Reduced::Updated(next) => next.message_ids == if source_of(previous) == source_of(
                next,
            ) {
                previous.message_ids
            } else {
                Seq::empty()
            },
            _ => true,
        },
{
}

/// A replayed chunk is ignored once its text stands in the projection, however
/// the projection came about, so replaying a session never shows text twice.
pub proof fn a_replayed_chunk_is_ignored_once_shown(
    shown: ProjectionView,
    event: ProjectionEvent,
    accumulated: Seq<char>,
)
    requires
        event.replay,
        chunk_of(event.update) is Some,
        key_of(event) matches Some(key) && source_of(shown) == (event.thread_id, key.0, key.1),
        stored_text(shown.state_json) == Some(accumulated),
        text::contains(accumulated, block_text(chunk_of(event.update)->0.content)),
    ensures
        reduced(Some(shown), event) == Reduced::Ignored,
{
}

/// A chunk that was just added is contained in the text it was added to.
pub proof fn an_added_chunk_is_contained(before: Seq<char>, chunk: Seq<char>)
    ensures
        text::contains(before + chunk, chunk),
{
    assert((before + chunk).subrange(before.len() as int, (before + chunk).len() as int) =~= chunk);
    assert(text::occurs_at(before + chunk, chunk, before.len() as int));
}

/// Setting the members of a tool update never changes the members that are not
/// part of a tool state.
pub proof fn merging_leaves_identifiers_alone(
    target: Seq<(Seq<char>, JsonView)>,
    update: Seq<(Seq<char>, JsonView)>,
    key: Seq<char>,
)
    requires
        unmerged_key(key),
    ensures
        json::lookup(merged_entries(target, update), key) == json::lookup(target, key),
    decreases update.len(),
{
    if update.len() > 0 {
        merging_leaves_identifiers_alone(target, update.drop_last(), key);
        let before = merged_entries(target, update.drop_last());
        let (changed, value) = update.last();
        if !unmerged_key(changed) {
            json::lemma_other_entry(before, changed, value, key);
        }
    }
}

/// After a tool update every member it names that is part of a tool state has
/// the value it gives, where it names no member twice.
pub proof fn merging_sets_the_named_members(
    target: Seq<(Seq<char>, JsonView)>,
    update: Seq<(Seq<char>, JsonView)>,
    at: int,
)
    requires
        0 <= at < update.len(),
        !unmerged_key(update[at].0),
        forall|i: int, j: int| 0 <= i < j < update.len() ==> update[i].0 != update[j].0,
    ensures
        json::lookup(merged_entries(target, update), update[at].0) == Some(update[at].1),
    decreases update.len(),
{
    let before = merged_entries(target, update.drop_last());
    let (key, value) = update.last();
    if at == update.len() - 1 {
        json::lemma_set_entry(before, key, value);
    } else {
        assert(update.drop_last()[at] == update[at]);
        merging_sets_the_named_members(target, update.drop_last(), at);
        if !unmerged_key(key) {
            json::lemma_other_entry(before, key, value, update[at].0);
        }
    }
}

/// The contents of a list of projections.
pub open spec fn projection_views(projections: Seq<RenderProjection>) -> Seq<ProjectionView> {
    projections.map_values(|projection: RenderProjection| projection@)
}

/// The position of the first projection of a source, or the number of
/// projections.
pub open spec fn position_of(
    projections: Seq<ProjectionView>,
    source: (GenericChannelId, Seq<char>, Seq<char>),
) -> int
    decreases projections.len(),
{
    if projections.len() == 0 {
        0
    } else if source_of(projections[0]) == source {
        0
    } else {
        1 + position_of(projections.drop_first(), source)
    }
}

/// No two projections are of the same source.
pub open spec fn distinct_sources(projections: Seq<ProjectionView>) -> bool {
    forall|i: int, j: int|
        0 <= i < j < projections.len() ==> source_of(#[trigger] projections[i]) != source_of(
            #[trigger] projections[j],
        )
}

/// What collecting one update gives: the projections to synchronize so far, or
/// the failure of the reducer.
pub ghost enum Collected {
    Projections(Seq<ProjectionView>),
    Failed(Reduced),
}

/// The projection to synchronize after an update, where there is one: the
/// changed one, or for a replayed update the one it leaves unchanged.
pub open spec fn retained(
    previous: Option<ProjectionView>,
    event: ProjectionEvent,
) -> Option<ProjectionView> {
    match reduced(previous, event) {
        Reduced::Updated(next) => Some(next),
        Reduced::Ignored => if event.replay {
            previous
        } else {
            None
        },
        _ => None,
    }
}

/// Collects one update into the projections of a batch. An update of a source
/// that is in the batch builds on its projection there, any other on the stored
/// one.
pub open spec fn collected(
    projections: Seq<ProjectionView>,
    event: ProjectionEvent,
    stored: Option<ProjectionView>,
) -> Collected {
    match key_of(event) {
        None => Collected::Projections(projections),
        Some(key) => {
            let at = position_of(projections, (event.thread_id, key.0, key.1));
            let previous = if at < projections.len() {
                Some(projections[at])
            } else {
                stored
            };
            match reduced(previous, event) {
                Reduced::BadText => Collected::Failed(Reduced::BadText),
                Reduced::BadObject => Collected::Failed(Reduced::BadObject),
                Reduced::NotObject => Collected::Failed(Reduced::NotObject),
                _ => match retained(previous, event) {
                    Some(next) => Collected::Projections(
                        if at < projections.len() {
                            projections.update(at, next)
                        } else {
                            projections.push(next)
                        },
                    ),
                    None => Collected::Projections(projections),
                },
            }
        },
    }
}

/// What `position_of` finds is the first projection of the source.
pub proof fn lemma_position_of(
    projections: Seq<ProjectionView>,
    source: (GenericChannelId, Seq<char>, Seq<char>),
)
    ensures
        0 <= position_of(projections, source) <= projections.len(),
        position_of(projections, source) < projections.len() ==> source_of(
            projections[position_of(projections, source)],
        ) == source,
        forall|i: int|
            0 <= i < position_of(projections, source) ==> source_of(#[trigger] projections[i])
                != source,
    decreases projections.len(),
{
    if projections.len() > 0 && source_of(projections[0]) != source {
        let rest = projections.drop_first();
        lemma_position_of(rest, source);
        let at = position_of(projections, source);
        assert forall|i: int| 0 <= i < at implies source_of(#[trigger] projections[i])
            != source by {
            if i > 0 {
                assert(projections[i] == rest[i - 1]);
            }
        }
    }
}

proof fn lemma_position_unique(
    projections: Seq<ProjectionView>,
    source: (GenericChannelId, Seq<char>, Seq<char>),
    at: int,
)
    requires
        0 <= at <= projections.len(),
        at < projections.len() ==> source_of(projections[at]) == source,
        forall|i: int| 0 <= i < at ==> source_of(#[trigger] projections[i]) != source,
    ensures
        position_of(projections, source) == at,
{
    lemma_position_of(projections, source);
    let found = position_of(projections, source);
    if found < at {
        assert(source_of(projections[found]) != source);
    }
}

/// A stored projection is one of the source that an update looks it up for.
pub open spec fn stored_for(stored: Option<ProjectionView>, event: ProjectionEvent) -> bool {
    match (stored, key_of(event)) {
        (Some(projection), Some((kind, id))) => source_of(projection) == (
            event.thread_id,
            kind,
            id,
        ),
        _ => true,
    }
}

/// A batch holds at most one projection per source, so one source is never
/// synchronized twice for one batch.
pub proof fn a_batch_holds_each_source_once(
    projections: Seq<ProjectionView>,
    event: ProjectionEvent,
    stored: Option<ProjectionView>,
)
    requires
        distinct_sources(projections),
        stored_for(stored, event),
    ensures
        match collected(projections, event, stored) {
            Collected::Projections(next) => distinct_sources(next),
            Collected::Failed(_) => true,
        },
{
    if let Some(key) = key_of(event) {
        let source = (event.thread_id, key.0, key.1);
        lemma_position_of(projections, source);
        let at = position_of(projections, source);
        let previous = if at < projections.len() {
            Some(projections[at])
        } else {
            stored
        };
        an_update_changes_its_own_source(previous, event);
        if let Some(next) = retained(previous, event) {
            assert(source_of(next) == source);
        }
    }
}

/// The source of an update.
pub open spec fn event_source(event: ProjectionEvent) -> Option<
    (GenericChannelId, Seq<char>, Seq<char>),
> {
    match key_of(event) {
        Some(key) => Some((event.thread_id, key.0, key.1)),
        None => None,
    }
}

/// The stored projection that an update may build on.
pub open spec fn stored_at(
    stored: spec_fn((GenericChannelId, Seq<char>, Seq<char>)) -> Option<ProjectionView>,
    event: ProjectionEvent,
) -> Option<ProjectionView> {
    match event_source(event) {
        Some(source) => stored(source),
        None => None,
    }
}

/// What collecting a whole batch gives: its updates one after the other, up to
/// the first failure.
pub open spec fn batch_of(
    events: Seq<ProjectionEvent>,
    stored: spec_fn((GenericChannelId, Seq<char>, Seq<char>)) -> Option<ProjectionView>,
) -> Collected
    decreases events.len(),
{
    if events.len() == 0 {
        Collected::Projections(Seq::empty())
    } else {
        match batch_of(events.drop_last(), stored) {
            Collected::Projections(projections) => collected(
                projections,
                events.last(),
                stored_at(stored, events.last()),
            ),
            failed => failed,
        }
    }
}

/// The projection of a source in a batch.
pub open spec fn entry_of(
    projections: Seq<ProjectionView>,
    source: (GenericChannelId, Seq<char>, Seq<char>),
) -> Option<ProjectionView> {
    let at = position_of(projections, source);
    if at < projections.len() {
        Some(projections[at])
    } else {
        None
    }
}

/// What the updates of one source, in their order, make of its stored
/// projection, where there is something to synchronize.
pub open spec fn folded(
    events: Seq<ProjectionEvent>,
    source: (GenericChannelId, Seq<char>, Seq<char>),
    stored: Option<ProjectionView>,
) -> Option<ProjectionView>
    decreases events.len(),
{
    if events.len() == 0 {
        None
    } else {
        let before = folded(events.drop_last(), source, stored);
        if event_source(events.last()) == Some(source) {
            let previous = if before is Some {
                before
            } else {
                stored
            };
            match retained(previous, events.last()) {
                Some(next) => Some(next),
                None => before,
            }
        } else {
            before
        }
    }
}

/// A batch holds one projection per source, and it is what the updates of that
/// source alone, in their order, make of the stored one.
pub proof fn a_batch_folds_each_source(
    events: Seq<ProjectionEvent>,
    stored: spec_fn((GenericChannelId, Seq<char>, Seq<char>)) -> Option<ProjectionView>,
    source: (GenericChannelId, Seq<char>, Seq<char>),
)
    requires
        forall|any: (GenericChannelId, Seq<char>, Seq<char>)|
            (#[trigger] stored(any)) matches Some(projection) ==> source_of(projection) == any,
    ensures
        match batch_of(events, stored) {
            Collected::Projections(projections) => distinct_sources(projections) && entry_of(
                projections,
                source,
            ) == folded(events, source, stored(source)),
            Collected::Failed(_) => true,
        },
    decreases events.len(),
{
    if events.len() > 0 {
        let event = events.last();
        a_batch_folds_each_source(events.drop_last(), stored, source);
        if let Collected::Projections(before) = batch_of(events.drop_last(), stored) {
            a_batch_holds_each_source_once(before, event, stored_at(stored, event));
            lemma_position_of(before, source);
            if let Some(own) = event_source(event) {
                let at = position_of(before, own);
                let found = position_of(before, source);
                lemma_position_of(before, own);
                let previous = if at < before.len() {
                    Some(before[at])
                } else {
                    stored(own)
                };
                an_update_changes_its_own_source(previous, event);
                if let Some(next) = retained(previous, event) {
                    assert(source_of(next) == own);
                    if at < before.len() {
                        lemma_position_unique(before.update(at, next), source, found);
                    } else if own == source {
                        lemma_position_unique(before.push(next), source, found);
                    } else if found < before.len() {
                        lemma_position_unique(before.push(next), source, found);
                    } else {
                        lemma_position_unique(before.push(next), source, found + 1);
                    }
                }
            }
        }
    }
}

/// The batch entry of an update's source.
pub enum BatchEntry {
    /// The update has no source.
    NoSource,
    /// The batch holds the projection at this position.
    InBatch(usize),
    /// The projection has to be looked up by kind and identifier.
    Stored {
        /// Kind of the source.
        kind: &'static str,
        /// Identifier within the kind.
        id: String,
    },
}

/// Finds the batch entry of an update's source.
pub fn batch_entry(projections: &Vec<RenderProjection>, event: &ProjectionEvent) -> (entry: BatchEntry)
    ensures
        match (entry, key_of(*event)) {
            (BatchEntry::NoSource, None) => true,
            (BatchEntry::InBatch(at), Some(key)) => at < projections@.len() && at == position_of(
                projection_views(projections@),
                (event.thread_id, key.0, key.1),
            ),
            (BatchEntry::Stored { kind, id }, Some(key)) => {
                &&& key == (kind@, id@)
                &&& position_of(
                    projection_views(projections@),
                    (event.thread_id, key.0, key.1),
                ) == projections@.len()
            },
            _ => false,
        },
{
    let (kind, id) = match source_key(event) {
        Some(key) => key,
        None => {
            return BatchEntry::NoSource;
        },
    };
    let ghost views = projection_views(projections@);
    let ghost source = (event.thread_id, kind@, id@);
    let mut i: usize = 0;
    while i < projections.len()
        invariant
            i <= projections@.len(),
            views == projection_views(projections@),
            source == (event.thread_id, kind@, id@),
            key_of(*event) == Some((kind@, id@)),
            forall|j: int| 0 <= j < i ==> source_of(#[trigger] views[j]) != source,
        decreases projections@.len() - i,
    {
        let projection = &projections[i];
        assert(views[i as int] == projection@);
        if projection.thread_id == event.thread_id && text::same(
            projection.source_kind.as_str(),
            kind,
        ) && text::same(projection.source_id.as_str(), id.as_str()) {
            proof {
                lemma_position_unique(views, source, i as int);
            }
            return BatchEntry::InBatch(i);
        }
        i += 1;
    }
    proof {
        lemma_position_unique(views, source, i as int);
    }
    BatchEntry::Stored { kind, id }
}

fn copy_projection(projection: &Option<RenderProjection>) -> (copied: Option<RenderProjection>)
    ensures
        db::opt_projection(copied) == db::opt_projection(*projection),
{
    match projection {
        Some(inner) => Some(inner.copy()),
        None => None,
    }
}

/// Collects one update into the projections of a batch. `stored` is the
/// persisted projection of its source, needed only where the batch has none.
pub fn collect_projection(
    projections: &mut Vec<RenderProjection>,
    event: &ProjectionEvent,
    stored: Option<RenderProjection>,
) -> (result: BotResult)
    ensures
        match collected(
            projection_views(old(projections)@),
            *event,
            db::opt_projection(stored),
        ) {
            Collected::Projections(next) => result is Ok && projection_views(final(projections)@)
                == next,
            Collected::Failed(reason) => projection_views(final(projections)@)
                == projection_views(old(projections)@) && (result matches Err(error)
                && is_reduced(Err(error), reason)),
        },
{
    let ghost views = projection_views(projections@);
    let entry = batch_entry(projections, event);
    let previous = match &entry {
        BatchEntry::NoSource => {
            return Ok(());
        },
        BatchEntry::InBatch(at) => {
            assert(views[*at as int] == projections@[*at as int]@);
            Some(projections[*at].copy())
        },
        BatchEntry::Stored { .. } => stored,
    };
    let kept = copy_projection(&previous);
    let next = match reduce(previous, event) {
        Ok(ProjectionOutcome::Updated(next)) => next,
        Ok(ProjectionOutcome::Ignored) => {
            if !event.replay {
                return Ok(());
            }
            match kept {
                Some(next) => next,
                None => {
                    return Ok(());
                },
            }
        },
        Err(error) => {
            return Err(error);
        },
    };
    let ghost added = next@;
    match entry {
        BatchEntry::InBatch(at) => {
            projections.set(at, next);
            assert(projection_views(projections@) =~= views.update(at as int, added));
        },
        _ => {
            projections.push(next);
            assert(projection_views(projections@) =~= views.push(added));
        },
    }
    Ok(())
}

} // verus!
