//! Laws of the reducer: what an update makes of a stored projection.

use vstd::prelude::*;

use crate::db::ProjectionView;
use crate::discord::present;
use crate::discord::render;
use crate::discord::render::{ContentBlock, ContentChunk, ProjectionEvent, Reduced, SessionUpdate};
use crate::discord::split;
use crate::ids::GenericChannelId;
use crate::json;
use crate::json::JsonView;
use crate::text;

verus! {

/// Whatever projection a plan update is applied to, it is updated, and what is
/// stored is the plan of that update alone: it is written as that plan is, and it
/// reads back as that plan wherever what is written of the plan reads back. Nothing
/// of the projection before it is left but its messages.
pub proof fn a_plan_replaces_the_plan(
    previous: Option<ProjectionView>,
    event: ProjectionEvent,
    plan: serde_json::Value,
)
    requires
        event.update == SessionUpdate::Plan(plan),
    ensures
        render::reduced(previous, event) matches Reduced::Updated(next) && {
            &&& next.state_json == json::json_text(json::json_of(plan))
            &&& json::parsed_json(json::json_text(json::json_of(plan))) == Some(
                json::json_of(plan),
            ) ==> json::parsed_json(next.state_json) == Some(json::json_of(plan))
            &&& (next.thread_id, next.source_kind, next.source_id) == (
                event.thread_id,
                "plan"@,
                "current"@,
            )
        },
{
}

/// Two plan updates in a row leave what the second alone leaves, whatever was there
/// before the first.
pub proof fn the_last_plan_stands(
    previous: Option<ProjectionView>,
    other: Option<ProjectionView>,
    first: ProjectionEvent,
    second: ProjectionEvent,
)
    requires
        first.update is Plan,
        second.update is Plan,
    ensures
        match (render::reduced(previous, first), render::reduced(other, second)) {
            (Reduced::Updated(between), Reduced::Updated(alone)) => match render::reduced(
                Some(between),
                second,
            ) {
                Reduced::Updated(after) => after.state_json == alone.state_json
                    && after.source_kind == alone.source_kind && after.source_id
                    == alone.source_id && after.thread_id == alone.thread_id,
                _ => false,
            },
            _ => false,
        },
{
}

/// What is stored of a text.
pub open spec fn written_text(value: Seq<char>) -> Seq<char> {
    json::json_text(JsonView::Object(seq![("text"@, JsonView::Str(value))]))
}

/// The source of an event: its thread, what it is part of and which one.
pub open spec fn is_from(
    event: ProjectionEvent,
    source: (GenericChannelId, Seq<char>, Seq<char>),
) -> bool {
    &&& source.0 == event.thread_id
    &&& match event.update {
        SessionUpdate::UserMessageChunk(chunk) => event.replay && source.1 == "user_message"@
            && text::opt_text(chunk.message_id) == Some(source.2),
        SessionUpdate::AgentMessageChunk(chunk) => source.1 == "agent_message"@ && match chunk.message_id {
            Some(id) => source.2 == id@,
            None => !event.replay && source.2 == "turn:"@ + event.turn_id@,
        },
        SessionUpdate::AgentThoughtChunk(chunk) => source.1 == "agent_thought"@ && match chunk.message_id {
            Some(id) => source.2 == id@,
            None => !event.replay && source.2 == "turn:"@ + event.turn_id@,
        },
        SessionUpdate::ToolCall { tool_call_id, .. } => source.1 == "tool_call"@ && source.2
            == tool_call_id@,
        SessionUpdate::ToolCallUpdate { tool_call_id, .. } => source.1 == "tool_call"@ && source.2
            == tool_call_id@,
        SessionUpdate::Plan(_) => source.1 == "plan"@ && source.2 == "current"@,
        SessionUpdate::Other => false,
    }
}

/// The chunks of one message, or of one turn where they name none, the updates of
/// one tool call and all plans of a thread have one source, and none of these has
/// that of another. Live user messages, replayed chunks without a message and other
/// updates have none.
pub proof fn an_event_has_the_source_it_is_part_of(
    event: ProjectionEvent,
    source: (GenericChannelId, Seq<char>, Seq<char>),
)
    ensures
        render::event_source(event) == Some(source) <==> is_from(event, source),
        render::event_source(event) is None ==> forall|previous: Option<ProjectionView>|
            #[trigger] render::reduced(previous, event) == Reduced::Ignored,
{
}

/// The text that a chunk carries: the text itself, or what stands for content of
/// another kind.
pub open spec fn carries(content: ContentBlock, shown: Seq<char>) -> bool {
    match content {
        ContentBlock::Text(value) => shown == value@,
        ContentBlock::ResourceLink { name, uri } => {
            &&& shown.len() == name@.len() + uri@.len() + 4
            &&& shown[0] == '['
            &&& shown.subrange(1, 1 + name@.len() as int) == name@
            &&& shown.subrange(3 + name@.len() as int, shown.len() - 1) == uri@
            &&& shown.last() == ')'
        },
        ContentBlock::Resource(resource) => match resource {
            Some(value) => json::json_of(value).str_at("text"@) matches Some(inner) ==> shown
                == inner,
            None => shown.len() > 0,
        },
        ContentBlock::Image { mime_type } => shown == "[image: "@ + mime_type@ + "]"@,
        ContentBlock::Audio { mime_type } => shown == "[audio: "@ + mime_type@ + "]"@,
        ContentBlock::Other => shown.len() > 0,
    }
}

/// A chunk is shown as what it carries.
pub proof fn a_chunk_shows_what_it_carries(content: ContentBlock)
    ensures
        carries(content, render::block_text(content)),
{
    reveal_strlit("[embedded resource]");
    reveal_strlit("[unsupported acp content]");
    match content {
        ContentBlock::ResourceLink { name, uri } => {
            reveal_strlit("[");
            reveal_strlit("](");
            reveal_strlit(")");
            let shown = render::block_text(content);
            assert(shown.subrange(1, 1 + name@.len() as int) =~= name@);
            assert(shown.subrange(3 + name@.len() as int, shown.len() - 1) =~= uri@);
        },
        _ => {},
    }
}

/// The text that a projection shows for a source: what it stores, or nothing yet
/// where it is of another source.
pub open spec fn text_shown(
    previous: Option<ProjectionView>,
    source: (GenericChannelId, Seq<char>, Seq<char>),
) -> Option<Seq<char>> {
    match previous {
        Some(projection) => if (
            projection.thread_id,
            projection.source_kind,
            projection.source_id,
        ) == source {
            render::stored_text(projection.state_json)
        } else {
            Some(Seq::empty())
        },
        None => Some(Seq::empty()),
    }
}

/// A chunk is added behind the text shown so far. A live chunk always is; a replayed
/// one is ignored where the text holds it already, and so is an empty one.
pub proof fn a_chunk_is_added_behind_the_text(
    previous: Option<ProjectionView>,
    event: ProjectionEvent,
    chunk: ContentChunk,
    source: (GenericChannelId, Seq<char>, Seq<char>),
    shown: Seq<char>,
)
    requires
        is_from(event, source),
        event.update == SessionUpdate::UserMessageChunk(chunk) || event.update
            == SessionUpdate::AgentMessageChunk(chunk) || event.update
            == SessionUpdate::AgentThoughtChunk(chunk),
        text_shown(previous, source) == Some(shown),
    ensures
        ({
            let added = render::block_text(chunk.content);
            let result = render::reduced(previous, event);
            &&& added.len() > 0 && (!event.replay || !text::contains(shown, added)) ==> (
            result matches Reduced::Updated(next) && next.state_json == written_text(shown + added)
                && (next.thread_id, next.source_kind, next.source_id) == source)
            &&& added.len() == 0 || (event.replay && text::contains(shown, added)) ==> result
                == Reduced::Ignored
        }),
{
    assert(text::is_blank(Seq::empty()));
    let added = render::block_text(chunk.content);
    assert(render::text_state(shown + added) == written_text(shown + added));
}

/// An entry with a key is among the entries.
pub open spec fn names(entries: Seq<(Seq<char>, JsonView)>, key: Seq<char>) -> bool {
    exists|i: int| 0 <= i < entries.len() && (#[trigger] entries[i]).0 == key
}

/// Merging leaves the members that the update does not name as they are.
pub proof fn merging_keeps_the_other_members(
    target: Seq<(Seq<char>, JsonView)>,
    update: Seq<(Seq<char>, JsonView)>,
    key: Seq<char>,
)
    requires
        !names(update, key),
    ensures
        json::lookup(render::merged_entries(target, update), key) == json::lookup(target, key),
    decreases update.len(),
{
    if update.len() > 0 {
        let head = update.drop_last();
        assert forall|i: int| 0 <= i < head.len() implies (#[trigger] head[i]).0 != key by {
            assert(update[i].0 != key);
        }
        merging_keeps_the_other_members(target, head, key);
        assert(update[update.len() - 1].0 != key);
        let before = render::merged_entries(target, head);
        json::lemma_other_entry(before, update.last().0, update.last().1, key);
    }
}

/// The members that a projection stores of a tool call: none yet where it is of
/// another source or nothing is stored.
pub open spec fn members_shown(
    previous: Option<ProjectionView>,
    source: (GenericChannelId, Seq<char>, Seq<char>),
) -> Option<JsonView> {
    match previous {
        Some(projection) => if (
            projection.thread_id,
            projection.source_kind,
            projection.source_id,
        ) == source && !text::is_blank(projection.state_json) {
            json::parsed_json(projection.state_json)
        } else {
            Some(JsonView::Object(Seq::empty()))
        },
        None => Some(JsonView::Object(Seq::empty())),
    }
}

/// The stored members are those before with the members of the update in place of
/// them: all but the identifier and the metadata of the update.
pub open spec fn is_merged(
    after: Seq<(Seq<char>, JsonView)>,
    before: Seq<(Seq<char>, JsonView)>,
    update: Seq<(Seq<char>, JsonView)>,
) -> bool {
    &&& forall|i: int|
        0 <= i < update.len() && (#[trigger] update[i]).0 != "toolCallId"@ && update[i].0
            != "_meta"@ ==> json::lookup(after, update[i].0) == Some(update[i].1)
    &&& forall|key: Seq<char>|
        !names(update, key) || key == "toolCallId"@ || key == "_meta"@ ==> #[trigger] json::lookup(
            after,
            key,
        ) == json::lookup(before, key)
}

/// A tool call, new or changed, is stored as what was stored of it before with its
/// own members in place of the stored ones.
pub proof fn a_tool_update_sets_its_members(
    previous: Option<ProjectionView>,
    event: ProjectionEvent,
    source: (GenericChannelId, Seq<char>, Seq<char>),
    fields: serde_json::Value,
    before: Seq<(Seq<char>, JsonView)>,
    update: Seq<(Seq<char>, JsonView)>,
)
    requires
        is_from(event, source),
        match event.update {
            SessionUpdate::ToolCall { fields: given, .. } => given == fields,
            SessionUpdate::ToolCallUpdate { fields: given, .. } => given == fields,
            _ => false,
        },
        json::json_of(fields) == JsonView::Object(update),
        forall|i: int, j: int| 0 <= i < j < update.len() ==> update[i].0 != update[j].0,
        members_shown(previous, source) == Some(JsonView::Object(before)),
    ensures
        exists|after: Seq<(Seq<char>, JsonView)>|
            #[trigger] is_merged(after, before, update) && (render::reduced(
                previous,
                event,
            ) matches Reduced::Updated(next) && next.state_json == json::json_text(
                JsonView::Object(after),
            ) && (next.thread_id, next.source_kind, next.source_id) == source),
{
    assert(text::is_blank(Seq::empty()));
    let after = render::merged_entries(before, update);
    assert forall|i: int|
        0 <= i < update.len() && (#[trigger] update[i]).0 != "toolCallId"@ && update[i].0
            != "_meta"@ implies json::lookup(after, update[i].0) == Some(update[i].1) by {
        render::merging_sets_the_named_members(before, update, i);
    }
    assert forall|key: Seq<char>|
        !names(update, key) || key == "toolCallId"@ || key == "_meta"@ implies #[trigger] json::lookup(
        after,
        key,
    ) == json::lookup(before, key) by {
        if key == "toolCallId"@ || key == "_meta"@ {
            render::merging_leaves_identifiers_alone(before, update, key);
        } else {
            merging_keeps_the_other_members(before, update, key);
        }
    }
    assert(is_merged(after, before, update));
}

/// Collecting an event changes the projection of its own source only: the others
/// stay as they are and where they are, and at most one is added, at the end.
pub proof fn collecting_keeps_the_other_sources(
    projections: Seq<ProjectionView>,
    event: ProjectionEvent,
    stored: Option<ProjectionView>,
)
    ensures
        match render::collected(projections, event, stored) {
            render::Collected::Projections(next) => {
                &&& projections.len() <= next.len() <= projections.len() + 1
                &&& forall|i: int|
                    0 <= i < projections.len() && render::event_source(event) != Some(
                        render::source_of(#[trigger] projections[i]),
                    ) ==> next[i] == projections[i]
            },
            render::Collected::Failed(_) => true,
        },
{
    if let Some(source) = render::event_source(event) {
        render::lemma_position_of(projections, source);
    }
}

/// An update that changes its source ends up in the batch, applied to what the batch
/// holds of that source, or else to what is stored of it.
pub proof fn a_collected_update_is_in_the_batch(
    projections: Seq<ProjectionView>,
    event: ProjectionEvent,
    stored: Option<ProjectionView>,
    previous: Option<ProjectionView>,
    updated: ProjectionView,
)
    requires
        render::distinct_sources(projections),
        match previous {
            Some(held) => projections.contains(held) && render::event_source(event) == Some(
                render::source_of(held),
            ),
            None => forall|i: int|
                0 <= i < projections.len() ==> render::event_source(event) != Some(
                    render::source_of(#[trigger] projections[i]),
                ),
        },
        render::reduced(
            if previous is Some {
                previous
            } else {
                stored
            },
            event,
        ) == Reduced::Updated(updated),
    ensures
        render::collected(projections, event, stored) matches render::Collected::Projections(next)
            && next.contains(updated),
{
    let source = render::event_source(event)->0;
    render::lemma_position_of(projections, source);
    let at = render::position_of(projections, source);
    if let Some(held) = previous {
        let i = choose|i: int| 0 <= i < projections.len() && projections[i] == held;
        assert(render::source_of(projections[i]) == source);
        assert(at == i);
        assert(projections.update(at, updated)[at] == updated);
    } else {
        if at < projections.len() {
            assert(render::source_of(projections[at]) == source);
        }
        assert(projections.push(updated).last() == updated);
    }
}

/// An update that changes nothing leaves no trace in a batch, but that a replayed one
/// keeps what is stored of its source there.
pub proof fn an_ignored_update_keeps_the_stored_projection(
    projections: Seq<ProjectionView>,
    event: ProjectionEvent,
    stored: Option<ProjectionView>,
)
    requires
        forall|i: int|
            0 <= i < projections.len() ==> render::event_source(event) != Some(
                render::source_of(#[trigger] projections[i]),
            ),
        render::event_source(event) is Some,
        render::reduced(stored, event) == Reduced::Ignored,
    ensures
        render::collected(projections, event, stored) == render::Collected::Projections(
            if event.replay && stored is Some {
                projections.push(stored->0)
            } else {
                projections
            },
        ),
{
    let source = render::event_source(event)->0;
    render::lemma_position_of(projections, source);
    let at = render::position_of(projections, source);
    if at < projections.len() {
        assert(render::source_of(projections[at]) == source);
    }
}

/// A state that cannot be read fails the whole update, and leaves the batch as it is.
pub proof fn an_unreadable_state_fails(
    previous: ProjectionView,
    event: ProjectionEvent,
    chunk: ContentChunk,
)
    requires
        event.update == SessionUpdate::AgentMessageChunk(chunk) || event.update
            == SessionUpdate::AgentThoughtChunk(chunk),
        is_from(event, (previous.thread_id, previous.source_kind, previous.source_id)),
        render::block_text(chunk.content).len() > 0,
        !text::is_blank(previous.state_json),
    ensures
        text::trim_start(previous.state_json)[0] == '[' ==> (json::text_list(previous.state_json)
            is None <==> render::reduced(Some(previous), event) == Reduced::BadText),
        text::trim_start(previous.state_json)[0] != '[' ==> (json::text_block(previous.state_json)
            is None <==> render::reduced(Some(previous), event) == Reduced::BadText),
{
}

/// Merging an update sets the members that it names, but for the identifier of the
/// tool call and its metadata, which stay as they are.
pub proof fn merging_sets_the_named_members(
    target: Seq<(Seq<char>, JsonView)>,
    update: Seq<(Seq<char>, JsonView)>,
    at: int,
)
    requires
        0 <= at < update.len(),
        forall|i: int| at < i < update.len() ==> (#[trigger] update[i]).0 != update[at].0,
    ensures
        update[at].0 != "toolCallId"@ && update[at].0 != "_meta"@ ==> json::lookup(
            render::merged_entries(target, update),
            update[at].0,
        ) == Some(update[at].1),
        json::lookup(render::merged_entries(target, update), "toolCallId"@) == json::lookup(
            target,
            "toolCallId"@,
        ),
        json::lookup(render::merged_entries(target, update), "_meta"@) == json::lookup(
            target,
            "_meta"@,
        ),
    decreases update.len(),
{
    let head = update.drop_last();
    let before = render::merged_entries(target, head);
    let (key, value) = update.last();
    lemma_unmerged(target, update);
    if at < head.len() {
        assert forall|i: int| at < i < head.len() implies (#[trigger] head[i]).0 != head[at].0 by {
            assert(update[i].0 != update[at].0);
        }
        merging_sets_the_named_members(target, head, at);
        assert(update[update.len() - 1].0 != update[at].0);
        json::lemma_other_entry(before, key, value, update[at].0);
    } else {
        json::lemma_set_entry(before, key, value);
    }
}

proof fn lemma_unmerged(target: Seq<(Seq<char>, JsonView)>, update: Seq<(Seq<char>, JsonView)>)
    ensures
        json::lookup(render::merged_entries(target, update), "toolCallId"@) == json::lookup(
            target,
            "toolCallId"@,
        ),
        json::lookup(render::merged_entries(target, update), "_meta"@) == json::lookup(
            target,
            "_meta"@,
        ),
    decreases update.len(),
{
    if update.len() > 0 {
        let head = update.drop_last();
        lemma_unmerged(target, head);
        let before = render::merged_entries(target, head);
        let (key, value) = update.last();
        if key != "toolCallId"@ && key != "_meta"@ {
            json::lemma_other_entry(before, key, value, "toolCallId"@);
            json::lemma_other_entry(before, key, value, "_meta"@);
        }
    }
}

/// What a batch makes of a source depends on the updates of that source alone: one of
/// another source changes nothing, and one of its own is applied to what was made of
/// the ones before it, or to what is stored where there were none.
pub proof fn a_source_is_made_of_its_own_updates(
    events: Seq<ProjectionEvent>,
    event: ProjectionEvent,
    source: (GenericChannelId, Seq<char>, Seq<char>),
    stored: Option<ProjectionView>,
)
    ensures
        render::folded(Seq::empty(), source, stored) is None,
        render::event_source(event) != Some(source) ==> render::folded(
            events.push(event),
            source,
            stored,
        ) == render::folded(events, source, stored),
        render::event_source(event) == Some(source) ==> ({
            let before = render::folded(events, source, stored);
            let previous = match before {
                Some(made) => Some(made),
                None => stored,
            };
            render::reduced(previous, event) matches Reduced::Updated(next) ==> render::folded(
                events.push(event),
                source,
                stored,
            ) == Some(next)
        }),
{
    assert(events.push(event).drop_last() =~= events);
}

/// What is shown of a state goes by its kind: texts are shown as they are, thoughts
/// trimmed and in italics, tool calls and plans by what they tell, and nothing else.
pub proof fn a_state_is_shown_by_its_kind(
    messages: Seq<Seq<char>>,
    kind: Seq<char>,
    state: JsonView,
    told: Seq<char>,
)
    requires
        present::show_state(messages, kind, state),
        state.str_at("text"@) == Some(told) || (state.str_at("text"@) is None && told.len() == 0),
    ensures
        kind == "user_message"@ || kind == "agent_message"@ ==> (messages.len() == 0 <==> told.len()
            == 0) && (told.len() > 0 ==> split::presents(messages, told)),
        kind == "agent_thought"@ ==> (messages.len() == 0 <==> text::trimmed(told).len() == 0) && (
        forall|i: int|
            0 <= i < messages.len() ==> (#[trigger] messages[i]).len() >= 2 && messages[i][0] == '*'
                && messages[i].last() == '*'),
        kind == "agent_thought"@ && messages.len() > 0 ==> split::presents(
            messages.map_values(|m: Seq<char>| m.subrange(1, m.len() - 1)),
            text::trimmed(told),
        ),
        kind == "tool_call"@ ==> split::presents(messages, present::tool_text(state)),
        kind == "plan"@ ==> split::presents(messages, present::plan_text(state)),
        messages.len() > 0 ==> seq![
            "user_message"@,
            "agent_message"@,
            "agent_thought"@,
            "tool_call"@,
            "plan"@,
        ].contains(kind),
{
    let known = seq![
        "user_message"@,
        "agent_message"@,
        "agent_thought"@,
        "tool_call"@,
        "plan"@,
    ];
    assert(known[0] == "user_message"@ && known[1] == "agent_message"@ && known[2]
        == "agent_thought"@ && known[3] == "tool_call"@ && known[4] == "plan"@);
    if kind == "agent_thought"@ && text::trimmed(told).len() > 0 {
        let shown = text::trimmed(told);
        let parts = choose|parts: Seq<Seq<char>>|
            #![trigger split::presents(parts, shown)]
            split::presents(parts, shown) && present::are_starred(messages, parts);
        let inner = messages.map_values(|m: Seq<char>| m.subrange(1, m.len() - 1));
        assert forall|i: int| 0 <= i < messages.len() implies #[trigger] inner[i] == parts[i] by {
            assert(messages[i] == seq!['*'] + parts[i] + seq!['*']);
            assert(messages[i].subrange(1, messages[i].len() - 1) =~= parts[i]);
        }
        assert(inner =~= parts);
        assert forall|i: int| 0 <= i < messages.len() implies (#[trigger] messages[i]).len() >= 2
            && messages[i][0] == '*' && messages[i].last() == '*' by {
            assert(messages[i] == seq!['*'] + parts[i] + seq!['*']);
        }
    }
}

/// An update that cannot be applied fails the batch with its own reason.
pub proof fn a_failed_update_fails_the_batch(
    projections: Seq<ProjectionView>,
    event: ProjectionEvent,
    stored: Option<ProjectionView>,
)
    requires
        render::event_source(event) is Some,
        forall|i: int|
            0 <= i < projections.len() ==> render::event_source(event) != Some(
                render::source_of(#[trigger] projections[i]),
            ),
        !(render::reduced(stored, event) is Updated),
        !(render::reduced(stored, event) is Ignored),
    ensures
        render::collected(projections, event, stored) == render::Collected::Failed(
            render::reduced(stored, event),
        ),
{
    let source = render::event_source(event)->0;
    render::lemma_position_of(projections, source);
    let at = render::position_of(projections, source);
    if at < projections.len() {
        assert(render::source_of(projections[at]) == source);
    }
}

} // verus!
