//! Laws of mirroring herdr sessions into forums.

use vstd::prelude::*;

use crate::db::model::{SessionRowView, WorkspaceRowView};
use crate::discord::present;
use crate::forum::ForumView;
use crate::forum::events;
use crate::forum::events::{EventStepView, PruneStep, TypingStep};
use crate::forum::mirror;
use crate::forum::mirror::{MirrorEvent, MirrorRun};
use crate::forum::poll;
use crate::forum::poll::TranscriptFile;
use crate::forum::post;
use crate::forum::post::EnsureStep;
use crate::forum::resume;
use crate::forum::spawn;
use crate::forum::spawn::{SpawnEvent, SpawnPhase, SpawnStep};
use crate::forum::sync;
use crate::forum::sync::{SyncEvent, SyncLimits, SyncStepView, SyncView, ToolStepView};
use crate::forum::tags;
use crate::forum::titles;
use crate::forum::workspace;
use crate::forum::workspace::{RekeyView, WorkspacePrune};
use crate::forum::Stamp;
use crate::discord::forum::ForumTag;
use crate::db;
use crate::herdr::event;
use crate::herdr::event::EventKind;
use crate::herdr::model::{Agent, AgentStatus, Workspace};
use crate::herdr::wire::WorktreeEntry;
use crate::ids::{ChannelId, ForumTagId, MessageId};
use crate::json::JsonView;
use crate::laws::forums;
use crate::laws::tools;
use crate::paths;
use crate::seqs;
use crate::session::{Harness, SessionMessage, SessionRole, ToolState};
use crate::text;

verus! {

/// Each message of a transcript is mirrored in turn by who wrote it: a turn of the user
/// is echoed behind the last message, one of the agent is posted, and a tool is synced.
/// What was posted is stored with how far the transcript is mirrored, a message that
/// posted nothing is passed over, and what fails is reported.
pub proof fn a_message_is_mirrored_by_its_role<E>(state: SyncView, event: SyncEvent<E>)
    requires
        state.happens(event),
        state.next < state.roles.len(),
    ensures
        ({
            let (after, step) = state.after(event);
            let on = match event {
                SyncEvent::Announced => Some(state.next),
                SyncEvent::Mirrored(Ok(None)) => Some(state.next + 1),
                SyncEvent::Stored(Ok(_)) => Some(state.next + 1),
                _ => None,
            };
            &&& on matches Some(at) ==> after.next == at && after.last == state.last && if at
                < state.roles.len() {
                match state.roles[at as int] {
                    SessionRole::Agent => step == SyncStepView::<E>::PostAgent(at),
                    SessionRole::Tool => step == SyncStepView::<E>::SyncTool(at),
                    SessionRole::User => step == SyncStepView::<E>::Echo(at, state.last),
                }
            } else {
                step is Complete
            }
            &&& event matches SyncEvent::Mirrored(Ok(Some(message))) ==> (message.0 <= i64::MAX
                && state.next < i64::MAX ==> {
                &&& after.last == Some(message.0 as i64)
                &&& step matches SyncStepView::Store(row) && row.synced_messages == state.next + 1
                    && row.last_discord_message_id == Some(message.0 as i64)
                    && row.session_path == state.row.session_path && row.post_channel_id
                    == state.row.post_channel_id && row.transcript_path
                    == state.row.transcript_path && row.cwd == state.row.cwd
                    && row.workspace_label == state.row.workspace_label
                    && row.starter_message_id == state.row.starter_message_id
            })
            &&& event matches SyncEvent::Mirrored(Err(error)) ==> step == SyncStepView::Failed(error)
            &&& event matches SyncEvent::Stored(Err(error)) ==> step == SyncStepView::Failed(error)
            &&& step is Complete || step is Failed ==> after.phase is Ended
        }),
{
}

/// A session is mirrored from behind what was mirrored before. Where more than the
/// backlog is left, only the last messages are, and how many are left out is told.
pub proof fn a_sync_starts_behind_what_is_mirrored<E>(
    row: SessionRowView,
    roles: Seq<SessionRole>,
    limits: SyncLimits,
)
    requires
        0 <= row.synced_messages <= roles.len(),
        row.synced_messages <= usize::MAX,
        roles.len() <= usize::MAX,
    ensures
        ({
            let (state, step) = sync::sync_start::<E>(row, roles, limits);
            let pending = roles.len() - row.synced_messages;
            let left_out = pending > limits.backlog && pending > limits.keep;
            &&& state.row == row && state.roles == roles && state.last
                == row.last_discord_message_id
            &&& left_out ==> state.next == roles.len() - limits.keep && step
                == SyncStepView::<E>::Announce(sync::omission((pending - limits.keep) as nat))
            &&& !left_out ==> state.next == row.synced_messages && !(step is Announce)
        }),
{
}

/// A message of a tool that is no call is shown whole in a block.
pub proof fn a_tool_message_is_shown_whole(
    state: ForumView,
    session_path: Seq<char>,
    message: SessionMessage,
)
    requires
        message.tool is None,
    ensures
        sync::tool_step(state, session_path, message) matches sync::ToolStepView::Fallback(shown)
            && text::contains(tools::unmarked(shown), tools::unmarked(message.text@)),
{
    let value = message.text@;
    let inner = present::unfenced(value);
    tools::breaking_fences_adds_marks_only(value);
    let shown = sync::code_block(value);
    tools::lemma_unmarked_add("```\n"@ + inner, "\n```"@);
    tools::lemma_unmarked_add("```\n"@, inner);
    tools::lemma_contains(
        tools::unmarked("```\n"@),
        tools::unmarked(inner),
        tools::unmarked("\n```"@),
    );
}

/// The tool calls that are looked at again are those that were posted before.
pub proof fn posted_calls_are_looked_at_again(
    state: ForumView,
    session_path: Seq<char>,
    messages: Seq<SessionMessage>,
    at: int,
)
    requires
        0 <= at < messages.len() <= usize::MAX,
    ensures
        sync::completing(state, session_path, messages).contains(at as usize) <==> messages[at].role
            is Tool && (messages[at].tool matches Some(call) && state.tools.dom().contains(
            (session_path, call.call_id@),
        )),
        forall|k: int|
            0 <= k < sync::completing(state, session_path, messages).len()
                ==> #[trigger] sync::completing(state, session_path, messages)[k]
                < messages.len(),
    decreases messages.len(),
{
    let head = messages.drop_last();
    let all = sync::completing(state, session_path, messages);
    let before = sync::completing(state, session_path, head);
    if head.len() > 0 {
        posted_calls_are_looked_at_again(
            state,
            session_path,
            head,
            if at < head.len() {
                at
            } else {
                0
            },
        );
    }
    assert forall|k: int| 0 <= k < all.len() implies #[trigger] all[k] < messages.len() by {
        if k < before.len() {
            assert(all[k] == before[k]);
        }
    }
    if at < head.len() {
        assert(head[at] == messages[at]);
        if before.contains(at as usize) {
            let k = choose|k: int| 0 <= k < before.len() && before[k] == at as usize;
            assert(all[k] == at as usize);
        }
        if all.contains(at as usize) {
            let k = choose|k: int| 0 <= k < all.len() && all[k] == at as usize;
            assert(before[k] == at as usize);
        }
    } else {
        if all.len() > before.len() {
            assert(all[before.len() as int] == at as usize);
        } else {
            assert forall|k: int| 0 <= k < all.len() implies all[k] != at as usize by {
                assert(all[k] == before[k]);
                assert(before[k] < head.len());
            }
        }
    }
}

/// An agent runs a stored session: what it reports is the session or its transcript.
pub open spec fn runs(agent: Agent, row: SessionRowView) -> bool {
    agent.agent_session matches Some(own) && (own.value@ == row.session_path || own.value@
        == row.transcript_path)
}

/// The live agent of a session is the first that runs it, and there is none exactly
/// where none does.
pub proof fn the_live_agent_runs_the_session(agents: Seq<Agent>, row: SessionRowView)
    ensures
        match mirror::live_agent_of(agents, row) {
            Some(agent) => exists|i: int|
                0 <= i < agents.len() && #[trigger] agents[i] == agent && runs(agents[i], row) && (
                forall|j: int| 0 <= j < i ==> !runs(#[trigger] agents[j], row)),
            None => forall|i: int| 0 <= i < agents.len() ==> !runs(#[trigger] agents[i], row),
        },
{
    let wanted = mirror::hosting(row);
    seqs::lemma_first_where(agents, wanted);
    assert forall|agent: Agent| #[trigger] wanted(agent) == runs(agent, row) by {
    }
    let at = seqs::first_where(agents, wanted);
    if at < agents.len() {
        assert(wanted(agents[at]));
    }
}

/// A session is mirrored into the forum that its post was found in. A session whose post
/// is gone is set up again exactly where an agent runs it, and only then tried once more.
pub proof fn a_session_is_mirrored_into_its_forum(run: MirrorRun, event: MirrorEvent<'_>)
    ensures
        ({
            let next = mirror::mirror_next(run, event);
            &&& next matches MirrorRun::Mirror(forum_id) ==> run == next || (event
                matches MirrorEvent::Forum(Some(found)) && found == forum_id && (run is Resolve
                || run is Rebound))
            &&& run is Resolve && (event matches MirrorEvent::Forum(None)) ==> next is Recover
            &&& run is Resolve && (event matches MirrorEvent::Forum(Some(_))) ==> next is Mirror
            &&& run is Rebound && (event matches MirrorEvent::Forum(Some(_))) ==> next is Mirror
            &&& run is Rebound && (event matches MirrorEvent::Forum(None)) ==> next is Ended
            &&& run is Recover ==> (event matches MirrorEvent::Agents(agents, row) ==> (next is Sync
                <==> mirror::live_agent_of(agents@, row@) is Some) && (next is Ended
                <==> mirror::live_agent_of(agents@, row@) is None))
            &&& (run is Stored || run is Restored) ==> (event matches MirrorEvent::Row(row) ==> {
                let usable = row is Some && row->0@.post_channel_id is Some
                    && row->0@.post_channel_id->0 >= 0;
                &&& next is Ended <==> !usable
                &&& usable && run is Stored ==> next == MirrorRun::Resolve(
                    ChannelId(row->0@.post_channel_id->0 as u64),
                )
                &&& usable && run is Restored ==> next == MirrorRun::Rebound(
                    ChannelId(row->0@.post_channel_id->0 as u64),
                )
            })
            &&& run is Sync && event is Made ==> next is Restored
            &&& run is Mirror && event is Made ==> next is Ended
        }),
{
}

/// An event leads to something about the very pane or workspace that it names, and to
/// nothing where it names none.
pub proof fn an_event_is_about_what_it_names(
    kind: Option<EventKind>,
    data: JsonView,
    panes: Map<Seq<char>, Seq<char>>,
)
    ensures
        ({
            let step = events::event_step(kind, data, panes);
            let pane = event::pane_of(data);
            let place = event::workspace_of(data);
            &&& step is SyncAgent <==> kind == Some(EventKind::PaneAgentStatusChanged) && pane
                is Some
            &&& step matches EventStepView::SyncAgent(id, status) ==> Some(id) == pane && status
                == data.str_at("agent_status"@)
            &&& step is Resubscribe <==> kind == Some(EventKind::PaneAgentDetected) && pane is Some
                && !panes.dom().contains(pane->0)
            &&& step is ClosePane <==> (kind == Some(EventKind::PaneClosed) || kind == Some(
                EventKind::PaneExited,
            )) && pane is Some
            &&& step matches EventStepView::ClosePane(id) ==> Some(id) == pane
            &&& step is CloseWorkspace <==> kind == Some(EventKind::WorkspaceClosed) && place is Some
            &&& step matches EventStepView::CloseWorkspace(id) ==> Some(id) == place
            &&& step is SyncWorkspace <==> (kind == Some(EventKind::WorkspaceCreated) || kind
                == Some(EventKind::WorkspaceUpdated) || kind == Some(EventKind::WorkspaceRenamed))
                && place is Some
            &&& step matches EventStepView::SyncWorkspace(id) ==> Some(id) == place
        }),
{
}

/// A payload names its pane itself or through its pane, and its workspace itself, through
/// its workspace or through its pane, in this order.
pub proof fn a_payload_names_itself_first(data: JsonView, id: Seq<char>)
    ensures
        data.str_at("pane_id"@) == Some(id) ==> event::pane_of(data) == Some(id),
        data.str_at("pane_id"@) is None && (data.get("pane"@) matches Some(inner)
            && inner.str_at("pane_id"@) == Some(id)) ==> event::pane_of(data) == Some(id),
        data.str_at("workspace_id"@) == Some(id) ==> event::workspace_of(data) == Some(id),
        data.str_at("workspace_id"@) is None && (data.get("workspace"@) matches Some(inner)
            && inner.str_at("workspace_id"@) == Some(id)) ==> event::workspace_of(data) == Some(
            id,
        ),
        data.str_at("workspace_id"@) is None && data.get("workspace"@) is None && (data.get(
            "pane"@,
        ) matches Some(inner) && inner.str_at("workspace_id"@) == Some(id))
            ==> event::workspace_of(data) == Some(id),
        data.str_at("pane_id"@) is None && data.get("pane"@) is None ==> event::pane_of(data)
            is None,
        data.str_at("workspace_id"@) is None && data.get("workspace"@) is None && data.get("pane"@)
            is None ==> event::workspace_of(data) is None,
{
}

/// The bot types in the post of a session exactly while its agent works.
pub proof fn the_bot_types_while_the_agent_works(
    row: SessionRowView,
    status: AgentStatus,
    running: bool,
)
    requires
        row.post_channel_id matches Some(id) && id >= 0,
    ensures
        ({
            let step = events::typing_step(Some(row), status, running);
            &&& step is Start <==> status is Working && !running
            &&& step matches TypingStep::Start(post) ==> post.0 == row.post_channel_id->0
            &&& step is Stop <==> !(status is Working) && running
        }),
{
}

/// Some agent reports a session value.
pub open spec fn is_reported(agents: Seq<Agent>, value: Seq<char>) -> bool {
    exists|i: int|
        0 <= i < agents.len() && ((#[trigger] agents[i]).agent_session matches Some(own)
            && own.value@ == value)
}

proof fn lemma_live_values(agents: Seq<Agent>, value: Seq<char>)
    ensures
        events::live_values(agents).contains(value) <==> is_reported(agents, value),
    decreases agents.len(),
{
    let all = events::live_values(agents);
    if agents.len() > 0 {
        let head = agents.drop_last();
        let before = events::live_values(head);
        lemma_live_values(head, value);
        if all.contains(value) {
            let k = choose|k: int| 0 <= k < all.len() && all[k] == value;
            if k < before.len() {
                assert(before[k] == value);
                let i = choose|i: int|
                    0 <= i < head.len() && ((#[trigger] head[i]).agent_session matches Some(own)
                        && own.value@ == value);
                assert(agents[i] == head[i]);
            } else {
                assert(agents[agents.len() - 1].agent_session is Some);
            }
        }
        if is_reported(agents, value) {
            let i = choose|i: int|
                0 <= i < agents.len() && ((#[trigger] agents[i]).agent_session matches Some(own)
                    && own.value@ == value);
            if i < head.len() {
                assert(head[i] == agents[i]);
                let k = choose|k: int| 0 <= k < before.len() && before[k] == value;
                assert(all[k] == value);
            } else {
                assert(all.last() == value);
            }
        }
    }
}

/// A stored session is kept exactly where it has no post or an agent runs it; what is
/// checked otherwise is its own post.
pub proof fn only_sessions_that_nobody_runs_are_pruned(row: SessionRowView, agents: Seq<Agent>)
    ensures
        ({
            let step = events::prune_step(row, events::live_values(agents));
            &&& step is Keep <==> row.post_channel_id is None || exists|i: int|
                0 <= i < agents.len() && runs(#[trigger] agents[i], row)
            &&& step matches PruneStep::Check(post) ==> row.post_channel_id is Some && post.0
                == row.post_channel_id->0
            &&& step is Forget ==> row.post_channel_id is Some && row.post_channel_id->0 < 0
        }),
{
    let live = events::live_values(agents);
    if events::lives(row, live) {
        let k = choose|k: int| 0 <= k < live.len() && row.hosts(#[trigger] live[k]);
        lemma_live_values(agents, live[k]);
        assert(live.contains(live[k]));
        let i = choose|i: int|
            0 <= i < agents.len() && ((#[trigger] agents[i]).agent_session matches Some(own)
                && own.value@ == live[k]);
        assert(runs(agents[i], row));
    }
    if exists|i: int| 0 <= i < agents.len() && runs(#[trigger] agents[i], row) {
        let i = choose|i: int| 0 <= i < agents.len() && runs(#[trigger] agents[i], row);
        let value = agents[i].agent_session->0.value@;
        assert(is_reported(agents, value));
        lemma_live_values(agents, value);
        let k = choose|k: int| 0 <= k < live.len() && live[k] == value;
        assert(row.hosts(live[k]));
    }
}

/// A transcript that is newer than all others and than the one that is read takes its
/// place, unless it is the same or somebody else reads it.
pub proof fn a_newer_transcript_takes_over(
    row: SessionRowView,
    bound: Stamp,
    files: Seq<TranscriptFile>,
    agents: Seq<Agent>,
    rows: Seq<db::model::SessionRow>,
    at: int,
)
    requires
        0 <= at < files.len(),
        forall|i: int|
            0 <= i < files.len() && i != at ==> poll::later(
                files[at].stamp,
                (#[trigger] files[i]).stamp,
            ),
    ensures
        ({
            let file = files[at].path@;
            let newer = files[at].stamp.seconds > bound.seconds || (files[at].stamp.seconds
                == bound.seconds && files[at].stamp.nanos > bound.nanos);
            let taken = is_reported(agents, file) || exists|i: int|
                0 <= i < rows.len() && (#[trigger] rows[i])@.session_path != row.session_path
                    && rows[i]@.transcript_path == file;
            poll::rotated(row, bound, files, agents, rows) == if newer && !paths::path_equal(
                file,
                row.transcript_path,
            ) && !taken {
                Some(file)
            } else {
                None
            }
        }),
{
    poll::no_file_is_later_than_the_newest(files, at);
    let found = poll::newest(files);
    if found != at {
        assert(poll::later(files[at].stamp, files[found].stamp));
    }
    lemma_live_values(agents, files[at].path@);
}

/// A session that takes over a transcript is mirrored anew from its start, in the same
/// post.
pub proof fn an_adopted_transcript_is_mirrored_anew(
    row: SessionRowView,
    transcript: Seq<char>,
    count: nat,
)
    ensures
        ({
            let next = poll::adopted(row, transcript);
            &&& next.transcript_path == transcript
            &&& sync::consumed_of(next, count) == 0
            &&& next.last_discord_message_id is None
            &&& (
                next.session_path,
                next.post_channel_id,
                next.workspace_label,
                next.cwd,
                next.starter_message_id,
            ) == (
                row.session_path,
                row.post_channel_id,
                row.workspace_label,
                row.cwd,
                row.starter_message_id,
            )
        }),
{
}

/// An agent that was started is the one that is spawned; nothing is started where no
/// place could be made; and what failed first is what is reported.
pub proof fn a_started_agent_is_spawned<E>(phase: SpawnPhase<E>, event: SpawnEvent<E>)
    requires
        spawn::spawn_event(phase, event),
    ensures
        ({
            let (next, step) = spawn::spawn_next(phase, event);
            &&& event matches SpawnEvent::Created(Ok((place, pane))) ==> step
                == SpawnStep::<E>::Start(pane) && next == SpawnPhase::<E>::Starting(place)
            &&& event matches SpawnEvent::Created(Err(error)) ==> step == SpawnStep::Failed(error)
            &&& event matches SpawnEvent::Started(Ok(agent)) ==> step == SpawnStep::<E>::Spawned(
                agent,
            )
            &&& event matches SpawnEvent::Started(Err(error)) ==> next == SpawnPhase::Closing(error)
                && step is Close
            &&& step is Spawned || step is Failed <==> next is Ended
        }),
{
}

/// A free name is not taken. It is the wanted name where that is free, and starts with
/// it otherwise.
pub proof fn a_free_name_is_not_taken(base: Seq<char>, taken: Seq<Seq<char>>, name: Seq<char>)
    requires
        spawn::is_free_name(base, taken, name),
    ensures
        !taken.contains(name),
        !taken.contains(base) ==> name == base,
        text::starts_with(name, base),
{
    assert(name.subrange(0, base.len() as int) =~= base) by {
        if taken.contains(base) {
            let suffix = choose|suffix: nat| 2 <= suffix && name == #[trigger] spawn::suffixed(
                base,
                suffix,
            );
            assert(name == spawn::suffixed(base, suffix));
        }
    }
}

/// An agent starts where another agent of the workspace runs, else where the last
/// session of the workspace ran, else at home.
pub proof fn an_agent_starts_where_others_run(
    agents: Seq<Agent>,
    workspaces: Seq<Workspace>,
    label: Seq<char>,
    at: int,
)
    requires
        0 <= at < agents.len(),
        exists|k: int|
            0 <= k < workspaces.len() && (#[trigger] workspaces[k]).workspace_id@
                == agents[at].workspace_id@ && workspaces[k].label@ == label,
    ensures
        spawn::live_cwd(agents, workspaces, label) matches Some(cwd) && exists|i: int|
            0 <= i <= at && (#[trigger] agents[i]).cwd@ == cwd,
{
    let wanted = spawn::runs_in(workspaces, label);
    seqs::lemma_first_where(agents, wanted);
    let k = choose|k: int|
        0 <= k < workspaces.len() && (#[trigger] workspaces[k]).workspace_id@
            == agents[at].workspace_id@ && workspaces[k].label@ == label;
    assert(spawn::is_workspace(agents[at].workspace_id@, label)(workspaces[k]));
    assert(wanted(agents[at]));
}

/// The tag at a position is the last with a name among the managed ones.
pub open spec fn is_last_managed(all: Seq<ForumTag>, name: Seq<char>, at: int) -> bool {
    &&& 0 <= at < all.len()
    &&& all[at].name@ == name && tags::managed().contains(tags::shown(all[at]))
    &&& forall|k: int|
        at < k < all.len() ==> !((#[trigger] all[k]).name@ == name && tags::managed().contains(
            tags::shown(all[k]),
        ))
}

/// A post carries the tags of its harness and of its status, each as the forum has it,
/// and no other.
pub proof fn a_post_carries_harness_and_status(
    all: Seq<ForumTag>,
    harness: Option<Harness>,
    status: AgentStatus,
    id: ForumTagId,
)
    ensures
        tags::applied_tags(
            tags::harness_tag_of(all, harness),
            tags::tag_of(all, status.name()),
        ).contains(id) <==> exists|at: int|
            #![trigger all[at]]
            0 <= at < all.len() && all[at].id == id && (is_last_managed(all, status.name(), at) || (
            harness matches Some(known) && is_last_managed(all, known.label(), at))),
{
    lemma_tag_of(all, status.name());
    let second = tags::tag_of(all, status.name());
    let first = tags::harness_tag_of(all, harness);
    if let Some(known) = harness {
        lemma_tag_of(all, known.label());
    }
    let applied = tags::applied_tags(first, second);
    if first == Some(id) {
        assert(applied[0] == id);
    }
    if second == Some(id) {
        assert(applied.last() == id);
    }
    if exists|at: int|
        #![trigger all[at]]
        0 <= at < all.len() && all[at].id == id && (is_last_managed(all, status.name(), at) || (
        harness matches Some(known) && is_last_managed(all, known.label(), at))) {
        let at = choose|at: int|
            #![trigger all[at]]
            0 <= at < all.len() && all[at].id == id && (is_last_managed(all, status.name(), at) || (
            harness matches Some(known) && is_last_managed(all, known.label(), at)));
        assert(first == Some(id) || second == Some(id));
    }
}

proof fn lemma_tag_of(all: Seq<ForumTag>, name: Seq<char>)
    ensures
        tags::tag_of(all, name) matches Some(id) ==> exists|at: int|
            #[trigger] is_last_managed(all, name, at) && all[at].id == id,
        forall|at: int| #[trigger]
            is_last_managed(all, name, at) ==> tags::tag_of(all, name) == Some(all[at].id),
{
    let wanted = tags::is_tag(name);
    forums::lemma_last_where(all, wanted);
    let found = seqs::last_where(all, wanted);
    if found >= 0 {
        assert forall|k: int| found < k < all.len() implies !((#[trigger] all[k]).name@ == name
            && tags::managed().contains(tags::shown(all[k]))) by {
            assert(!wanted(all[k]));
        }
        assert(is_last_managed(all, name, found));
    }
    assert forall|at: int| #[trigger] is_last_managed(all, name, at) implies tags::tag_of(all, name)
        == Some(all[at].id) by {
        assert(wanted(all[at]));
        if found > at {
            assert(wanted(all[found]));
        }
        if found < at {
            assert(!wanted(all[at]));
        }
    }
}

/// Every status and every harness has a managed tag: a status with its color, a harness
/// with the robot.
pub proof fn every_status_and_harness_has_a_tag(status: AgentStatus, harness: Harness)
    ensures
        tags::managed().contains(
            (
                status.name(),
                match status {
                    AgentStatus::Idle => "⚪"@,
                    AgentStatus::Working => "🟡"@,
                    AgentStatus::Blocked => "🔴"@,
                    AgentStatus::Done => "🟢"@,
                    AgentStatus::Unknown => "⚫"@,
                },
            ),
        ),
        tags::managed().contains((harness.label(), "🤖"@)),
        tags::managed().len() == 10,
{
    let all = tags::managed();
    let s: int = match status {
        AgentStatus::Idle => 0,
        AgentStatus::Working => 1,
        AgentStatus::Blocked => 2,
        AgentStatus::Done => 3,
        AgentStatus::Unknown => 4,
    };
    assert(all[s] == (status.name(), tags::emoji_of(status)));
    let h: int = match harness {
        Harness::Omp => 5,
        Harness::ClaudeCode => 6,
        Harness::Codex => 7,
        Harness::Pi => 8,
        Harness::Opencode => 9,
    };
    assert(all[h] == (harness.label(), "🤖"@));
}

/// A worktree is mirrored into the forum of the workspace that it comes from, and every
/// other workspace into its own.
pub proof fn a_worktree_is_mirrored_into_its_source(
    place: Workspace,
    source: Option<Seq<char>>,
    workspaces: Seq<Workspace>,
)
    ensures
        ({
            let shown = workspace::mirrored_workspace(place, source, workspaces);
            &&& place.worktree is None || source is None ==> shown == place
            &&& place.worktree is Some ==> (source matches Some(id) ==> {
                &&& (exists|i: int|
                    0 <= i < workspaces.len() && (#[trigger] workspaces[i]).workspace_id@ == id)
                    ==> shown.workspace_id@ == id && workspaces.contains(shown)
                &&& (forall|i: int|
                    0 <= i < workspaces.len() ==> (#[trigger] workspaces[i]).workspace_id@ != id)
                    ==> shown == place
            })
        }),
{
    if let Some(id) = source {
        let wanted = workspace::has_id(id);
        seqs::lemma_first_where(workspaces, wanted);
        let at = seqs::first_where(workspaces, wanted);
        if exists|i: int|
            0 <= i < workspaces.len() && (#[trigger] workspaces[i]).workspace_id@ == id {
            let i = choose|i: int|
                0 <= i < workspaces.len() && (#[trigger] workspaces[i]).workspace_id@ == id;
            assert(wanted(workspaces[i]));
            assert(wanted(workspaces[at]));
        } else if at < workspaces.len() {
            assert(wanted(workspaces[at]));
        }
    }
}

/// The branch of a workspace is that of the first worktree that is open in it, and a
/// workspace that is no worktree has none.
pub proof fn a_branch_is_that_of_the_open_worktree(
    place: Workspace,
    worktrees: Seq<WorktreeEntry>,
    at: int,
)
    requires
        0 <= at < worktrees.len(),
        text::opt_text(worktrees[at].open_workspace_id) == Some(place.workspace_id@),
        forall|i: int|
            0 <= i < at ==> text::opt_text((#[trigger] worktrees[i]).open_workspace_id) != Some(
                place.workspace_id@,
            ),
    ensures
        workspace::branch_of(place, worktrees) == if place.worktree is Some {
            text::opt_text(worktrees[at].branch)
        } else {
            None
        },
{
    let wanted = workspace::open_in(place.workspace_id@);
    assert(wanted(worktrees[at]));
    seqs::lemma_first_where_is(worktrees, wanted, at);
}

/// A stored workspace is kept exactly where it is live or has no usable forum; what is
/// checked otherwise is its own forum.
pub proof fn only_workspaces_that_are_gone_are_pruned(
    row: WorkspaceRowView,
    workspaces: Seq<Workspace>,
)
    ensures
        ({
            let step = workspace::workspace_prune(row, workspaces);
            let live = exists|i: int|
                0 <= i < workspaces.len() && (#[trigger] workspaces[i]).label@ == row.label;
            &&& step is Keep <==> live || row.forum_channel_id is None || row.forum_channel_id->0
                < 0
            &&& step matches WorkspacePrune::Check(forum_id) ==> forum_id.0
                == row.forum_channel_id->0
        }),
{
    let wanted = workspace::has_label(row.label);
    seqs::lemma_first_where(workspaces, wanted);
    let at = seqs::first_where(workspaces, wanted);
    if at < workspaces.len() {
        assert(wanted(workspaces[at]));
        assert(workspaces[at].label@ == row.label);
    }
    if exists|i: int| 0 <= i < workspaces.len() && (#[trigger] workspaces[i]).label@ == row.label {
        let i = choose|i: int|
            0 <= i < workspaces.len() && (#[trigger] workspaces[i]).label@ == row.label;
        assert(wanted(workspaces[i]));
    }
}

/// Binding a forum to a workspace sets its forum and nothing else of what is stored.
pub proof fn binding_sets_the_forum_alone(
    row: Option<WorkspaceRowView>,
    place: Workspace,
    forum_id: i64,
)
    ensures
        ({
            let next = workspace::bound_to(row, place, forum_id);
            &&& next.forum_channel_id == Some(forum_id)
            &&& row matches Some(before) ==> next.label == before.label && next.workspace_id
                == before.workspace_id
            &&& row is None ==> next.label == place.label@ && next.workspace_id
                == place.workspace_id@
        }),
{
}

/// Binding a post to a session starts its mirroring anew and keeps what it is: a stored
/// session its place, a new one the place of its agent.
pub proof fn binding_a_post_starts_the_mirroring_anew(
    existing: Option<SessionRowView>,
    label: Seq<char>,
    path: Seq<char>,
    cwd: Seq<char>,
    channel: i64,
    starter: Option<i64>,
    count: nat,
)
    ensures
        ({
            let next = post::rebound(existing, label, path, cwd, channel, starter);
            &&& next.post_channel_id == Some(channel)
            &&& next.starter_message_id == starter
            &&& sync::consumed_of(next, count) == 0
            &&& next.last_discord_message_id is None
            &&& existing matches Some(row) ==> (
                next.session_path,
                next.transcript_path,
                next.workspace_label,
                next.cwd,
            ) == (row.session_path, row.transcript_path, row.workspace_label, row.cwd)
            &&& existing is None ==> (
                next.session_path,
                next.transcript_path,
                next.workspace_label,
                next.cwd,
            ) == (path, path, label, cwd)
        }),
{
}

/// A session is resumed by what its harness knows it by: its transcript for the first
/// harness, its own identifier for every other.
pub proof fn a_session_is_resumed_by_its_identifier(harness: Harness, row: SessionRowView)
    ensures
        ({
            let args = resume::resumption(harness, row);
            &&& harness is Omp ==> args.len() == 1 && text::ends_with(args[0], row.transcript_path)
            &&& !(harness is Omp) ==> args.len() == 2 && args[1] == row.session_path
        }),
{
    if harness is Omp {
        let arg = "--resume="@ + row.transcript_path;
        assert(arg.subrange(arg.len() - row.transcript_path.len(), arg.len() as int)
            =~= row.transcript_path);
    }
}

/// The title of a session is the recorded one, else that of its terminal without the
/// space around it, else one that names its harness, as far as Discord permits.
pub proof fn a_session_title_is_the_recorded_one(
    recorded: Option<Seq<char>>,
    terminal: Option<Seq<char>>,
    harness: Harness,
)
    ensures
        ({
            let title = titles::session_titled(recorded, terminal, harness);
            let told = if recorded is Some {
                recorded->0
            } else if terminal is Some && !text::is_blank(terminal->0) {
                text::trimmed(terminal->0)
            } else {
                harness.label() + " session"@
            };
            &&& told.len() <= 100 ==> title == told
            &&& told.len() > 100 ==> title == told.take(100) || recorded is None && (terminal is None
                || text::is_blank(terminal->0))
        }),
{
}

/// The first message of a post names the pane, the directory, and where they are known
/// the branch and the session.
pub proof fn an_intro_names_where_a_session_runs(
    pane: Option<Seq<char>>,
    worktree: Option<Seq<char>>,
    cwd: Seq<char>,
    path: Option<Seq<char>>,
)
    ensures
        ({
            let shown = titles::intro(pane, worktree, cwd, path);
            &&& text::contains(shown, cwd)
            &&& pane matches Some(id) ==> text::contains(shown, id)
            &&& pane is None ==> text::starts_with(shown, "inactive"@)
            &&& worktree matches Some(branch) ==> text::contains(shown, branch)
            &&& path matches Some(own) ==> text::contains(shown, own)
        }),
{
    lemma_intro_directory(pane, worktree, cwd, path);
    lemma_intro_pane(pane, worktree, cwd, path);
    lemma_intro_branch(pane, worktree, cwd, path);
    lemma_intro_session(pane, worktree, cwd, path);
}

/// What follows the directory in the first message of a post.
spec fn intro_tail(path: Option<Seq<char>>) -> Seq<char> {
    match path {
        Some(own) => "` · session `"@ + own + "`"@,
        None => "`"@,
    }
}

proof fn lemma_intro_directory(
    pane: Option<Seq<char>>,
    worktree: Option<Seq<char>>,
    cwd: Seq<char>,
    path: Option<Seq<char>>,
)
    ensures
        text::contains(titles::intro(pane, worktree, cwd, path), cwd),
{
    let head = titles::pane_part(pane) + titles::worktree_part(worktree) + " · cwd `"@;
    let tail = intro_tail(path);
    tools::lemma_contains(head, cwd, tail);
    assert(head + cwd + tail =~= titles::intro(pane, worktree, cwd, path));
}

proof fn lemma_intro_pane(
    pane: Option<Seq<char>>,
    worktree: Option<Seq<char>>,
    cwd: Seq<char>,
    path: Option<Seq<char>>,
)
    ensures
        pane matches Some(id) ==> text::contains(titles::intro(pane, worktree, cwd, path), id),
        pane is None ==> text::starts_with(
            titles::intro(pane, worktree, cwd, path),
            "inactive"@,
        ),
{
    let shown = titles::intro(pane, worktree, cwd, path);
    let first = titles::pane_part(pane);
    let rest = titles::worktree_part(worktree) + " · cwd `"@ + cwd + intro_tail(path);
    assert(first + rest =~= shown);
    if let Some(id) = pane {
        tools::lemma_contains("`"@, id, "`"@ + rest);
        assert("`"@ + id + ("`"@ + rest) =~= first + rest);
    } else {
        assert((first + rest).subrange(0, "inactive"@.len() as int) =~= "inactive"@);
    }
}

proof fn lemma_intro_branch(
    pane: Option<Seq<char>>,
    worktree: Option<Seq<char>>,
    cwd: Seq<char>,
    path: Option<Seq<char>>,
)
    ensures
        worktree matches Some(branch) ==> text::contains(
            titles::intro(pane, worktree, cwd, path),
            branch,
        ),
{
    if let Some(branch) = worktree {
        let before = titles::pane_part(pane) + " · worktree `"@;
        let rest = "`"@ + " · cwd `"@ + cwd + intro_tail(path);
        tools::lemma_contains(before, branch, rest);
        assert(before + branch + rest =~= titles::intro(pane, worktree, cwd, path));
    }
}

proof fn lemma_intro_session(
    pane: Option<Seq<char>>,
    worktree: Option<Seq<char>>,
    cwd: Seq<char>,
    path: Option<Seq<char>>,
)
    ensures
        path matches Some(own) ==> text::contains(titles::intro(pane, worktree, cwd, path), own),
{
    if let Some(own) = path {
        let place = titles::pane_part(pane) + titles::worktree_part(worktree) + " · cwd `"@ + cwd;
        let before = place + "` · session `"@;
        tools::lemma_contains(before, own, "`"@);
        assert(before + own + "`"@ =~= titles::intro(pane, worktree, cwd, path));
    }
}

/// A tool call is posted once, shown again only where it has changed, and then in the
/// message that was posted.
pub proof fn a_tool_call_is_updated_where_it_changed(
    posted: Option<(MessageId, ToolState)>,
    state: ToolState,
)
    ensures
        posted is None <==> sync::call_step(posted, state) is Post,
        posted matches Some((message, shown)) ==> (sync::call_step(posted, state) is Keep <==> shown
            == state),
        posted matches Some((message, shown)) ==> (shown != state ==> sync::call_step(posted, state)
            == ToolStepView::Update(message)),
{
}

/// A workspace keeps its forum when its label or its identifier changes, and is stored
/// under what it bears now; a row that bears both already is left as it is.
pub proof fn a_renamed_workspace_keeps_its_forum(
    live: Workspace,
    by_label: Option<WorkspaceRowView>,
    by_id: Option<WorkspaceRowView>,
    by_old_key: Option<WorkspaceRowView>,
)
    ensures
        ({
            let step = workspace::rekey_step(live, by_label, by_id, by_old_key);
            &&& by_label matches Some(row) ==> (row.workspace_id == live.workspace_id@ ==> step
                is Keep) && (row.workspace_id != live.workspace_id@ ==> step is Update)
            &&& step matches RekeyView::Update(next) ==> next.workspace_id == live.workspace_id@ && (
            by_label matches Some(row) && next.label == row.label && next.forum_channel_id
                == row.forum_channel_id)
            &&& step matches RekeyView::Move(old, next) ==> next.label == live.label@
                && next.workspace_id == live.workspace_id@ && by_label is None
            &&& by_label is None && by_id is Some ==> step is Move && step->Move_0 == by_id->0.label
                && step->Move_1.forum_channel_id == by_id->0.forum_channel_id
            &&& by_label is None && by_id is None && by_old_key is Some ==> step is Move
                && step->Move_0 == by_old_key->0.label && step->Move_1.forum_channel_id
                == by_old_key->0.forum_channel_id
            &&& by_label is None && by_id is None && by_old_key is None ==> step is Keep
        }),
{
}

/// Nothing is known of where to start where no agent runs in the workspace.
pub proof fn an_idle_workspace_has_no_directory(
    agents: Seq<Agent>,
    workspaces: Seq<Workspace>,
    label: Seq<char>,
)
    requires
        forall|i: int, k: int|
            0 <= i < agents.len() && 0 <= k < workspaces.len() && (
            #[trigger] workspaces[k]).label@ == label ==> workspaces[k].workspace_id@ != (
            #[trigger] agents[i]).workspace_id@,
    ensures
        spawn::live_cwd(agents, workspaces, label) is None,
{
    let wanted = spawn::runs_in(workspaces, label);
    seqs::lemma_first_where(agents, wanted);
    let found = seqs::first_where(agents, wanted);
    if found < agents.len() {
        assert(wanted(agents[found]));
        let k = choose|k: int|
            0 <= k < workspaces.len() && spawn::is_workspace(agents[found].workspace_id@, label)(
                #[trigger] workspaces[k],
            );
        assert(workspaces[k].label@ == label);
    }
}

/// Of two times the later one has more seconds, or as many and more nanoseconds; a time
/// is not later than itself.
pub proof fn a_later_time_is_a_greater_one(left: Stamp, right: Stamp)
    ensures
        left.seconds > right.seconds ==> poll::later(left, right) && !poll::later(right, left),
        left.seconds == right.seconds ==> (poll::later(left, right) <==> left.nanos > right.nanos),
{
}

/// An event bears the name of its kind with an underscore for the dot; only a change of
/// an agent's status may bear the name with the dot as well.
pub proof fn an_event_bears_the_name_of_its_kind(kind: EventKind, wire: Seq<char>)
    ensures
        kind.named(wire) <==> wire == text::replaced(kind.name(), '.', '_') || (kind
            is PaneAgentStatusChanged && wire == "pane.agent_status_changed"@),
{
    lemma_underscored(kind);
}

proof fn lemma_underscored(kind: EventKind)
    ensures
        text::replaced(kind.name(), '.', '_') == kind.wire_name(),
{
    match kind {
        EventKind::WorkspaceCreated => {
            reveal_strlit("workspace.created");
            reveal_strlit("workspace_created");
        },
        EventKind::WorkspaceUpdated => {
            reveal_strlit("workspace.updated");
            reveal_strlit("workspace_updated");
        },
        EventKind::WorkspaceClosed => {
            reveal_strlit("workspace.closed");
            reveal_strlit("workspace_closed");
        },
        EventKind::WorkspaceRenamed => {
            reveal_strlit("workspace.renamed");
            reveal_strlit("workspace_renamed");
        },
        EventKind::TabCreated => {
            reveal_strlit("tab.created");
            reveal_strlit("tab_created");
        },
        EventKind::TabClosed => {
            reveal_strlit("tab.closed");
            reveal_strlit("tab_closed");
        },
        EventKind::PaneCreated => {
            reveal_strlit("pane.created");
            reveal_strlit("pane_created");
        },
        EventKind::PaneClosed => {
            reveal_strlit("pane.closed");
            reveal_strlit("pane_closed");
        },
        EventKind::PaneUpdated => {
            reveal_strlit("pane.updated");
            reveal_strlit("pane_updated");
        },
        EventKind::PaneExited => {
            reveal_strlit("pane.exited");
            reveal_strlit("pane_exited");
        },
        EventKind::PaneAgentDetected => {
            reveal_strlit("pane.agent_detected");
            reveal_strlit("pane_agent_detected");
        },
        EventKind::PaneAgentStatusChanged => {
            reveal_strlit("pane.agent_status_changed");
            reveal_strlit("pane_agent_status_changed");
        },
    }
    assert(text::replaced(kind.name(), '.', '_') =~= kind.wire_name());
}

/// A session that has a post is not posted again: the post is checked. One without gets
/// one, under the key that it is stored by, or its path where it is not stored.
pub proof fn a_session_is_posted_once(
    step: EnsureStep,
    row: Option<SessionRowView>,
    session_path: Seq<char>,
)
    requires
        step.follows(row, session_path),
    ensures
        step is Create <==> row is None || row->0.post_channel_id is None,
        step is Check <==> row is Some && row->0.post_channel_id is Some
            && row->0.post_channel_id->0 >= 0,
        step matches EnsureStep::Create(key) ==> key@ == match row {
            Some(row) => row.session_path,
            None => session_path,
        },
        step matches EnsureStep::Check(post, key) ==> row is Some && Some(post.0 as int) == Some(
            row->0.post_channel_id->0 as int,
        ) && key@ == row->0.session_path,
{
}

/// A session is known by its key first and by its transcript otherwise.
pub proof fn a_session_is_known_by_its_key_first(
    by_key: Option<SessionRowView>,
    by_transcript: Option<SessionRowView>,
)
    ensures
        by_key is Some ==> post::chosen_row(by_key, by_transcript) == by_key,
        by_key is None ==> post::chosen_row(by_key, by_transcript) == by_transcript,
{
}

/// A session is hosted exactly where some pane shows it; the panes that are kept host
/// no session that was not hosted before.
pub proof fn a_hosted_session_is_shown_by_a_pane(
    panes: Map<Seq<char>, Seq<char>>,
    reported: Seq<Seq<char>>,
    pane: Seq<char>,
    session_path: Seq<char>,
)
    ensures
        panes.dom().contains(pane) && panes[pane] == session_path ==> events::hosted_in(
            panes,
            session_path,
        ),
        events::hosted_in(events::kept(panes, reported), session_path) ==> events::hosted_in(
            panes,
            session_path,
        ),
        !events::hosted_in(Map::empty(), session_path),
        events::hosted_in(map![pane => session_path], session_path),
{
    let kept = events::kept(panes, reported);
    if events::hosted_in(kept, session_path) {
        let shown = choose|shown: Seq<char>| #[trigger]
            kept.dom().contains(shown) && kept[shown] == session_path;
        assert(panes.dom().contains(shown) && panes[shown] == session_path);
    }
    let one = map![pane => session_path];
    assert(one.dom().contains(pane) && one[pane] == session_path);
}

} // verus!
