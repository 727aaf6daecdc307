//! Event-driven sync: what herdr events lead to, the reconcile drift backstop,
//! and pane lifecycle handling (typing indicators, post inactivation on death).

use vstd::prelude::*;

use crate::db::model::{SessionRow, SessionRowView};
use crate::error::BotResult;
use crate::forum;
use crate::forum::lookup::Existence;
use crate::forum::titles;
use crate::forum::{Forum, ForumView};
use crate::herdr::client;
use crate::herdr::event;
use crate::herdr::event::{Event, EventKind, Subscription};
use crate::herdr::model::{Agent, AgentStatus, PaneId, SessionPath, WorkspaceId};
use crate::ids::ChannelId;
use crate::json;
use crate::json::JsonView;
use crate::text;

verus! {

/// The content of subscriptions.
pub open spec fn subscribed(subscriptions: Seq<Subscription>) -> Seq<
    (EventKind, Option<Seq<char>>),
> {
    subscriptions.map_values(
        |subscription: Subscription|
            (
                subscription.kind,
                match subscription.pane_id {
                    Some(pane) => Some(pane@),
                    None => None,
                },
            ),
    )
}

/// The session-wide lifecycle events.
pub open spec fn lifecycle() -> Seq<(EventKind, Option<Seq<char>>)> {
    seq![
        (EventKind::WorkspaceCreated, None),
        (EventKind::WorkspaceUpdated, None),
        (EventKind::WorkspaceRenamed, None),
        (EventKind::WorkspaceClosed, None),
        (EventKind::PaneAgentDetected, None),
        (EventKind::PaneClosed, None),
        (EventKind::PaneExited, None),
    ]
}

/// The status events of agents' panes.
pub open spec fn pane_events(agents: Seq<Agent>) -> Seq<(EventKind, Option<Seq<char>>)> {
    agents.map_values(
        |agent: Agent| (EventKind::PaneAgentStatusChanged, Some(agent.pane_id@)),
    )
}

/// Makes the subscription set for `agents`: session-wide lifecycle events plus a
/// pane-scoped status subscription for every agent pane. Every subscription that
/// needs a pane has one.
pub fn subscriptions(agents: &Vec<Agent>) -> (wanted: Vec<Subscription>)
    ensures
        subscribed(wanted@) == lifecycle() + pane_events(agents@),
        forall|i: int| 0 <= i < wanted@.len() ==> !client::unscoped(#[trigger] wanted@[i]),
{
    let mut wanted: Vec<Subscription> = vec![
        Subscription::new(EventKind::WorkspaceCreated),
        Subscription::new(EventKind::WorkspaceUpdated),
        Subscription::new(EventKind::WorkspaceRenamed),
        Subscription::new(EventKind::WorkspaceClosed),
        Subscription::new(EventKind::PaneAgentDetected),
        Subscription::new(EventKind::PaneClosed),
        Subscription::new(EventKind::PaneExited),
    ];
    let mut i: usize = 0;
    assert(subscribed(wanted@) =~= lifecycle() + pane_events(agents@.take(0)));
    while i < agents.len()
        invariant
            i <= agents@.len(),
            subscribed(wanted@) == lifecycle() + pane_events(agents@.take(i as int)),
            forall|j: int| 0 <= j < wanted@.len() ==> !client::unscoped(#[trigger] wanted@[j]),
        decreases agents@.len() - i,
    {
        let ghost before = subscribed(wanted@);
        wanted.push(
            Subscription::for_pane(EventKind::PaneAgentStatusChanged, agents[i].pane_id.copy()),
        );
        proof {
            let added = (EventKind::PaneAgentStatusChanged, Some(agents@[i as int].pane_id@));
            assert(subscribed(wanted@) =~= before.push(added));
            assert(pane_events(agents@.take(i + 1)) =~= pane_events(agents@.take(i as int)).push(
                added,
            ));
        }
        i += 1;
    }
    assert(agents@.take(i as int) =~= agents@);
    wanted
}

/// What an event leads to.
pub enum EventStep {
    /// Nothing.
    Ignore,
    /// Fetch the pane's agent and sync its post; the status of the event, where
    /// it has one, is newer than the agent's.
    SyncAgent(PaneId, Option<String>),
    /// A new agent appeared: rebuild the subscription set.
    Resubscribe,
    /// The pane is gone.
    ClosePane(PaneId),
    /// The workspace is gone, and its agents with it.
    CloseWorkspace(WorkspaceId),
    /// The workspace's forum is to follow its label.
    SyncWorkspace(WorkspaceId),
}

/// The content of what an event leads to.
pub ghost enum EventStepView {
    Ignore,
    SyncAgent(Seq<char>, Option<Seq<char>>),
    Resubscribe,
    ClosePane(Seq<char>),
    CloseWorkspace(Seq<char>),
    SyncWorkspace(Seq<char>),
}

impl View for EventStep {
    type V = EventStepView;

    open spec fn view(&self) -> EventStepView {
        match self {
            EventStep::Ignore => EventStepView::Ignore,
            EventStep::SyncAgent(pane, status) => EventStepView::SyncAgent(
                pane@,
                text::opt_text(*status),
            ),
            EventStep::Resubscribe => EventStepView::Resubscribe,
            EventStep::ClosePane(pane) => EventStepView::ClosePane(pane@),
            EventStep::CloseWorkspace(workspace) => EventStepView::CloseWorkspace(workspace@),
            EventStep::SyncWorkspace(workspace) => EventStepView::SyncWorkspace(workspace@),
        }
    }
}

/// What an event of a kind leads to, with the given panes known.
pub open spec fn event_step(
    kind: Option<EventKind>,
    data: JsonView,
    panes: Map<Seq<char>, Seq<char>>,
) -> EventStepView {
    match kind {
        Some(EventKind::PaneAgentStatusChanged) => match event::pane_of(data) {
            Some(pane) => EventStepView::SyncAgent(pane, data.str_at("agent_status"@)),
            None => EventStepView::Ignore,
        },
        Some(EventKind::PaneAgentDetected) => match event::pane_of(data) {
            Some(pane) => if panes.dom().contains(pane) {
                EventStepView::Ignore
            } else {
                EventStepView::Resubscribe
            },
            None => EventStepView::Ignore,
        },
        Some(EventKind::PaneClosed) | Some(EventKind::PaneExited) => match event::pane_of(data) {
            Some(pane) => EventStepView::ClosePane(pane),
            None => EventStepView::Ignore,
        },
        Some(EventKind::WorkspaceClosed) => match event::workspace_of(data) {
            Some(workspace) => EventStepView::CloseWorkspace(workspace),
            None => EventStepView::Ignore,
        },
        Some(EventKind::WorkspaceCreated) | Some(EventKind::WorkspaceUpdated) | Some(
            EventKind::WorkspaceRenamed,
        ) => match event::workspace_of(data) {
            Some(workspace) => EventStepView::SyncWorkspace(workspace),
            None => EventStepView::Ignore,
        },
        _ => EventStepView::Ignore,
    }
}

/// A wire name stands for a kind, or for none that is known.
pub open spec fn is_kind(wire: Seq<char>, kind: Option<EventKind>) -> bool {
    match kind {
        Some(kind) => kind.named(wire),
        None => forall|any: EventKind| !#[trigger] any.named(wire),
    }
}

impl Forum {
    /// Decides what one herdr event leads to.
    ///
    /// A closing workspace kills its agents' panes without per-pane events. A
    /// detected agent in a known pane is nothing new; in an unknown pane it is,
    /// and the subscription set has to cover it.
    pub fn handle_event(&self, event: &Event) -> (step: EventStep)
        ensures
            forall|kind: Option<EventKind>| #[trigger]
                is_kind(event.event@, kind) ==> step@ == event_step(
                    kind,
                    json::json_of(event.data),
                    self@.panes,
                ),
    {
        let found = event.kind();
        proof {
            assert forall|kind: Option<EventKind>| #[trigger]
                is_kind(event.event@, kind) implies kind == found by {
                match (kind, found) {
                    (Some(left), Some(right)) => {
                        event::a_wire_name_stands_for_one_kind(left, right, event.event@);
                    },
                    _ => {},
                }
            }
        }
        match found {
            Some(EventKind::PaneAgentStatusChanged) => match event.pane_id() {
                Some(pane) => {
                    let status = match json::str_member(&event.data, "agent_status") {
                        Some(status) => Some(text::copy(status)),
                        None => None,
                    };
                    EventStep::SyncAgent(pane, status)
                },
                None => EventStep::Ignore,
            },
            Some(EventKind::PaneAgentDetected) => match event.pane_id() {
                Some(pane) => if self.hosted(pane.as_str()).is_some() {
                    EventStep::Ignore
                } else {
                    EventStep::Resubscribe
                },
                None => EventStep::Ignore,
            },
            Some(EventKind::PaneClosed) | Some(EventKind::PaneExited) => match event.pane_id() {
                Some(pane) => EventStep::ClosePane(pane),
                None => EventStep::Ignore,
            },
            Some(EventKind::WorkspaceClosed) => match event.workspace_id() {
                Some(workspace) => EventStep::CloseWorkspace(workspace),
                None => EventStep::Ignore,
            },
            Some(EventKind::WorkspaceCreated)
            | Some(EventKind::WorkspaceUpdated)
            | Some(EventKind::WorkspaceRenamed) => match event.workspace_id() {
                Some(workspace) => EventStep::SyncWorkspace(workspace),
                None => EventStep::Ignore,
            },
            _ => EventStep::Ignore,
        }
    }
}

/// Gives an agent the status that an event reports.
pub fn with_status(agent: Agent, status: Option<String>) -> (changed: Agent)
    ensures
        changed == match status {
            Some(status) => Agent { agent_status: status, ..agent },
            None => agent,
        },
{
    match status {
        Some(status) => {
            let mut changed = agent;
            changed.agent_status = status;
            changed
        },
        None => agent,
    }
}

/// The notice that an agent is blocked: a stuck agent is visible without anyone
/// poking it.
pub const BLOCKED_NOTICE: &'static str = "the agent is **blocked** — it's waiting for input.";

/// Decides where the notice that an agent is blocked is posted, if anywhere. Each
/// blocked status event is a genuine state report, so none is left out.
pub fn post_blocked_notice(status: AgentStatus, session: Option<&SessionRow>) -> (result: BotResult<
    Option<ChannelId>,
>)
    ensures
        match (result, session) {
            (Ok(Some(post)), Some(row)) => status is Blocked && row@.post_channel_id
                == Some(post.0 as i64) && post.0 <= i64::MAX,
            (Ok(None), Some(row)) => !(status is Blocked) || row@.post_channel_id is None,
            (Ok(None), None) => true,
            (Err(error), Some(row)) => match row@.post_channel_id {
                Some(id) => status is Blocked && id < 0 && error.is_other(
                    forum::invalid_channel(id),
                ),
                None => false,
            },
            _ => false,
        },
{
    if status != AgentStatus::Blocked {
        return Ok(None);
    }
    match session {
        Some(session) => forum::bound_post(session),
        None => Ok(None),
    }
}

/// What an agent's state means for the typing indicator of its post.
#[derive(Clone, Copy, Debug, PartialEq, Eq, Structural)]
pub enum TypingStep {
    /// Leave it as it is.
    Keep,
    /// Start it in this post.
    Start(ChannelId),
    /// Stop it.
    Stop,
}

/// What an agent's state means for the typing indicator of its session's post.
pub open spec fn typing_step(
    row: Option<SessionRowView>,
    status: AgentStatus,
    running: bool,
) -> TypingStep {
    match row {
        None => TypingStep::Keep,
        Some(row) => match forum::valid_post(row) {
            None => TypingStep::Keep,
            Some(post) => if status is Working {
                if running {
                    TypingStep::Keep
                } else {
                    TypingStep::Start(post)
                }
            } else if running {
                TypingStep::Stop
            } else {
                TypingStep::Keep
            },
        },
    }
}

/// Starts or stops the session post's typing indicator to match the agent's
/// state: working shows it, any settled state drops it.
pub fn sync_agent_typing(session: Option<&SessionRow>, status: AgentStatus, running: bool) -> (step:
    TypingStep)
    ensures
        step == typing_step(
            match session {
                Some(row) => Some(row@),
                None => None,
            },
            status,
            running,
        ),
{
    match session {
        None => TypingStep::Keep,
        Some(row) => match forum::usable_post(row) {
            None => TypingStep::Keep,
            Some(post) => if status == AgentStatus::Working {
                if running {
                    TypingStep::Keep
                } else {
                    TypingStep::Start(post)
                }
            } else if running {
                TypingStep::Stop
            } else {
                TypingStep::Keep
            },
        },
    }
}

/// Makes the starter message of a post that is marked inactive, after which the
/// post is closed: archived, never locked, so a message still unarchives it and
/// resumes the session.
///
/// An already archived post is left as it is: Discord rejects message edits in
/// archived threads, so inactivating a post twice is the same as once.
pub fn inactivate_post(session: &SessionRow, archived: bool) -> (intro: Option<String>)
    ensures
        match intro {
            Some(intro) => !archived && intro@ == titles::intro(
                None,
                None,
                session@.cwd,
                Some(session@.session_path),
            ),
            None => archived,
        },
{
    if archived {
        return None;
    }
    let path = SessionPath::new(text::copy(session.session_path.as_str()));
    Some(titles::session_intro(None, None, session.cwd.as_str(), Some(&path)))
}

/// Some pane hosts a session.
pub open spec fn hosted_in(panes: Map<Seq<char>, Seq<char>>, path: Seq<char>) -> bool {
    exists|pane: Seq<char>| #[trigger] panes.dom().contains(pane) && panes[pane] == path
}

impl Forum {
    fn hosts_session(&self, session_path: &str) -> (result: bool)
        ensures
            result == hosted_in(self@.panes, session_path@),
    {
        let panes = self.panes();
        let ghost names = text::texts(panes@);
        let mut i: usize = 0;
        while i < panes.len()
            invariant
                i <= panes@.len(),
                names == text::texts(panes@),
                forall|pane: Seq<char>| #[trigger]
                    names.contains(pane) <==> self@.panes.dom().contains(pane),
                forall|j: int| 0 <= j < i ==> self@.panes[#[trigger] names[j]] != session_path@,
            decreases panes@.len() - i,
        {
            assert(names[i as int] == panes@[i as int]@);
            assert(names.contains(names[i as int]));
            if let Some(path) = self.hosted(panes[i].as_str()) {
                if text::same(path.as_str(), session_path) {
                    assert(self@.panes.dom().contains(names[i as int]));
                    return true;
                }
            }
            i += 1;
        }
        proof {
            if hosted_in(self@.panes, session_path@) {
                let pane = choose|pane: Seq<char>| #[trigger]
                    self@.panes.dom().contains(pane) && self@.panes[pane] == session_path@;
                assert(names.contains(pane));
                let j = choose|j: int| 0 <= j < names.len() && names[j] == pane;
                assert(self@.panes[names[j]] != session_path@);
            }
        }
        false
    }

    /// Forgets a closed pane, and returns the session whose post is dead: the one
    /// that the pane hosted, unless another live pane still hosts it (two panes
    /// can share one).
    pub fn mark_pane_closed(&mut self, pane_id: &str) -> (dead: Option<SessionPath>)
        ensures
            final(self)@ == (ForumView {
                panes: old(self)@.panes.remove(pane_id@),
                ..old(self)@
            }),
            match dead {
                Some(path) => old(self)@.panes.dom().contains(pane_id@) && path@
                    == old(self)@.panes[pane_id@] && !hosted_in(final(self)@.panes, path@),
                None => !old(self)@.panes.dom().contains(pane_id@) || hosted_in(
                    final(self)@.panes,
                    old(self)@.panes[pane_id@],
                ),
            },
    {
        match self.unhost(pane_id) {
            Some(path) => if self.hosts_session(path.as_str()) {
                None
            } else {
                Some(path)
            },
            None => None,
        }
    }

    /// Drops the panes that herdr no longer reports (a missed close event, e.g.
    /// herdr restarted between connects) from the live-session set.
    pub fn retain_panes(&mut self, live: &Vec<String>)
        ensures
            final(self)@ == (ForumView {
                panes: kept(old(self)@.panes, text::texts(live@)),
                ..old(self)@
            }),
    {
        let panes = self.panes();
        let ghost names = text::texts(panes@);
        let ghost reported = text::texts(live@);
        let ghost before = self@;
        let mut i: usize = 0;
        while i < panes.len()
            invariant
                i <= panes@.len(),
                names == text::texts(panes@),
                reported == text::texts(live@),
                before == old(self)@,
                forall|pane: Seq<char>| #[trigger]
                    names.contains(pane) <==> before.panes.dom().contains(pane),
                names.no_duplicates(),
                self@ == (ForumView { panes: self@.panes, ..before }),
                forall|pane: Seq<char>| #[trigger]
                    self@.panes.dom().contains(pane) <==> before.panes.dom().contains(pane) && !(
                    names.take(i as int).contains(pane) && !reported.contains(pane)),
                forall|pane: Seq<char>| #[trigger]
                    self@.panes.dom().contains(pane) ==> self@.panes[pane] == before.panes[pane],
            decreases panes@.len() - i,
        {
            let ghost known = self@.panes;
            let ghost name = names[i as int];
            assert(name == panes@[i as int]@);
            let found = text::among(live, panes[i].as_str());
            if !found {
                let path = self.unhost(panes[i].as_str());
            }
            proof {
                let done = names.take(i + 1);
                assert(done =~= names.take(i as int).push(name));
                assert forall|pane: Seq<char>| #[trigger]
                    self@.panes.dom().contains(pane) <==> before.panes.dom().contains(pane) && !(
                    done.contains(pane) && !reported.contains(pane)) by {
                    assert(done.contains(pane) <==> names.take(i as int).contains(pane) || pane
                        == name) by {
                        if done.contains(pane) {
                            let j = choose|j: int| 0 <= j < done.len() && done[j] == pane;
                            if j < i {
                                assert(names.take(i as int)[j] == pane);
                            }
                        }
                        if names.take(i as int).contains(pane) {
                            let j = choose|j: int|
                                0 <= j < i && names.take(i as int)[j] == pane;
                            assert(done[j] == pane);
                        }
                        assert(done[i as int] == name);
                    }
                    assert(known.dom().contains(pane) <==> before.panes.dom().contains(pane) && !(
                    names.take(i as int).contains(pane) && !reported.contains(pane)));
                }
                assert forall|pane: Seq<char>| #[trigger]
                    self@.panes.dom().contains(pane) implies self@.panes[pane]
                    == before.panes[pane] by {
                    assert(known.dom().contains(pane));
                }
            }
            i += 1;
        }
        proof {
            assert(names.take(i as int) =~= names);
            let wanted = kept(before.panes, reported);
            assert forall|pane: Seq<char>|
                #![trigger self@.panes.dom().contains(pane)]
                #![trigger wanted.dom().contains(pane)]
                self@.panes.dom().contains(pane) <==> wanted.dom().contains(pane) by {
                assert(names.contains(pane) <==> before.panes.dom().contains(pane));
            }
            assert(self@.panes =~= wanted);
        }
    }
}

/// The panes that are among the reported ones.
pub open spec fn kept(panes: Map<Seq<char>, Seq<char>>, reported: Seq<Seq<char>>) -> Map<
    Seq<char>,
    Seq<char>,
> {
    Map::new(
        |pane: Seq<char>| panes.dom().contains(pane) && reported.contains(pane),
        |pane: Seq<char>| panes[pane],
    )
}

/// The session values of agents, in order.
pub open spec fn live_values(agents: Seq<Agent>) -> Seq<Seq<char>>
    decreases agents.len(),
{
    if agents.len() == 0 {
        Seq::empty()
    } else {
        match agents.last().session_value() {
            Some(value) => live_values(agents.drop_last()).push(value),
            None => live_values(agents.drop_last()),
        }
    }
}

/// Returns the session values of the live agents.
pub fn live_paths(agents: &Vec<Agent>) -> (paths: Vec<String>)
    ensures
        text::texts(paths@) == live_values(agents@),
{
    let mut paths: Vec<String> = Vec::new();
    let mut i: usize = 0;
    assert(text::texts(paths@) =~= live_values(agents@.take(0)));
    while i < agents.len()
        invariant
            i <= agents@.len(),
            text::texts(paths@) == live_values(agents@.take(i as int)),
        decreases agents@.len() - i,
    {
        let ghost before = text::texts(paths@);
        assert(agents@.take(i + 1).drop_last() =~= agents@.take(i as int));
        if let Some(session) = &agents[i].agent_session {
            paths.push(text::copy(session.value.as_str()));
            assert(text::texts(paths@) =~= before.push(session.value@));
        }
        i += 1;
    }
    assert(agents@.take(i as int) =~= agents@);
    paths
}

/// The panes of agents.
pub open spec fn panes_of(agents: Seq<Agent>) -> Seq<Seq<char>> {
    agents.map_values(|agent: Agent| agent.pane_id@)
}

/// Returns the panes of the live agents.
pub fn live_panes(agents: &Vec<Agent>) -> (panes: Vec<String>)
    ensures
        text::texts(panes@) == panes_of(agents@),
{
    let mut panes: Vec<String> = Vec::new();
    let mut i: usize = 0;
    while i < agents.len()
        invariant
            i <= agents@.len(),
            panes@.len() == i,
            forall|j: int| 0 <= j < i ==> (#[trigger] panes@[j])@ == agents@[j].pane_id@,
        decreases agents@.len() - i,
    {
        panes.push(text::copy(agents[i].pane_id.as_str()));
        i += 1;
    }
    assert(text::texts(panes@) =~= panes_of(agents@));
    panes
}

/// What a session row leads to when stale rows are pruned.
#[derive(Clone, Copy, Debug, PartialEq, Eq, Structural)]
pub enum PruneStep {
    /// The session is live or has no post.
    Keep,
    /// The session is dead and its post is no channel id.
    Forget,
    /// The session is dead; whether its post still exists decides.
    Check(ChannelId),
}

/// Some live session value belongs to a row.
pub open spec fn lives(row: SessionRowView, live: Seq<Seq<char>>) -> bool {
    exists|i: int| 0 <= i < live.len() && row.hosts(#[trigger] live[i])
}

/// What a session row leads to, given the live session values.
pub open spec fn prune_step(row: SessionRowView, live: Seq<Seq<char>>) -> PruneStep {
    if row.post_channel_id is None || lives(row, live) {
        PruneStep::Keep
    } else {
        match forum::valid_post(row) {
            Some(post) => PruneStep::Check(post),
            None => PruneStep::Forget,
        }
    }
}

fn is_live(row: &SessionRow, live: &Vec<String>) -> (result: bool)
    ensures
        result == lives(row@, text::texts(live@)),
{
    let ghost values = text::texts(live@);
    let mut i: usize = 0;
    while i < live.len()
        invariant
            i <= live@.len(),
            values == text::texts(live@),
            forall|j: int| 0 <= j < i ==> !row@.hosts(#[trigger] values[j]),
        decreases live@.len() - i,
    {
        assert(values[i as int] == live@[i as int]@);
        if row.hosts(live[i].as_str()) {
            return true;
        }
        i += 1;
    }
    false
}

impl Forum {
    /// Decides what becomes of a session row in a reconcile: the bookkeeping of a
    /// dead session is dropped, and its post is looked up.
    pub fn prune_stale_session(&mut self, session: &SessionRow, live: &Vec<String>) -> (step:
        PruneStep)
        ensures
            step == prune_step(session@, text::texts(live@)),
            final(self)@ == if step is Keep {
                old(self)@
            } else {
                old(self)@.forgetting(session@.session_path)
            },
    {
        if session.post_channel_id.is_none() || is_live(session, live) {
            return PruneStep::Keep;
        }
        self.drop_session_bookkeeping(session.session_path.as_str());
        match forum::usable_post(session) {
            Some(post) => PruneStep::Check(post),
            None => PruneStep::Forget,
        }
    }
}

/// What becomes of a dead session's row.
#[derive(Clone, Copy, Debug, PartialEq, Eq, Structural)]
pub enum PruneAction {
    /// Delete the row: the thread is unrecoverable.
    Delete,
    /// Inactivate the post.
    Inactivate,
    /// Leave both for the next reconcile.
    Leave,
}

/// Decides what becomes of a dead session's row by its post: a row whose post was
/// deleted is stale, one whose post exists is inactivated.
pub fn prune_checked(post: Existence) -> (action: PruneAction)
    ensures
        action == match post {
            Existence::Gone => PruneAction::Delete,
            Existence::Exists => PruneAction::Inactivate,
            Existence::Unknown => PruneAction::Leave,
        },
{
    match post {
        Existence::Gone => PruneAction::Delete,
        Existence::Exists => PruneAction::Inactivate,
        Existence::Unknown => PruneAction::Leave,
    }
}

/// A live session is never pruned: while an agent reports the row's key or its
/// adopted transcript, the row and its bookkeeping are kept.
pub proof fn a_live_session_is_kept(row: SessionRowView, agents: Seq<Agent>, at: int)
    requires
        0 <= at < agents.len(),
        agents[at].session_value() is Some,
        row.hosts(agents[at].session_value()->0),
    ensures
        prune_step(row, live_values(agents)) is Keep,
    decreases agents.len(),
{
    let values = live_values(agents);
    let rest = agents.drop_last();
    if at == agents.len() - 1 {
        assert(row.hosts(values[values.len() - 1]));
    } else {
        assert(rest[at] == agents[at]);
        a_live_session_is_kept(row, rest, at);
        if row.post_channel_id is Some {
            let before = live_values(rest);
            let i = choose|i: int| 0 <= i < before.len() && row.hosts(#[trigger] before[i]);
            assert(values[i] == before[i]);
        }
    }
}

} // verus!
