//! Event subscription machinery: wire kinds, subscriptions, and the event
//! payloads.

use vstd::prelude::*;

use crate::herdr::model::{PaneId, WorkspaceId};
use crate::json;
use crate::json::JsonView;
use crate::text;
use serde_json::Value;

verus! {

/// The kind of an event received from a herdr subscription.
#[derive(Debug, Clone, Copy, PartialEq, Eq, Structural)]
pub enum EventKind {
    /// A workspace was created.
    WorkspaceCreated,
    /// A workspace was updated.
    WorkspaceUpdated,
    /// A workspace was closed.
    WorkspaceClosed,
    /// A workspace was renamed.
    WorkspaceRenamed,
    /// A tab was created.
    TabCreated,
    /// A tab was closed.
    TabClosed,
    /// A pane was created.
    PaneCreated,
    /// A pane was closed.
    PaneClosed,
    /// A pane was updated (output, agent status, etc.).
    PaneUpdated,
    /// A pane exited.
    PaneExited,
    /// An agent was detected in a pane.
    PaneAgentDetected,
    /// An agent's lifecycle status changed. Pane-scoped: subscribing without a
    /// pane id is rejected by the server.
    PaneAgentStatusChanged,
}

impl EventKind {
    /// The dotted subscription name of the kind.
    pub open spec fn name(self) -> Seq<char> {
        match self {
            EventKind::WorkspaceCreated => "workspace.created"@,
            EventKind::WorkspaceUpdated => "workspace.updated"@,
            EventKind::WorkspaceClosed => "workspace.closed"@,
            EventKind::WorkspaceRenamed => "workspace.renamed"@,
            EventKind::TabCreated => "tab.created"@,
            EventKind::TabClosed => "tab.closed"@,
            EventKind::PaneCreated => "pane.created"@,
            EventKind::PaneClosed => "pane.closed"@,
            EventKind::PaneUpdated => "pane.updated"@,
            EventKind::PaneExited => "pane.exited"@,
            EventKind::PaneAgentDetected => "pane.agent_detected"@,
            EventKind::PaneAgentStatusChanged => "pane.agent_status_changed"@,
        }
    }

    /// The underscored name of the kind.
    pub open spec fn wire_name(self) -> Seq<char> {
        match self {
            EventKind::WorkspaceCreated => "workspace_created"@,
            EventKind::WorkspaceUpdated => "workspace_updated"@,
            EventKind::WorkspaceClosed => "workspace_closed"@,
            EventKind::WorkspaceRenamed => "workspace_renamed"@,
            EventKind::TabCreated => "tab_created"@,
            EventKind::TabClosed => "tab_closed"@,
            EventKind::PaneCreated => "pane_created"@,
            EventKind::PaneClosed => "pane_closed"@,
            EventKind::PaneUpdated => "pane_updated"@,
            EventKind::PaneExited => "pane_exited"@,
            EventKind::PaneAgentDetected => "pane_agent_detected"@,
            EventKind::PaneAgentStatusChanged => "pane_agent_status_changed"@,
        }
    }

    /// A wire name stands for the kind. Herdr serializes one kind with its
    /// dotted subscription name, unlike every other kind (underscored).
    pub open spec fn named(self, wire: Seq<char>) -> bool {
        wire == self.wire_name() || (self is PaneAgentStatusChanged && wire == self.name())
    }

    /// Returns the dotted subscription name for this kind, as sent in an
    /// `events.subscribe` request.
    #[must_use]
    pub fn subscription(self) -> (name: &'static str)
        ensures
            name@ == self.name(),
    {
        match self {
            EventKind::WorkspaceCreated => "workspace.created",
            EventKind::WorkspaceUpdated => "workspace.updated",
            EventKind::WorkspaceClosed => "workspace.closed",
            EventKind::WorkspaceRenamed => "workspace.renamed",
            EventKind::TabCreated => "tab.created",
            EventKind::TabClosed => "tab.closed",
            EventKind::PaneCreated => "pane.created",
            EventKind::PaneClosed => "pane.closed",
            EventKind::PaneUpdated => "pane.updated",
            EventKind::PaneExited => "pane.exited",
            EventKind::PaneAgentDetected => "pane.agent_detected",
            EventKind::PaneAgentStatusChanged => "pane.agent_status_changed",
        }
    }

    /// Whether this kind must be subscribed with a pane id.
    #[must_use]
    pub fn requires_pane_scope(self) -> (result: bool)
        ensures
            result == (self is PaneAgentStatusChanged),
    {
        self == EventKind::PaneAgentStatusChanged
    }

    /// Maps an underscored wire event name (as received on the socket) to its
    /// kind; unknown names return `None`.
    #[must_use]
    pub fn from_wire(wire: &str) -> (kind: Option<EventKind>)
        ensures
            match kind {
                Some(found) => found.named(wire@),
                None => forall|any: EventKind| !#[trigger] any.named(wire@),
            },
    {
        if text::same(wire, "workspace_created") {
            Some(EventKind::WorkspaceCreated)
        } else if text::same(wire, "workspace_updated") {
            Some(EventKind::WorkspaceUpdated)
        } else if text::same(wire, "workspace_closed") {
            Some(EventKind::WorkspaceClosed)
        } else if text::same(wire, "workspace_renamed") {
            Some(EventKind::WorkspaceRenamed)
        } else if text::same(wire, "tab_created") {
            Some(EventKind::TabCreated)
        } else if text::same(wire, "tab_closed") {
            Some(EventKind::TabClosed)
        } else if text::same(wire, "pane_created") {
            Some(EventKind::PaneCreated)
        } else if text::same(wire, "pane_closed") {
            Some(EventKind::PaneClosed)
        } else if text::same(wire, "pane_updated") {
            Some(EventKind::PaneUpdated)
        } else if text::same(wire, "pane_exited") {
            Some(EventKind::PaneExited)
        } else if text::same(wire, "pane_agent_detected") {
            Some(EventKind::PaneAgentDetected)
        } else if text::same(wire, "pane_agent_status_changed") || text::same(
            wire,
            "pane.agent_status_changed",
        ) {
            Some(EventKind::PaneAgentStatusChanged)
        } else {
            None
        }
    }
}

/// Reveals the names of the kinds.
proof fn reveal_names()
    ensures
        "workspace_created"@.len() == 17,
        "workspace.created"@.len() == 17,
        "workspace_updated"@.len() == 17,
        "workspace.updated"@.len() == 17,
        "workspace_closed"@.len() == 16,
        "workspace.closed"@.len() == 16,
        "workspace_renamed"@.len() == 17,
        "workspace.renamed"@.len() == 17,
        "tab_created"@.len() == 11,
        "tab.created"@.len() == 11,
        "tab_closed"@.len() == 10,
        "tab.closed"@.len() == 10,
        "pane_created"@.len() == 12,
        "pane.created"@.len() == 12,
        "pane_closed"@.len() == 11,
        "pane.closed"@.len() == 11,
        "pane_updated"@.len() == 12,
        "pane.updated"@.len() == 12,
        "pane_exited"@.len() == 11,
        "pane.exited"@.len() == 11,
        "pane_agent_detected"@.len() == 19,
        "pane.agent_detected"@.len() == 19,
        "pane_agent_status_changed"@.len() == 25,
        "pane.agent_status_changed"@.len() == 25,
        forall|kind: EventKind| text::replaced(#[trigger] kind.name(), '.', '_') == kind.wire_name(),
{
    reveal_strlit("workspace_created");
    reveal_strlit("workspace.created");
    reveal_strlit("workspace_updated");
    reveal_strlit("workspace.updated");
    reveal_strlit("workspace_closed");
    reveal_strlit("workspace.closed");
    reveal_strlit("workspace_renamed");
    reveal_strlit("workspace.renamed");
    reveal_strlit("tab_created");
    reveal_strlit("tab.created");
    reveal_strlit("tab_closed");
    reveal_strlit("tab.closed");
    reveal_strlit("pane_created");
    reveal_strlit("pane.created");
    reveal_strlit("pane_closed");
    reveal_strlit("pane.closed");
    reveal_strlit("pane_updated");
    reveal_strlit("pane.updated");
    reveal_strlit("pane_exited");
    reveal_strlit("pane.exited");
    reveal_strlit("pane_agent_detected");
    reveal_strlit("pane.agent_detected");
    reveal_strlit("pane_agent_status_changed");
    reveal_strlit("pane.agent_status_changed");
    assert forall|kind: EventKind| text::replaced(#[trigger] kind.name(), '.', '_')
        == kind.wire_name() by {
        assert(text::replaced(kind.name(), '.', '_') =~= kind.wire_name());
    }
}

/// The wire name of a kind is its subscription name with an underscore for the
/// dot.
pub proof fn a_wire_name_is_the_underscored_subscription_name(kind: EventKind)
    ensures
        text::replaced(kind.name(), '.', '_') == kind.wire_name(),
{
    reveal_names();
}

/// A wire name stands for at most one kind, so that every kind is found by its
/// wire name.
pub proof fn a_wire_name_stands_for_one_kind(left: EventKind, right: EventKind, wire: Seq<char>)
    requires
        left.named(wire),
        right.named(wire),
    ensures
        left == right,
{
    reveal_names();
    reveal_strlit("workspace_created");
    reveal_strlit("workspace_updated");
    reveal_strlit("workspace_closed");
    reveal_strlit("workspace_renamed");
    reveal_strlit("tab_created");
    reveal_strlit("tab_closed");
    reveal_strlit("pane_created");
    reveal_strlit("pane_closed");
    reveal_strlit("pane_updated");
    reveal_strlit("pane_exited");
    reveal_strlit("pane_agent_detected");
    reveal_strlit("pane_agent_status_changed");
    reveal_strlit("pane.agent_status_changed");
    assert("workspace_created"@[10] == 'c' && "workspace_updated"@[10] == 'u'
        && "workspace_renamed"@[10] == 'r');
    assert("tab_created"@[0] == 't' && "pane_closed"@[0] == 'p' && "pane_exited"@[0] == 'p');
    assert("pane_closed"@[5] == 'c' && "pane_exited"@[5] == 'e');
    assert("pane_created"@[5] == 'c' && "pane_updated"@[5] == 'u');
}

/// One entry of an `events.subscribe` request.
#[derive(Debug, Clone)]
pub struct Subscription {
    /// Kind of the events.
    pub kind: EventKind,
    /// Pane the events are limited to, if any.
    pub pane_id: Option<PaneId>,
}

impl Subscription {
    /// A session-wide subscription to `kind`.
    #[must_use]
    pub fn new(kind: EventKind) -> (subscription: Subscription)
        ensures
            subscription == (Subscription { kind, pane_id: None }),
    {
        Subscription { kind, pane_id: None }
    }

    /// A pane-scoped subscription: only events for `pane_id` are delivered.
    #[must_use]
    pub fn for_pane(kind: EventKind, pane_id: PaneId) -> (subscription: Subscription)
        ensures
            subscription == (Subscription { kind, pane_id: Some(pane_id) }),
    {
        Subscription { kind, pane_id: Some(pane_id) }
    }
}

/// An event received from a herdr subscription.
#[derive(Debug, Clone)]
pub struct Event {
    /// Underscored wire name of the event, e.g. `"pane_updated"`.
    pub event: String,
    /// The event payload.
    pub data: Value,
}

/// The string at a path of two keys.
pub open spec fn nested(data: JsonView, outer: Seq<char>, key: Seq<char>) -> Option<Seq<char>> {
    match data.get(outer) {
        Some(inner) => inner.str_at(key),
        None => None,
    }
}

/// The pane that a payload names: itself, or through its pane.
pub open spec fn pane_of(data: JsonView) -> Option<Seq<char>> {
    match data.str_at("pane_id"@) {
        Some(id) => Some(id),
        None => nested(data, "pane"@, "pane_id"@),
    }
}

/// The workspace that a payload names: itself, through its workspace, or through
/// its pane.
pub open spec fn workspace_of(data: JsonView) -> Option<Seq<char>> {
    match data.str_at("workspace_id"@) {
        Some(id) => Some(id),
        None => match nested(data, "workspace"@, "workspace_id"@) {
            Some(id) => Some(id),
            None => nested(data, "pane"@, "workspace_id"@),
        },
    }
}

fn nested_str<'a>(data: &'a Value, outer: &str, key: &str) -> (member: Option<&'a str>)
    ensures
        text::opt_str(member) == nested(json::json_of(*data), outer@, key@),
{
    match json::get(data, outer) {
        Some(inner) => json::str_member(inner, key),
        None => None,
    }
}

impl Event {
    /// The kind of this event, when the wire name is known.
    #[must_use]
    pub fn kind(&self) -> (kind: Option<EventKind>)
        ensures
            match kind {
                Some(found) => found.named(self.event@),
                None => forall|any: EventKind| !#[trigger] any.named(self.event@),
            },
    {
        EventKind::from_wire(self.event.as_str())
    }

    /// The id of the pane this event concerns, when it has one.
    #[must_use]
    pub fn pane_id(&self) -> (id: Option<PaneId>)
        ensures
            match id {
                Some(pane) => pane_of(json::json_of(self.data)) == Some(pane@),
                None => pane_of(json::json_of(self.data)) is None,
            },
    {
        let found = match json::str_member(&self.data, "pane_id") {
            Some(id) => Some(id),
            None => nested_str(&self.data, "pane", "pane_id"),
        };
        match found {
            Some(id) => Some(PaneId::new(text::copy(id))),
            None => None,
        }
    }

    /// The id of the workspace this event concerns, when it has one.
    #[must_use]
    pub fn workspace_id(&self) -> (id: Option<WorkspaceId>)
        ensures
            match id {
                Some(workspace) => workspace_of(json::json_of(self.data)) == Some(workspace@),
                None => workspace_of(json::json_of(self.data)) is None,
            },
    {
        let found = match json::str_member(&self.data, "workspace_id") {
            Some(id) => Some(id),
            None => match nested_str(&self.data, "workspace", "workspace_id") {
                Some(id) => Some(id),
                None => nested_str(&self.data, "pane", "workspace_id"),
            },
        };
        match found {
            Some(id) => Some(WorkspaceId::new(text::copy(id))),
            None => None,
        }
    }
}

} // verus!
