//! The herdr data model: agent lifecycle status, the ids, and the
//! agent/workspace/tab records reported over the socket.

use vstd::prelude::*;

use crate::session::Harness;
use crate::text;
use std::str::FromStr;

verus! {

/// Lifecycle state of a herdr agent, parsed from its raw status string.
#[derive(Debug, Clone, Copy, PartialEq, Eq, Structural)]
pub enum AgentStatus {
    /// The agent is idle and ready for input.
    Idle,
    /// The agent is actively working.
    Working,
    /// The agent is blocked and waiting for input.
    Blocked,
    /// The agent finished its most recent task.
    Done,
    /// The raw status string matched no known state.
    Unknown,
}

impl AgentStatus {
    /// The canonical lowercase status string.
    pub open spec fn name(self) -> Seq<char> {
        match self {
            AgentStatus::Idle => "idle"@,
            AgentStatus::Working => "working"@,
            AgentStatus::Blocked => "blocked"@,
            AgentStatus::Done => "done"@,
            AgentStatus::Unknown => "unknown"@,
        }
    }

    /// Returns the canonical lowercase status string.
    #[must_use]
    pub fn as_str(self) -> (name: &'static str)
        ensures
            name@ == self.name(),
    {
        match self {
            AgentStatus::Idle => "idle",
            AgentStatus::Working => "working",
            AgentStatus::Blocked => "blocked",
            AgentStatus::Done => "done",
            AgentStatus::Unknown => "unknown",
        }
    }

    /// Parses a herdr status string case-insensitively; unrecognized strings
    /// return `None`, so callers can fall back to [`AgentStatus::Unknown`].
    pub fn parse(value: &str) -> (status: Option<AgentStatus>)
        ensures
            match status {
                Some(found) => text::ascii_lowered(value@) == found.name(),
                None => forall|any: AgentStatus| text::ascii_lowered(value@) != #[trigger] any.name(),
            },
    {
        let lowered = text::to_ascii_lowercase(value);
        let name = lowered.as_str();
        if text::same(name, "idle") {
            Some(AgentStatus::Idle)
        } else if text::same(name, "working") {
            Some(AgentStatus::Working)
        } else if text::same(name, "blocked") {
            Some(AgentStatus::Blocked)
        } else if text::same(name, "done") {
            Some(AgentStatus::Done)
        } else if text::same(name, "unknown") {
            Some(AgentStatus::Unknown)
        } else {
            None
        }
    }
}

impl FromStr for AgentStatus {
    type Err = ();

    /// Parses a herdr status string case-insensitively.
    fn from_str(s: &str) -> (result: Result<AgentStatus, ()>)
        ensures
            match result {
                Ok(found) => text::ascii_lowered(s@) == found.name(),
                Err(_) => forall|any: AgentStatus| text::ascii_lowered(s@) != #[trigger] any.name(),
            },
    {
        match AgentStatus::parse(s) {
            Some(status) => Ok(status),
            None => Err(()),
        }
    }
}

/// Status strings are distinct and their own lowercase form, so that parsing a
/// status string gives its status back.
pub proof fn a_status_string_reads_back(status: AgentStatus, other: AgentStatus)
    ensures
        text::ascii_lowered(status.name()) == status.name(),
        status.name() == other.name() ==> status == other,
{
    reveal_strlit("idle");
    reveal_strlit("working");
    reveal_strlit("blocked");
    reveal_strlit("done");
    reveal_strlit("unknown");
    assert(text::ascii_lowered(status.name()) =~= status.name());
    assert("working"@[0] != "blocked"@[0] && "working"@[0] != "unknown"@[0] && "blocked"@[0]
        != "unknown"@[0] && "idle"@[0] != "done"@[0]);
}

/// A herdr workspace id, e.g. `"w3"`.
#[derive(Debug, Clone, PartialEq, Eq, Hash)]
pub struct WorkspaceId(String);

impl View for WorkspaceId {
    type V = Seq<char>;

    closed spec fn view(&self) -> Seq<char> {
        self.0@
    }
}

impl WorkspaceId {
    /// Makes an identifier of a text.
    pub fn new(value: String) -> (id: WorkspaceId)
        ensures
            id@ == value@,
    {
        WorkspaceId(value)
    }

    /// Returns the text of the identifier.
    pub fn as_str(&self) -> (value: &str)
        ensures
            value@ == self@,
    {
        self.0.as_str()
    }

    /// Copies the identifier.
    pub fn copy(&self) -> (copied: WorkspaceId)
        ensures
            copied@ == self@,
    {
        WorkspaceId(text::copy(self.0.as_str()))
    }
}

/// A herdr pane id, e.g. `"w4:p2"`.
///
/// Defaults to an empty string when omitted: `tab.list` rows do not report the
/// root pane.
#[derive(Debug, Clone, PartialEq, Eq, Hash)]
pub struct PaneId(String);

impl View for PaneId {
    type V = Seq<char>;

    closed spec fn view(&self) -> Seq<char> {
        self.0@
    }
}

impl PaneId {
    /// Makes an identifier of a text.
    pub fn new(value: String) -> (id: PaneId)
        ensures
            id@ == value@,
    {
        PaneId(value)
    }

    /// Returns the text of the identifier.
    pub fn as_str(&self) -> (value: &str)
        ensures
            value@ == self@,
    {
        self.0.as_str()
    }

    /// Copies the identifier.
    pub fn copy(&self) -> (copied: PaneId)
        ensures
            copied@ == self@,
    {
        PaneId(text::copy(self.0.as_str()))
    }
}

impl Default for PaneId {
    /// The empty identifier.
    fn default() -> (id: PaneId)
        ensures
            id@ == Seq::<char>::empty(),
    {
        PaneId(String::new())
    }
}

/// A herdr tab id, e.g. `"w4:t2"`.
#[derive(Debug, Clone, PartialEq, Eq, Hash)]
pub struct TabId(String);

impl View for TabId {
    type V = Seq<char>;

    closed spec fn view(&self) -> Seq<char> {
        self.0@
    }
}

impl TabId {
    /// Makes an identifier of a text.
    pub fn new(value: String) -> (id: TabId)
        ensures
            id@ == value@,
    {
        TabId(value)
    }

    /// Returns the text of the identifier.
    pub fn as_str(&self) -> (value: &str)
        ensures
            value@ == self@,
    {
        self.0.as_str()
    }

    /// Copies the identifier.
    pub fn copy(&self) -> (copied: TabId)
        ensures
            copied@ == self@,
    {
        TabId(text::copy(self.0.as_str()))
    }
}

/// An agent session transcript path, e.g. `~/.omp/agent/sessions/…`.
///
/// Defaults to an empty string when herdr omits the field.
#[derive(Debug, Clone, PartialEq, Eq, Hash)]
pub struct SessionPath(String);

impl View for SessionPath {
    type V = Seq<char>;

    closed spec fn view(&self) -> Seq<char> {
        self.0@
    }
}

impl SessionPath {
    /// Makes an identifier of a text.
    pub fn new(value: String) -> (id: SessionPath)
        ensures
            id@ == value@,
    {
        SessionPath(value)
    }

    /// Returns the text of the identifier.
    pub fn as_str(&self) -> (value: &str)
        ensures
            value@ == self@,
    {
        self.0.as_str()
    }

    /// Copies the identifier.
    pub fn copy(&self) -> (copied: SessionPath)
        ensures
            copied@ == self@,
    {
        SessionPath(text::copy(self.0.as_str()))
    }
}

impl Default for SessionPath {
    /// The empty identifier.
    fn default() -> (id: SessionPath)
        ensures
            id@ == Seq::<char>::empty(),
    {
        SessionPath(String::new())
    }
}

/// A herdr agent and the pane, tab, and workspace it runs in.
#[derive(Debug, Clone)]
pub struct Agent {
    /// The harness the agent runs; absent while the agent is still launching or
    /// the harness is unknown.
    pub harness: Option<Harness>,
    /// Raw status string as reported by herdr; prefer [`Agent::status`].
    pub agent_status: String,
    /// Unique agent name; absent while the agent is unnamed.
    pub name: Option<String>,
    /// Id of the pane the agent runs in.
    pub pane_id: PaneId,
    /// Id of the tab the agent runs in.
    pub tab_id: TabId,
    /// Id of the workspace the agent runs in.
    pub workspace_id: WorkspaceId,
    /// Working directory of the agent's pane.
    pub cwd: String,
    /// Whether the agent's pane is the focused pane.
    pub focused: bool,
    /// Whether the agent has not been detected yet; true for the placeholder
    /// record returned by `agent.start` before startup completes.
    pub launch_pending: bool,
    /// Terminal title without ANSI escapes, when known.
    pub terminal_title_stripped: Option<String>,
    /// The agent's session reference, when herdr knows one.
    pub agent_session: Option<AgentSession>,
}

/// The status that a raw status string stands for.
pub open spec fn is_status(raw: Seq<char>, status: AgentStatus) -> bool {
    text::ascii_lowered(raw) == status.name() || (status is Unknown && forall|any: AgentStatus|
        text::ascii_lowered(raw) != #[trigger] any.name())
}

impl Agent {
    /// Parses [`Agent::agent_status`], falling back to [`AgentStatus::Unknown`]
    /// when the status string is unrecognized.
    #[must_use]
    pub fn status(&self) -> (status: AgentStatus)
        ensures
            is_status(self.agent_status@, status),
    {
        match AgentStatus::parse(self.agent_status.as_str()) {
            Some(status) => status,
            None => AgentStatus::Unknown,
        }
    }

    /// The agent's session value, where it has one.
    pub open spec fn session_value(self) -> Option<Seq<char>> {
        match self.agent_session {
            Some(session) => Some(session.value@),
            None => None,
        }
    }
}

/// A raw status string stands for one status.
pub proof fn a_status_is_unique(raw: Seq<char>, left: AgentStatus, right: AgentStatus)
    requires
        is_status(raw, left),
        is_status(raw, right),
    ensures
        left == right,
{
    a_status_string_reads_back(left, right);
}

/// A herdr agent's persistent session reference.
#[derive(Debug, Clone)]
pub struct AgentSession {
    /// Agent harness; absent when unknown.
    pub harness: Option<Harness>,
    /// Session kind, e.g. `"jsonl"`.
    pub kind: String,
    /// Session source, e.g. `"file"`.
    pub source: String,
    /// Session location, e.g. the transcript file path.
    pub value: SessionPath,
}

/// Reads herdr's optional harness label (`"omp"`, `"codex"`, …): unknown
/// labels map to `None` rather than failing the record — an agent of an unknown
/// harness simply gets no session post.
pub fn de_harness(label: Option<&str>) -> (harness: Option<Harness>)
    ensures
        match harness {
            Some(found) => text::opt_str(label) == Some(found.label()),
            None => forall|any: Harness| text::opt_str(label) != Some(#[trigger] any.label()),
        },
{
    match label {
        Some(label) => Harness::parse(label),
        None => None,
    }
}

/// A herdr workspace.
#[derive(Debug, Clone)]
pub struct Workspace {
    /// Unique workspace id.
    pub workspace_id: WorkspaceId,
    /// User-assigned label.
    pub label: String,
    /// Git worktree membership, when the workspace runs in a repo worktree.
    pub worktree: Option<WorktreeSpace>,
}

/// A herdr workspace's git worktree membership: the repo it belongs to and
/// where its checkout lives.
#[derive(Debug, Clone)]
pub struct WorktreeSpace {
    /// Canonical git common directory, shared by every workspace of the repo.
    pub repo_key: String,
    /// Repo name, e.g. the main checkout's directory name.
    pub repo_name: String,
    /// The repo's main checkout path.
    pub repo_root: String,
    /// This workspace's checkout path.
    pub checkout_path: String,
    /// Whether this is a linked git worktree (a `git worktree add`).
    pub is_linked_worktree: bool,
}

/// A tab as reported by herdr.
///
/// `tab.create` reports the root pane's `pane_id` and `cwd`, while `tab.list`
/// omits both; `pane_id` is then empty.
#[derive(Debug, Clone)]
pub struct CreatedTab {
    /// Unique tab id.
    pub tab_id: TabId,
    /// Tab label, when one is set.
    pub label: Option<String>,
    /// Id of the tab's root pane.
    pub pane_id: PaneId,
    /// Working directory of the root pane, when known.
    pub cwd: Option<String>,
}

/// A workspace created by herdr, together with the id of its root pane.
#[derive(Debug, Clone)]
pub struct CreatedWorkspace {
    /// The created workspace.
    pub workspace: Workspace,
    /// Id of the workspace's root pane.
    pub pane_id: PaneId,
}

/// A point-in-time snapshot of the herdr session: only the agents are consumed
/// (the subscription set is built from them).
#[derive(Debug, Clone)]
pub struct Snapshot {
    /// All agents in the session.
    pub agents: Vec<Agent>,
}

} // verus!
