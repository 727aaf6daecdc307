//! Agent spawn helpers: creating a tab or workspace and starting the agent in it
//! (with cleanup on failure), plus the naming and cwd resolution for a fresh
//! launch.

use vstd::prelude::*;

use crate::db::model::SessionRow;
use crate::herdr::model::{Agent, PaneId, TabId, Workspace, WorkspaceId};
use crate::numbers;
use crate::paths;
use crate::seqs;
use crate::text;

verus! {

/// A date and a time of day in digits, with a dash between them. A year before
/// the common era has a sign.
pub open spec fn is_stamp(s: Seq<char>) -> bool {
    &&& s.len() >= 15
    &&& s[s.len() - 7] == '-'
    &&& numbers::is_digit(s[0]) || s[0] == '-'
    &&& forall|i: int|
        0 < i < s.len() && i != s.len() - 7 ==> numbers::is_digit(#[trigger] s[i])
}

/// `jiff::Timestamp::now` shown by `strftime` as year, month, day, a dash, hour,
/// minute and second: each number is zero-padded, to four digits for the year and
/// to two for the others. Which time it is is left open; a system clock outside
/// of the years that jiff represents makes the call panic.
#[verifier::external_body]
fn now_stamp() -> (stamp: String)
    ensures
        is_stamp(stamp@),
{
    jiff::Timestamp::now().strftime("%Y%m%d-%H%M%S").to_string()
}

/// The agent name of a time stamp.
pub open spec fn stamped(stamp: Seq<char>) -> Seq<char> {
    "herdcord-"@ + stamp
}

/// Makes the agent name of a time stamp.
pub fn name_of_stamp(stamp: &str) -> (name: String)
    ensures
        name@ == stamped(stamp@),
{
    text::join2("herdcord-", stamp)
}

/// Makes the agent-name stamp for every fresh launch: `herdcord-<UTC timestamp>`
/// (`herdcord-20260814-231527`).
///
/// Numeric, zero-padded, and in UTC so names sort chronologically; two launches
/// in the same second get a numeric suffix from [`unique_agent_name`].
#[must_use]
pub fn agent_name_stamp() -> (name: String)
    ensures
        exists|stamp: Seq<char>| #[trigger]
            stamped(stamp) == name@ && is_stamp(stamp),
{
    let stamp = now_stamp();
    name_of_stamp(stamp.as_str())
}

/// A name with a numeric suffix.
pub open spec fn suffixed(base: Seq<char>, suffix: nat) -> Seq<char> {
    base + "-"@ + numbers::decimal(suffix)
}

/// The name that is given out for a base: the base itself, or with the first
/// suffix from 2 on that is free.
pub open spec fn is_free_name(base: Seq<char>, taken: Seq<Seq<char>>, name: Seq<char>) -> bool {
    &&& !taken.contains(name)
    &&& if taken.contains(base) {
        exists|suffix: nat|
            2 <= suffix && name == #[trigger] suffixed(base, suffix) && forall|smaller: nat|
                2 <= smaller < suffix ==> taken.contains(#[trigger] suffixed(base, smaller))
    } else {
        name == base
    }
}

proof fn lemma_suffixed_distinct(base: Seq<char>, left: nat, right: nat)
    requires
        suffixed(base, left) == suffixed(base, right),
    ensures
        left == right,
{
    let head = base + "-"@;
    let whole = suffixed(base, left);
    assert(whole.skip(head.len() as int) =~= numbers::decimal(left));
    assert(whole.skip(head.len() as int) =~= numbers::decimal(right));
    numbers::decimal_is_injective(left, right);
}

/// The names with suffixes below a bound.
spec fn suffixed_below(base: Seq<char>, bound: nat) -> Set<Seq<char>>
    decreases bound,
{
    if bound <= 2 {
        Set::empty()
    } else {
        suffixed_below(base, (bound - 1) as nat).insert(suffixed(base, (bound - 1) as nat))
    }
}

proof fn lemma_suffixed_below(base: Seq<char>, bound: nat)
    requires
        bound >= 2,
    ensures
        suffixed_below(base, bound).finite(),
        suffixed_below(base, bound).len() == bound - 2,
        forall|name: Seq<char>| #[trigger]
            suffixed_below(base, bound).contains(name) ==> exists|suffix: nat|
                2 <= suffix < bound && name == #[trigger] suffixed(base, suffix),
    decreases bound,
{
    if bound > 2 {
        let before = (bound - 1) as nat;
        lemma_suffixed_below(base, before);
        if suffixed_below(base, before).contains(suffixed(base, before)) {
            let suffix = choose|suffix: nat|
                2 <= suffix < before && suffixed(base, before) == #[trigger] suffixed(base, suffix);
            lemma_suffixed_distinct(base, before, suffix);
        }
        assert forall|name: Seq<char>| #[trigger]
            suffixed_below(base, bound).contains(name) implies exists|suffix: nat|
            2 <= suffix < bound && name == #[trigger] suffixed(base, suffix) by {
            if name != suffixed(base, before) {
                assert(suffixed_below(base, before).contains(name));
            }
        }
    }
}

/// Where every suffix below a bound is taken, that many names are.
proof fn lemma_taken(base: Seq<char>, taken: Seq<Seq<char>>, bound: nat)
    requires
        bound >= 2,
        forall|suffix: nat|
            2 <= suffix < bound ==> taken.contains(#[trigger] suffixed(base, suffix)),
    ensures
        bound - 2 <= taken.len(),
{
    let names = suffixed_below(base, bound);
    lemma_suffixed_below(base, bound);
    assert forall|name: Seq<char>| names.contains(name) implies taken.to_set().contains(name) by {
        let suffix = choose|suffix: nat|
            2 <= suffix < bound && name == #[trigger] suffixed(base, suffix);
        assert(taken.contains(suffixed(base, suffix)));
    }
    taken.lemma_cardinality_of_set();
    vstd::set_lib::lemma_len_subset(names, taken.to_set());
}

/// Makes a herdr agent name based on `base` that no live agent uses: `base`
/// itself, or `base-2`, `base-3`, … when taken.
pub fn unique_agent_name(base: &str, taken: &Vec<String>) -> (name: String)
    requires
        taken@.len() + 2 < usize::MAX,
    ensures
        is_free_name(base@, text::texts(taken@), name@),
{
    let ghost names = text::texts(taken@);
    if !text::among(taken, base) {
        return text::copy(base);
    }
    let mut suffix: usize = 2;
    loop
        invariant
            2 <= suffix <= taken@.len() + 2,
            taken@.len() + 2 < usize::MAX,
            names == text::texts(taken@),
            names.contains(base@),
            forall|smaller: nat|
                2 <= smaller < suffix ==> names.contains(#[trigger] suffixed(base@, smaller)),
        decreases taken@.len() + 3 - suffix,
    {
        let candidate = text::join3(base, "-", numbers::format_usize(suffix).as_str());
        assert(candidate@ == suffixed(base@, suffix as nat));
        if !text::among(taken, candidate.as_str()) {
            return candidate;
        }
        proof {
            assert forall|smaller: nat| 2 <= smaller < suffix + 1 implies names.contains(
                #[trigger] suffixed(base@, smaller),
            ) by {
                if smaller == suffix {
                    assert(names.contains(candidate@));
                }
            }
            lemma_taken(base@, names, (suffix + 1) as nat);
        }
        suffix += 1;
    }
}

/// The names of agents that have one.
pub open spec fn agent_names(agents: Seq<Agent>) -> Seq<Seq<char>>
    decreases agents.len(),
{
    if agents.len() == 0 {
        Seq::empty()
    } else {
        match agents.last().name {
            Some(name) => agent_names(agents.drop_last()).push(name@),
            None => agent_names(agents.drop_last()),
        }
    }
}

/// Returns the names of the live agents that have one.
pub fn taken_names(agents: &Vec<Agent>) -> (names: Vec<String>)
    ensures
        text::texts(names@) == agent_names(agents@),
        names@.len() <= agents@.len(),
{
    let mut names: Vec<String> = Vec::new();
    let mut i: usize = 0;
    assert(text::texts(names@) =~= agent_names(agents@.take(0)));
    while i < agents.len()
        invariant
            i <= agents@.len(),
            names@.len() <= i,
            text::texts(names@) == agent_names(agents@.take(i as int)),
        decreases agents@.len() - i,
    {
        let ghost before = text::texts(names@);
        assert(agents@.take(i + 1).drop_last() =~= agents@.take(i as int));
        if let Some(name) = &agents[i].name {
            names.push(text::copy(name.as_str()));
            assert(text::texts(names@) =~= before.push(name@));
        }
        i += 1;
    }
    assert(agents@.take(i as int) =~= agents@);
    names
}

/// Makes a unique name for a fresh agent: the stamp of the time with a numeric
/// suffix when the same second already produced a live agent.
pub fn fresh_agent_name(agents: &Vec<Agent>) -> (name: String)
    requires
        agents@.len() + 2 < usize::MAX,
    ensures
        exists|stamp: Seq<char>|
            is_stamp(stamp) && is_free_name(
                #[trigger] stamped(stamp),
                agent_names(agents@),
                name@,
            ),
{
    let base = agent_name_stamp();
    let taken = taken_names(agents);
    unique_agent_name(base.as_str(), &taken)
}

/// Workspaces with an id and a label.
pub open spec fn is_workspace(id: Seq<char>, label: Seq<char>) -> spec_fn(Workspace) -> bool {
    |workspace: Workspace| workspace.workspace_id@ == id && workspace.label@ == label
}

/// Agents that run in a workspace with a label.
pub open spec fn runs_in(workspaces: Seq<Workspace>, label: Seq<char>) -> spec_fn(Agent) -> bool {
    |agent: Agent|
        exists|i: int|
            0 <= i < workspaces.len() && is_workspace(agent.workspace_id@, label)(
                #[trigger] workspaces[i],
            )
}

fn agent_runs_in(agent: &Agent, workspaces: &Vec<Workspace>, label: &str) -> (result: bool)
    ensures
        result == runs_in(workspaces@, label@)(*agent),
{
    let ghost wanted = is_workspace(agent.workspace_id@, label@);
    let mut i: usize = 0;
    while i < workspaces.len()
        invariant
            i <= workspaces@.len(),
            wanted == is_workspace(agent.workspace_id@, label@),
            forall|j: int| 0 <= j < i ==> !wanted(#[trigger] workspaces@[j]),
        decreases workspaces@.len() - i,
    {
        if text::same(workspaces[i].workspace_id.as_str(), agent.workspace_id.as_str())
            && text::same(workspaces[i].label.as_str(), label) {
            assert(wanted(workspaces@[i as int]));
            return true;
        }
        i += 1;
    }
    false
}

/// The cwd of the first live agent in a workspace.
pub open spec fn live_cwd(agents: Seq<Agent>, workspaces: Seq<Workspace>, label: Seq<char>) -> Option<
    Seq<char>,
> {
    let at = seqs::first_where(agents, runs_in(workspaces, label));
    if at < agents.len() {
        Some(agents[at].cwd@)
    } else {
        None
    }
}

fn find_live_cwd(agents: &Vec<Agent>, workspaces: &Vec<Workspace>, label: &str) -> (cwd: Option<
    String,
>)
    ensures
        text::opt_text(cwd) == live_cwd(agents@, workspaces@, label@),
{
    let ghost wanted = runs_in(workspaces@, label@);
    let mut at: usize = 0;
    while at < agents.len()
        invariant
            at <= agents@.len(),
            wanted == runs_in(workspaces@, label@),
            forall|i: int| 0 <= i < at ==> !wanted(#[trigger] agents@[i]),
        decreases agents@.len() - at,
    {
        if agent_runs_in(&agents[at], workspaces, label) {
            proof {
                seqs::lemma_first_where_is(agents@, wanted, at as int);
            }
            return Some(text::copy(agents[at].cwd.as_str()));
        }
        at += 1;
    }
    proof {
        seqs::lemma_first_where_is(agents@, wanted, at as int);
    }
    None
}

/// The working directory of a launch: where a live agent of the workspace works,
/// else where a previous session did, else the home directory.
pub open spec fn cwd_for(
    live: Option<Seq<char>>,
    sessions: Seq<SessionRow>,
    home: Option<Seq<char>>,
) -> Seq<char> {
    match live {
        Some(cwd) => cwd,
        None => if sessions.len() > 0 {
            sessions[0]@.cwd
        } else {
            match home {
                Some(home) => home,
                None => "/tmp"@,
            }
        },
    }
}

/// Finds the working directory for a new agent in `workspace_label`: the cwd of a
/// live agent in the workspace when there is one, else the cwd of a previous
/// session, else the user's home directory.
///
/// Agents report their workspace by herdr's positional id; they are matched
/// through the workspace list so the identity is the label, the same one the rows
/// use.
pub fn launch_cwd_in(
    workspace_label: &str,
    agents: &Vec<Agent>,
    workspaces: &Vec<Workspace>,
    sessions: &Vec<SessionRow>,
    home: &Option<String>,
) -> (cwd: String)
    ensures
        cwd@ == cwd_for(
            live_cwd(agents@, workspaces@, workspace_label@),
            sessions@,
            text::opt_text(*home),
        ),
{
    match find_live_cwd(agents, workspaces, workspace_label) {
        Some(cwd) => cwd,
        None => if sessions.len() > 0 {
            text::copy(sessions[0].cwd.as_str())
        } else {
            match home {
                Some(home) => text::copy(home.as_str()),
                None => text::copy("/tmp"),
            }
        },
    }
}

/// Finds the working directory for a new agent in `workspace_label`, with the
/// home directory of the current user as the last resort.
pub fn launch_cwd(
    workspace_label: &str,
    agents: &Vec<Agent>,
    workspaces: &Vec<Workspace>,
    sessions: &Vec<SessionRow>,
) -> (cwd: String)
    ensures
        exists|home: Option<Seq<char>>|
            cwd@ == #[trigger] cwd_for(
                live_cwd(agents@, workspaces@, workspace_label@),
                sessions@,
                home,
            ),
{
    let home = paths::home_dir();
    launch_cwd_in(workspace_label, agents, workspaces, sessions, &home)
}

/// Where an agent is started.
pub enum Place {
    /// A tab created for it in an existing workspace.
    Tab(TabId),
    /// A workspace created for it.
    Workspace(WorkspaceId),
}

/// How far a spawn has come.
pub enum SpawnPhase<E> {
    /// The tab or workspace is being created.
    Creating,
    /// The agent is being started in it.
    Starting(Place),
    /// The tab or workspace is being closed after a failure.
    Closing(E),
    /// The spawn is over.
    Ended,
}

/// What an operation of a spawn came to.
pub enum SpawnEvent<E> {
    /// The tab or workspace was created with a root pane, or not.
    Created(Result<(Place, PaneId), E>),
    /// The agent was started, or not.
    Started(Result<Agent, E>),
    /// The tab or workspace was closed, or could not be: both end the spawn.
    Closed,
}

/// What is to be done for a spawn.
pub enum SpawnStep<E> {
    /// Start the agent in the pane.
    Start(PaneId),
    /// Close the tab or workspace.
    Close(Place),
    /// The agent runs.
    Spawned(Agent),
    /// The agent could not be spawned.
    Failed(E),
}

/// An event that can happen in a phase.
pub open spec fn spawn_event<E>(phase: SpawnPhase<E>, event: SpawnEvent<E>) -> bool {
    match phase {
        SpawnPhase::Creating => event is Created,
        SpawnPhase::Starting(_) => event is Started,
        SpawnPhase::Closing(_) => event is Closed,
        SpawnPhase::Ended => false,
    }
}

/// What an event leads to: the next phase and what is to be done.
pub open spec fn spawn_next<E>(phase: SpawnPhase<E>, event: SpawnEvent<E>) -> (
    SpawnPhase<E>,
    SpawnStep<E>,
) {
    match (phase, event) {
        (SpawnPhase::Creating, SpawnEvent::Created(Ok((place, pane)))) => (
            SpawnPhase::Starting(place),
            SpawnStep::Start(pane),
        ),
        (SpawnPhase::Creating, SpawnEvent::Created(Err(error))) => (
            SpawnPhase::Ended,
            SpawnStep::Failed(error),
        ),
        (SpawnPhase::Starting(_), SpawnEvent::Started(Ok(agent))) => (
            SpawnPhase::Ended,
            SpawnStep::Spawned(agent),
        ),
        (SpawnPhase::Starting(place), SpawnEvent::Started(Err(error))) => (
            SpawnPhase::Closing(error),
            SpawnStep::Close(place),
        ),
        (SpawnPhase::Closing(error), _) => (SpawnPhase::Ended, SpawnStep::Failed(error)),
        _ => arbitrary(),
    }
}

/// Spawning an agent in a tab or workspace of its own.
pub struct SpawnRun<E> {
    phase: SpawnPhase<E>,
}

impl<E> View for SpawnRun<E> {
    type V = SpawnPhase<E>;

    closed spec fn view(&self) -> SpawnPhase<E> {
        self.phase
    }
}

impl<E> SpawnRun<E> {
    /// Starts with the tab or workspace being created.
    pub fn start() -> (run: SpawnRun<E>)
        ensures
            run@ == SpawnPhase::<E>::Creating,
    {
        SpawnRun { phase: SpawnPhase::Creating }
    }

    /// Decides what the outcome of an operation leads to. The tab or workspace is
    /// closed again if the agent fails to start.
    pub fn advance(&mut self, event: SpawnEvent<E>) -> (step: SpawnStep<E>)
        requires
            spawn_event(old(self)@, event),
        ensures
            (final(self)@, step) == spawn_next(old(self)@, event),
    {
        let mut phase = SpawnPhase::Ended;
        std::mem::swap(&mut phase, &mut self.phase);
        match (phase, event) {
            (SpawnPhase::Creating, SpawnEvent::Created(Ok((place, pane)))) => {
                self.phase = SpawnPhase::Starting(place);
                SpawnStep::Start(pane)
            },
            (SpawnPhase::Creating, SpawnEvent::Created(Err(error))) => SpawnStep::Failed(error),
            (SpawnPhase::Starting(_), SpawnEvent::Started(Ok(agent))) => SpawnStep::Spawned(agent),
            (SpawnPhase::Starting(place), SpawnEvent::Started(Err(error))) => {
                self.phase = SpawnPhase::Closing(error);
                SpawnStep::Close(place)
            },
            (SpawnPhase::Closing(error), _) => SpawnStep::Failed(error),
            (_, _) => {
                assert(false);
                SpawnStep::Start(PaneId::default())
            },
        }
    }
}

/// An agent that fails to start leaves nothing behind: the tab or workspace
/// created for it is closed, and the spawn ends with the failure of the start.
pub proof fn a_failed_start_is_cleaned_up<E>(place: Place, error: E)
    ensures
        ({
            let failed = spawn_next(SpawnPhase::Starting(place), SpawnEvent::Started(Err(error)));
            let closed = spawn_next(failed.0, SpawnEvent::<E>::Closed);
            &&& failed.1 == SpawnStep::<E>::Close(place)
            &&& closed.0 is Ended
            &&& closed.1 == SpawnStep::<E>::Failed(error)
        }),
{
}

} // verus!
