//! Which agent a session is hosted by, and what its post shows of it.

use vstd::prelude::*;

use crate::db::model::{SessionRow, SessionRowView};
use crate::error::{BotError, BotResult};
use crate::forum;
use crate::forum::titles;
use crate::herdr::model;
use crate::herdr::model::{Agent, AgentStatus};
use crate::ids::{ChannelId, MessageId};
use crate::seqs;
use crate::session::Harness;
use crate::text;

verus! {

/// The row for an agent whose session value it is looked up by, if the agent has
/// one.
pub fn session_key(agent: &Agent) -> (path: Option<&str>)
    ensures
        text::opt_str(path) == agent.session_value(),
{
    match &agent.agent_session {
        Some(session) => Some(session.value.as_str()),
        None => None,
    }
}

/// Agents that host a session.
pub open spec fn hosting(row: SessionRowView) -> spec_fn(Agent) -> bool {
    |agent: Agent|
        match agent.session_value() {
            Some(value) => row.hosts(value),
            None => false,
        }
}

fn hosts(row: &SessionRow, agent: &Agent) -> (result: bool)
    ensures
        result == hosting(row@)(*agent),
{
    match session_key(agent) {
        Some(value) => row.hosts(value),
        None => false,
    }
}

/// Agents behind references.
pub open spec fn agents_at(agents: Seq<&Agent>) -> Seq<Agent> {
    agents.map_values(|agent: &Agent| *agent)
}

/// Finds every live herdr agent hosting a session: matches each agent's reported
/// session value against the row's key and its adopted transcript.
pub fn hosting_agents<'a>(agents: &'a Vec<Agent>, session: &SessionRow) -> (found: Vec<&'a Agent>)
    ensures
        agents_at(found@) == seqs::all_where(agents@, hosting(session@)),
{
    let ghost wanted = hosting(session@);
    let mut found: Vec<&'a Agent> = Vec::new();
    let mut i: usize = 0;
    assert(agents_at(found@) =~= seqs::all_where(agents@.take(0), wanted));
    while i < agents.len()
        invariant
            i <= agents@.len(),
            wanted == hosting(session@),
            agents_at(found@) == seqs::all_where(agents@.take(i as int), wanted),
        decreases agents@.len() - i,
    {
        let ghost before = agents_at(found@);
        assert(agents@.take(i + 1).drop_last() =~= agents@.take(i as int));
        if hosts(session, &agents[i]) {
            found.push(&agents[i]);
            assert(agents_at(found@) =~= before.push(agents@[i as int]));
        }
        i += 1;
    }
    assert(agents@.take(i as int) =~= agents@);
    found
}

/// The live herdr agent hosting a session.
pub open spec fn live_agent_of(agents: Seq<Agent>, row: SessionRowView) -> Option<Agent> {
    let at = seqs::first_where(agents, hosting(row));
    if at < agents.len() {
        Some(agents[at])
    } else {
        None
    }
}

/// Finds the live herdr agent hosting a session, if any.
pub fn live_agent<'a>(agents: &'a Vec<Agent>, session: &SessionRow) -> (found: Option<&'a Agent>)
    ensures
        match found {
            Some(agent) => live_agent_of(agents@, session@) == Some(*agent),
            None => live_agent_of(agents@, session@) is None,
        },
{
    let ghost wanted = hosting(session@);
    let mut at: usize = 0;
    while at < agents.len()
        invariant
            at <= agents@.len(),
            wanted == hosting(session@),
            forall|i: int| 0 <= i < at ==> !wanted(#[trigger] agents@[i]),
        decreases agents@.len() - at,
    {
        if hosts(session, &agents[at]) {
            proof {
                seqs::lemma_first_where_is(agents@, wanted, at as int);
            }
            return Some(&agents[at]);
        }
        at += 1;
    }
    proof {
        seqs::lemma_first_where_is(agents@, wanted, at as int);
    }
    None
}

/// The first agent that hosts a session is its live agent, and there is none
/// exactly where no agent hosts it.
pub proof fn the_live_agent_is_the_first_host(agents: Seq<Agent>, row: SessionRowView)
    ensures
        seqs::all_where(agents, hosting(row)).len() == 0 <==> live_agent_of(agents, row) is None,
        live_agent_of(agents, row) matches Some(agent) ==> seqs::all_where(
            agents,
            hosting(row),
        )[0] == agent && hosting(row)(agent),
    decreases agents.len(),
{
    let wanted = hosting(row);
    seqs::lemma_first_where(agents, wanted);
    if agents.len() > 0 {
        let rest = agents.drop_last();
        the_live_agent_is_the_first_host(rest, row);
        seqs::lemma_first_where(rest, wanted);
        let found = seqs::first_where(rest, wanted);
        if found < rest.len() {
            assert(agents[found] == rest[found]);
            assert forall|i: int| 0 <= i < found implies !wanted(#[trigger] agents[i]) by {
                assert(agents[i] == rest[i]);
            }
            seqs::lemma_first_where_is(agents, wanted, found);
        } else {
            assert forall|i: int| 0 <= i < rest.len() implies !wanted(#[trigger] agents[i]) by {
                assert(agents[i] == rest[i]);
            }
            if wanted(agents.last()) {
                seqs::lemma_first_where_is(agents, wanted, agents.len() - 1);
            } else {
                seqs::lemma_first_where_is(agents, wanted, agents.len() as int);
            }
        }
    }
}

/// Finds the harness of the live agent hosting a session, if any.
pub fn live_agent_harness(agents: &Vec<Agent>, session: &SessionRow) -> (harness: Option<Harness>)
    ensures
        harness == match live_agent_of(agents@, session@) {
            Some(agent) => agent.harness,
            None => None,
        },
{
    match live_agent(agents, session) {
        Some(agent) => agent.harness,
        None => None,
    }
}

/// Resolves the harness whose transcript a session has: that of its live agent,
/// omp when there is none.
pub fn mirror_harness(agents: &Vec<Agent>, session: &SessionRow) -> (harness: Harness)
    ensures
        harness == match live_agent_of(agents@, session@) {
            Some(agent) => match agent.harness {
                Some(harness) => harness,
                None => Harness::Omp,
            },
            None => Harness::Omp,
        },
{
    match live_agent_harness(agents, session) {
        Some(harness) => harness,
        None => Harness::Omp,
    }
}

/// What mirroring the session at a path leads to.
#[derive(Clone, Copy, Debug, PartialEq, Eq, Structural)]
pub enum MirrorTarget {
    /// No such session is stored.
    Unknown,
    /// The session has no post.
    Unbound,
    /// The session's post is no channel id.
    Invalid,
    /// The session is mirrored into this post, whose forum is to be resolved.
    Post(ChannelId),
}

/// What mirroring a stored session leads to.
pub open spec fn mirror_target(row: Option<SessionRowView>) -> MirrorTarget {
    match row {
        None => MirrorTarget::Unknown,
        Some(row) => match (row.post_channel_id, forum::valid_post(row)) {
            (None, _) => MirrorTarget::Unbound,
            (Some(_), None) => MirrorTarget::Invalid,
            (Some(_), Some(post)) => MirrorTarget::Post(post),
        },
    }
}

/// The content of a row, where there is one.
pub open spec fn row_of(row: Option<&SessionRow>) -> Option<SessionRowView> {
    match row {
        Some(row) => Some(row@),
        None => None,
    }
}

/// Decides what mirroring the session stored at a path leads to.
pub fn sync_session_by_path(row: Option<&SessionRow>) -> (target: MirrorTarget)
    ensures
        target == mirror_target(row_of(row)),
{
    match row {
        None => MirrorTarget::Unknown,
        Some(row) => match row.post_channel_id {
            None => MirrorTarget::Unbound,
            Some(_) => match forum::usable_post(row) {
                None => MirrorTarget::Invalid,
                Some(post) => MirrorTarget::Post(post),
            },
        },
    }
}

/// Where the mirroring of one session stands.
#[derive(Clone, Copy, Debug, PartialEq, Eq, Structural)]
pub enum MirrorRun {
    /// The session's row is to be read.
    Stored,
    /// The forum of the session's post is to be resolved.
    Resolve(ChannelId),
    /// The post or its forum was deleted: the live agents are to be listed.
    Recover,
    /// The post of the session's live agent is to be synced, which creates what
    /// was deleted.
    Sync,
    /// The session's row is to be read again.
    Restored,
    /// The forum of the session's new post is to be resolved.
    Rebound(ChannelId),
    /// The transcript is to be mirrored into the session's post in this forum.
    Mirror(ChannelId),
    /// Nothing is left to do.
    Ended,
}

/// What came of a step of mirroring.
pub enum MirrorEvent<'a> {
    /// The session's row was read; there is none where it could not be.
    Row(Option<&'a SessionRow>),
    /// The forum was resolved; there is none where it could not be.
    Forum(Option<ChannelId>),
    /// The live agents were listed, for this session.
    Agents(&'a Vec<Agent>, &'a SessionRow),
    /// The step was made.
    Made,
}

/// How mirroring goes on. Only a first failure to resolve the forum leads to a
/// recovery, and only where an agent still hosts the session.
pub open spec fn mirror_next(run: MirrorRun, event: MirrorEvent<'_>) -> MirrorRun {
    match (run, event) {
        (MirrorRun::Stored, MirrorEvent::Row(row)) => match mirror_target(row_of(row)) {
            MirrorTarget::Post(post) => MirrorRun::Resolve(post),
            _ => MirrorRun::Ended,
        },
        (MirrorRun::Resolve(_), MirrorEvent::Forum(Some(forum))) => MirrorRun::Mirror(forum),
        (MirrorRun::Resolve(_), MirrorEvent::Forum(None)) => MirrorRun::Recover,
        (MirrorRun::Recover, MirrorEvent::Agents(agents, session)) => {
            if live_agent_of(agents@, session@) is Some {
                MirrorRun::Sync
            } else {
                MirrorRun::Ended
            }
        },
        (MirrorRun::Sync, MirrorEvent::Made) => MirrorRun::Restored,
        (MirrorRun::Restored, MirrorEvent::Row(row)) => match mirror_target(row_of(row)) {
            MirrorTarget::Post(post) => MirrorRun::Rebound(post),
            _ => MirrorRun::Ended,
        },
        (MirrorRun::Rebound(_), MirrorEvent::Forum(Some(forum))) => MirrorRun::Mirror(forum),
        (MirrorRun::Rebound(_), MirrorEvent::Forum(None)) => MirrorRun::Ended,
        (MirrorRun::Mirror(_), MirrorEvent::Made) => MirrorRun::Ended,
        _ => run,
    }
}

/// How many steps may be left.
pub open spec fn steps_left(run: MirrorRun) -> nat {
    match run {
        MirrorRun::Stored => 7,
        MirrorRun::Resolve(_) => 6,
        MirrorRun::Recover => 5,
        MirrorRun::Sync => 4,
        MirrorRun::Restored => 3,
        MirrorRun::Rebound(_) => 2,
        MirrorRun::Mirror(_) => 1,
        MirrorRun::Ended => 0,
    }
}

/// A mirror recovers a deleted post at most once: every step that is made leaves
/// fewer, so none is made twice, and a recovered post that cannot be resolved
/// ends the mirror.
pub proof fn a_mirror_recovers_once(run: MirrorRun, event: MirrorEvent<'_>)
    ensures
        mirror_next(run, event) == run || steps_left(mirror_next(run, event)) < steps_left(run),
        steps_left(run) < steps_left(MirrorRun::Recover) ==> mirror_next(run, event)
            != MirrorRun::Recover,
{
}

impl MirrorRun {
    /// Starts the mirroring of a session.
    pub fn start() -> (run: MirrorRun)
        ensures
            run == MirrorRun::Stored,
    {
        MirrorRun::Stored
    }

    /// Starts the recovery of a session whose post was deleted.
    pub fn recover_session() -> (run: MirrorRun)
        ensures
            run == MirrorRun::Recover,
    {
        MirrorRun::Recover
    }

    /// Decides how mirroring goes on after a step.
    pub fn advance(self, event: MirrorEvent<'_>) -> (next: MirrorRun)
        ensures
            next == mirror_next(self, event),
    {
        match (self, event) {
            (MirrorRun::Stored, MirrorEvent::Row(row)) => match sync_session_by_path(row) {
                MirrorTarget::Post(post) => MirrorRun::Resolve(post),
                _ => MirrorRun::Ended,
            },
            (MirrorRun::Resolve(_), MirrorEvent::Forum(Some(forum))) => MirrorRun::Mirror(forum),
            (MirrorRun::Resolve(_), MirrorEvent::Forum(None)) => MirrorRun::Recover,
            (MirrorRun::Recover, MirrorEvent::Agents(agents, session)) => {
                match live_agent(agents, session) {
                    Some(_) => MirrorRun::Sync,
                    None => MirrorRun::Ended,
                }
            },
            (MirrorRun::Sync, MirrorEvent::Made) => MirrorRun::Restored,
            (MirrorRun::Restored, MirrorEvent::Row(row)) => match sync_session_by_path(row) {
                MirrorTarget::Post(post) => MirrorRun::Rebound(post),
                _ => MirrorRun::Ended,
            },
            (MirrorRun::Rebound(_), MirrorEvent::Forum(Some(forum))) => MirrorRun::Mirror(forum),
            (MirrorRun::Rebound(_), MirrorEvent::Forum(None)) => MirrorRun::Ended,
            (MirrorRun::Mirror(_), MirrorEvent::Made) => MirrorRun::Ended,
            _ => self,
        }
    }
}

/// What a live agent's post shows of it.
pub struct AgentPost {
    /// The post.
    pub post: ChannelId,
    /// Harness tag of the post.
    pub harness: Harness,
    /// Status tag of the post.
    pub status: AgentStatus,
    /// Title of the post.
    pub title: String,
}

/// The harness of an agent, omp when it is unknown.
pub open spec fn harness_of(agent: Agent) -> Harness {
    match agent.harness {
        Some(harness) => harness,
        None => Harness::Omp,
    }
}

/// Makes what a live agent's post shows: the harness and status tags and the
/// title, which the transcript may record. `None` for a session without a post.
pub fn sync_agent_post(agent: &Agent, session: &SessionRow, recorded: Option<&str>) -> (result:
    BotResult<Option<AgentPost>>)
    ensures
        match (result, session@.post_channel_id) {
            (Ok(None), None) => true,
            (Ok(Some(shown)), Some(id)) => {
                &&& shown.post.0 == id
                &&& shown.harness == harness_of(*agent)
                &&& model::is_status(agent.agent_status@, shown.status)
                &&& shown.title@ == titles::session_titled(
                    text::opt_str(recorded),
                    text::opt_text(agent.terminal_title_stripped),
                    harness_of(*agent),
                )
            },
            (Err(error), Some(id)) => id < 0 && error.is_other(forum::invalid_channel(id)),
            _ => false,
        },
{
    match forum::bound_post(session) {
        Ok(None) => Ok(None),
        Ok(Some(post)) => {
            let harness = match agent.harness {
                Some(harness) => harness,
                None => Harness::Omp,
            };
            Ok(
                Some(
                    AgentPost {
                        post,
                        harness,
                        status: agent.status(),
                        title: titles::session_title(agent, harness, recorded),
                    },
                ),
            )
        },
        Err(error) => Err(error),
    }
}

/// Finds a session post's starter message. It is unknown for rows that predate
/// its capture; its content is not refreshed then.
pub fn starter_message(session: &SessionRow) -> (result: BotResult<Option<MessageId>>)
    ensures
        match (result, session@.starter_message_id) {
            (Ok(None), None) => true,
            (Ok(Some(message)), Some(id)) => message.0 == id,
            (Err(error), Some(id)) => id < 0 && error.is_other("invalid starter message id"@),
            _ => false,
        },
{
    match session.starter_message_id {
        None => Ok(None),
        Some(id) => if id >= 0 {
            Ok(Some(MessageId(id as u64)))
        } else {
            Err(BotError::Other(text::copy("invalid starter message id")))
        },
    }
}

/// Makes the starter message for a live agent: its current pane, worktree, cwd
/// and session.
pub fn agent_intro(agent: &Agent, worktree: Option<&str>) -> (message: String)
    ensures
        message@ == titles::intro(
            Some(agent.pane_id@),
            text::opt_str(worktree),
            agent.cwd@,
            agent.session_value(),
        ),
{
    match &agent.agent_session {
        Some(session) => titles::session_intro(
            Some(agent),
            worktree,
            agent.cwd.as_str(),
            Some(&session.value),
        ),
        None => titles::session_intro(Some(agent), worktree, agent.cwd.as_str(), None),
    }
}

} // verus!
