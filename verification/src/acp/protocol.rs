//! ACP lifecycle and listing requests.
//!
//! The functions here judge what a request came back with. `None` stands for a
//! request that its time limit ended.

use vstd::prelude::*;

use crate::acp::options::{AcpError, AcpErrorView, SessionConfigOption};
use crate::config::{AgentConfig, AgentKey, Agents};
use crate::config;
use crate::error::{BotError, BotResult};
use crate::json;
use crate::json::JsonView;
use crate::seqs;
use crate::text;

verus! {

/// The `Display` text of `Error::internal_error().data(..)` of
/// `agent_client_protocol`: the name of the code, a colon and the data as pretty
/// JSON.
#[verifier::external_body]
fn internal_error_text(data: &str) -> (shown: String)
    ensures
        shown@ == "Internal error: "@ + json::json_pretty(JsonView::Str(data@)),
{
    agent_client_protocol::Error::internal_error().data(data.to_string()).to_string()
}

/// The `Display` text of `Error::invalid_request().data(..)` of
/// `agent_client_protocol`: the name of the code, a colon and the data as pretty
/// JSON.
#[verifier::external_body]
fn invalid_request_text(data: &str) -> (shown: String)
    ensures
        shown@ == "Invalid request: "@ + json::json_pretty(JsonView::Str(data@)),
{
    agent_client_protocol::Error::invalid_request().data(data.to_string()).to_string()
}

impl AcpErrorView {
    /// The text shown for the error.
    pub open spec fn text(self) -> Seq<char> {
        match self {
            AcpErrorView::InvalidRequest(data) => "Invalid request: "@ + json::json_pretty(
                JsonView::Str(data),
            ),
            AcpErrorView::Internal(data) => "Internal error: "@ + json::json_pretty(
                JsonView::Str(data),
            ),
            AcpErrorView::Agent(shown) => shown,
        }
    }
}

impl AcpError {
    /// Returns the text shown for the error.
    pub fn message(&self) -> (message: String)
        ensures
            message@ == self@.text(),
    {
        match self {
            AcpError::InvalidRequest(data) => invalid_request_text(data.as_str()),
            AcpError::Internal(data) => internal_error_text(data.as_str()),
            AcpError::Agent(shown) => text::copy(shown.as_str()),
        }
    }

    /// An error of the connection with a text as its data.
    pub fn internal(data: &str) -> (error: AcpError)
        ensures
            error@ == AcpErrorView::Internal(data@),
    {
        AcpError::Internal(text::copy(data))
    }

    /// An error for a request that cannot be carried out.
    pub fn invalid(data: &str) -> (error: AcpError)
        ensures
            error@ == AcpErrorView::InvalidRequest(data@),
    {
        AcpError::InvalidRequest(text::copy(data))
    }
}

/// Two outcomes agree: both succeed, or both fail with the same error.
pub open spec fn same_end(result: Result<(), AcpError>, wanted: Result<(), AcpErrorView>) -> bool {
    match (result, wanted) {
        (Ok(_), Ok(_)) => true,
        (Err(error), Err(expected)) => error@ == expected,
        _ => false,
    }
}

/// Converts a protocol error into Agentcord's public error type.
pub fn acp_error(error: &AcpError) -> (result: BotError)
    ensures
        result matches BotError::AcpProtocol(shown) && shown@ == error@.text(),
{
    BotError::AcpProtocol(error.message())
}

/// Resolves one configured ACP executable by key.
pub fn configured_agent<'a>(agents: &'a Agents, agent_key: &AgentKey) -> (result: BotResult<
    &'a AgentConfig,
>)
    ensures
        match result {
            Ok(agent) => {
                let at = config::agent_at(agents@, agent_key@);
                at < agents@.len() && agents@[at] == (agent_key@, agent@)
            },
            Err(error) => config::agent_at(agents@, agent_key@) == agents@.len() && (
            error matches BotError::UnknownAgent { key } && key@ == agent_key@),
        },
{
    proof {
        seqs::lemma_first_where(agents@, config::keyed(agent_key@));
    }
    match agents.get(agent_key.as_str()) {
        Some(agent) => Ok(agent),
        None => Err(BotError::UnknownAgent { key: text::copy(agent_key.as_str()) }),
    }
}

/// Protocol version that the library speaks.
pub const PROTOCOL_VERSION: u16 = 1;

/// What an agent answers to `initialize`, as far as it is used.
#[derive(Clone, Copy, Debug, PartialEq, Eq, Structural)]
pub struct InitializeResponse {
    /// Negotiated protocol version.
    pub protocol_version: u16,
    /// Whether the agent restores sessions through `session/load`.
    pub load_session: bool,
    /// Whether the agent lists its sessions.
    pub list_sessions: bool,
}

/// Bounds one ACP request so an unresponsive connection cannot linger.
pub fn request_with_timeout<T>(answer: Option<Result<T, AcpError>>, message: &str) -> (result:
    Result<T, AcpError>)
    ensures
        match answer {
            Some(answered) => result == answered,
            None => result matches Err(error) && error@ == AcpErrorView::Internal(message@),
        },
{
    match answer {
        Some(answered) => answered,
        None => Err(AcpError::internal(message)),
    }
}

/// What negotiating the protocol comes to.
pub open spec fn negotiated(answer: Option<Result<InitializeResponse, AcpError>>) -> Result<
    InitializeResponse,
    AcpErrorView,
> {
    match answer {
        None => Err(AcpErrorView::Internal("acp initialize timed out"@)),
        Some(Err(error)) => Err(error@),
        Some(Ok(response)) => if response.protocol_version == PROTOCOL_VERSION {
            Ok(response)
        } else {
            Err(
                AcpErrorView::InvalidRequest(
                    "agent negotiated an unsupported acp protocol version"@,
                ),
            )
        },
    }
}

/// Negotiates ACP v1 and validates the response.
pub fn initialize(answer: Option<Result<InitializeResponse, AcpError>>) -> (result: Result<
    InitializeResponse,
    AcpError,
>)
    ensures
        match (result, negotiated(answer)) {
            (Ok(response), Ok(expected)) => response == expected,
            (Err(error), Err(expected)) => error@ == expected,
            _ => false,
        },
{
    match request_with_timeout(answer, "acp initialize timed out") {
        Ok(response) => if response.protocol_version == PROTOCOL_VERSION {
            Ok(response)
        } else {
            Err(AcpError::invalid("agent negotiated an unsupported acp protocol version"))
        },
        Err(error) => Err(error),
    }
}

/// Session information exposed by an agent's `session/list` implementation.
#[derive(Clone, Debug)]
pub struct ListedSession {
    /// Agent-owned session identifier.
    pub session_id: String,
    /// Working directory reported by the agent.
    pub project_path: String,
    /// Optional title reported by the agent.
    pub title: Option<String>,
}

/// ACP metadata returned while inspecting an existing session.
#[derive(Clone, Debug)]
pub struct ImportedSession {
    /// Agent-owned session identifier.
    pub session_id: String,
    /// Working directory reported by the agent.
    pub project_path: String,
    /// Optional title reported by the agent.
    pub title: Option<String>,
}

/// The content of what an agent says of a session.
pub ghost struct ListedView {
    pub session_id: Seq<char>,
    pub project_path: Seq<char>,
    pub title: Option<Seq<char>>,
}

impl View for ListedSession {
    type V = ListedView;

    open spec fn view(&self) -> ListedView {
        ListedView {
            session_id: self.session_id@,
            project_path: self.project_path@,
            title: text::opt_text(self.title),
        }
    }
}

impl View for ImportedSession {
    type V = ListedView;

    open spec fn view(&self) -> ListedView {
        ListedView {
            session_id: self.session_id@,
            project_path: self.project_path@,
            title: text::opt_text(self.title),
        }
    }
}

/// One answer to `session/list`.
pub struct SessionPage {
    /// Sessions of the page, in order.
    pub sessions: Vec<ListedSession>,
    /// Where the next page starts, if there is one.
    pub next_cursor: Option<String>,
}

/// What listing does next.
pub enum ListStep {
    /// Request the page at the cursor, the first one where it is absent.
    Request(Option<String>),
    /// The list is complete.
    Done,
}

/// Listing the sessions of an agent, page by page.
pub struct SessionListing {
    sessions: Vec<ListedSession>,
}

impl View for SessionListing {
    type V = Seq<ListedSession>;

    closed spec fn view(&self) -> Seq<ListedSession> {
        self.sessions@
    }
}

impl SessionListing {
    /// Starts listing, where the agent can: with the first page.
    pub fn start(initialized: &InitializeResponse) -> (result: Result<
        (SessionListing, ListStep),
        AcpError,
    >)
        ensures
            match result {
                Ok((listing, step)) => initialized.list_sessions && listing@ == Seq::<
                    ListedSession,
                >::empty() && step == ListStep::Request(None),
                Err(error) => !initialized.list_sessions && error@
                    == AcpErrorView::InvalidRequest("agent does not advertise session/list"@),
            },
    {
        if !initialized.list_sessions {
            return Err(AcpError::invalid("agent does not advertise session/list"));
        }
        Ok((SessionListing { sessions: Vec::new() }, ListStep::Request(None)))
    }

    /// Takes in one page: its sessions follow those already listed, and the
    /// listing goes on at the cursor it names.
    pub fn answered(&mut self, answer: Option<Result<SessionPage, AcpError>>) -> (result: Result<
        ListStep,
        AcpError,
    >)
        ensures
            match answer {
                None => final(self)@ == old(self)@ && (result matches Err(error) && error@
                    == AcpErrorView::Internal("acp session/list timed out"@)),
                Some(Err(error)) => final(self)@ == old(self)@ && result == Err::<
                    ListStep,
                    AcpError,
                >(error),
                Some(Ok(page)) => final(self)@ == old(self)@ + page.sessions@ && result == Ok::<
                    ListStep,
                    AcpError,
                >(
                    match page.next_cursor {
                        Some(cursor) => ListStep::Request(Some(cursor)),
                        None => ListStep::Done,
                    },
                ),
            },
    {
        match request_with_timeout(answer, "acp session/list timed out") {
            Ok(page) => {
                let mut sessions = page.sessions;
                self.sessions.append(&mut sessions);
                match page.next_cursor {
                    Some(cursor) => Ok(ListStep::Request(Some(cursor))),
                    None => Ok(ListStep::Done),
                }
            },
            Err(error) => Err(error),
        }
    }

    /// Returns the sessions listed so far, in the order of the pages.
    pub fn into_sessions(self) -> (sessions: Vec<ListedSession>)
        ensures
            sessions@ == self@,
    {
        self.sessions
    }
}

/// Sessions with an identifier.
pub open spec fn identified(session_id: Seq<char>) -> spec_fn(ListedSession) -> bool {
    |session: ListedSession| session.session_id@ == session_id
}

/// Looks up one external session before it is imported into Discord: the first
/// one with the identifier.
pub fn inspect_session(sessions: &Vec<ListedSession>, session_id: &str) -> (result: BotResult<
    ImportedSession,
>)
    ensures
        ({
            let at = seqs::first_where(sessions@, identified(session_id@));
            match result {
                Ok(session) => at < sessions@.len() && session@ == sessions@[at]@,
                Err(error) => at == sessions@.len() && (error matches BotError::SessionNotFound {
                    session_id: unknown,
                } && unknown@ == session_id@),
            }
        }),
{
    let ghost wanted = identified(session_id@);
    let mut at: usize = 0;
    while at < sessions.len()
        invariant
            at <= sessions@.len(),
            wanted == identified(session_id@),
            forall|i: int| 0 <= i < at ==> !wanted(#[trigger] sessions@[i]),
        decreases sessions@.len() - at,
    {
        let session = &sessions[at];
        if text::same(session.session_id.as_str(), session_id) {
            proof {
                seqs::lemma_first_where_is(sessions@, wanted, at as int);
            }
            return Ok(
                ImportedSession {
                    session_id: text::copy(session.session_id.as_str()),
                    project_path: text::copy(session.project_path.as_str()),
                    title: text::copy_opt(&session.title),
                },
            );
        }
        at += 1;
    }
    proof {
        seqs::lemma_first_where_is(sessions@, wanted, at as int);
    }
    Err(BotError::SessionNotFound { session_id: text::copy(session_id) })
}

/// A session that `session/new` created.
pub struct NewSession {
    /// Agent-owned session identifier.
    pub session_id: String,
    /// Configuration options advertised by the agent for the new session.
    pub config_options: Vec<SessionConfigOption>,
}

/// What the task behind `session/new` came to. The outer error is a task that
/// did not run to its end.
pub type NewSessionTask = Result<Result<(), AcpError>, String>;

/// Judges `session/new`: the session that the agent reported, or why the task
/// behind it ended without one.
pub fn new_session(ready: Option<NewSession>, task: NewSessionTask) -> (result: BotResult<
    NewSession,
>)
    ensures
        match (ready, task) {
            (Some(session), _) => result == Ok::<NewSession, BotError>(session),
            (None, Err(failure)) => result matches Err(BotError::AcpProtocol(shown)) && shown@
                == "acp new session task failed: "@ + failure@,
            (None, Ok(Ok(_))) => result matches Err(BotError::AcpProtocol(shown)) && shown@
                == "acp new session ended before returning a session"@,
            (None, Ok(Err(error))) => result matches Err(BotError::AcpProtocol(shown)) && shown@
                == error@.text(),
        },
{
    match ready {
        Some(session) => Ok(session),
        None => Err(
            match task {
                Err(failure) => BotError::AcpProtocol(
                    text::join2("acp new session task failed: ", failure.as_str()),
                ),
                Ok(Ok(_)) => BotError::AcpProtocol(
                    text::copy("acp new session ended before returning a session"),
                ),
                Ok(Err(error)) => acp_error(&error),
            },
        ),
    }
}

/// Judges a live session that has ended: its own error goes first, then what the
/// task behind `session/new` came to. A task that did not run to its end goes
/// before both.
pub fn run_new(result: Result<(), AcpError>, task: NewSessionTask) -> (ended: Result<(), AcpError>)
    ensures
        match (task, result) {
            (Err(failure), _) => ended matches Err(error) && error@ == AcpErrorView::Internal(
                "acp `session/new` task failed: "@ + failure@,
            ),
            (Ok(_), Err(error)) => ended == Err::<(), AcpError>(error),
            (Ok(joined), Ok(_)) => ended == joined,
        },
{
    match task {
        Err(failure) => Err(
            AcpError::Internal(
                text::join2("acp `session/new` task failed: ", failure.as_str()),
            ),
        ),
        Ok(joined) => match result {
            Ok(()) => joined,
            Err(error) => Err(error),
        },
    }
}

} // verus!
