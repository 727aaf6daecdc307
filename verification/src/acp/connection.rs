//! ACP connection callbacks and session restoration.

use vstd::prelude::*;

use crate::acp::options::{AcpError, AcpErrorView, SessionConfigOption};
use crate::acp::projection::{ProjectionState, StateView};
use crate::acp::protocol;
use crate::acp::protocol::InitializeResponse;
use crate::config::Agents;
use crate::config;
use crate::db::SessionRow;
use crate::discord::permission;
use crate::discord::permission::{RequestPermissionRequest, RequestPermissionResponse};
use crate::text;

verus! {

/// How a permission request is handled.
pub enum PermissionRoute {
    /// Answer at once.
    Respond(RequestPermissionResponse),
    /// Ask in the Discord thread.
    Ask,
}

/// Routes one ACP permission request to automatic or Discord-backed handling: a
/// request for another session, or one that cannot be shown, is cancelled.
pub fn handle_permission_request(
    request_session: &str,
    expected_session: &str,
    approve_all: bool,
    discord_ready: bool,
    request: &RequestPermissionRequest,
) -> (route: PermissionRoute)
    ensures
        if request_session@ != expected_session@ || (!approve_all && !discord_ready) {
            route matches PermissionRoute::Respond(response) && response@ is None
        } else if approve_all {
            route matches PermissionRoute::Respond(response) && response@
                == permission::approval(request.options@)
        } else {
            route is Ask
        },
{
    if !text::same(request_session, expected_session) {
        return PermissionRoute::Respond(permission::cancelled());
    }
    if approve_all {
        return PermissionRoute::Respond(permission::approve_all(request));
    }
    if !discord_ready {
        return PermissionRoute::Respond(permission::cancelled());
    }
    PermissionRoute::Ask
}

/// Runs an operation unless the actor is stopped first: `None` for an operation
/// that the stop signal ended.
pub fn stop_aware<T>(stopped: bool, result: Option<Result<T, AcpError>>) -> (outcome: Result<
    T,
    AcpError,
>)
    ensures
        match result {
            Some(answered) if !stopped => outcome == answered,
            _ => outcome matches Err(error) && error@ == AcpErrorView::Internal(
                "acp session actor was stopped"@,
            ),
        },
{
    match result {
        Some(answered) if !stopped => answered,
        _ => Err(AcpError::internal("acp session actor was stopped")),
    }
}

/// How an actor gets its session.
pub enum Startup {
    /// Restore the session with the configured agent at this position.
    Connect(usize),
    /// The agent of the session is gone.
    Unconfigured(AcpError),
}

/// Finds the agent that restores a session.
pub fn restore_agent(agents: &Agents, row: &SessionRow) -> (startup: Startup)
    ensures
        match startup {
            Startup::Connect(at) => at < agents@.len() && at == config::agent_at(
                agents@,
                row@.agent_key,
            ),
            Startup::Unconfigured(error) => config::agent_at(agents@, row@.agent_key)
                == agents@.len() && error@ == AcpErrorView::InvalidRequest(
                "agent `"@ + row@.agent_key + "` is no longer configured"@,
            ),
        },
{
    let at = agents.position(row.agent_key.as_str());
    if at < agents.len() {
        Startup::Connect(at)
    } else {
        Startup::Unconfigured(
            AcpError::InvalidRequest(
                text::join3("agent `", row.agent_key.as_str(), "` is no longer configured"),
            ),
        )
    }
}

/// Whether a restored session may be loaded: `initialize` succeeded and the
/// agent restores sessions.
pub open spec fn loadable(stopped: bool, answer: Option<Option<Result<InitializeResponse, AcpError>>>) -> Result<
    (),
    AcpErrorView,
> {
    match answer {
        Some(initialized) if !stopped => match protocol::negotiated(initialized) {
            Err(error) => Err(error),
            Ok(response) => if response.load_session {
                Ok(())
            } else {
                Err(AcpErrorView::InvalidRequest("agent does not advertise `session/load`"@))
            },
        },
        _ => Err(AcpErrorView::Internal("acp session actor was stopped"@)),
    }
}

/// Judges the first half of restoring a session. The outer `None` stands for the
/// stop signal, the inner one for the time limit.
pub fn restore_initialized(
    stopped: bool,
    answer: Option<Option<Result<InitializeResponse, AcpError>>>,
) -> (result: Result<(), AcpError>)
    ensures
        protocol::same_end(result, loadable(stopped, answer)),
{
    let judged = match answer {
        Some(initialized) => Some(protocol::initialize(initialized)),
        None => None,
    };
    match stop_aware(stopped, judged) {
        Ok(response) => if response.load_session {
            Ok(())
        } else {
            Err(AcpError::invalid("agent does not advertise `session/load`"))
        },
        Err(error) => Err(error),
    }
}

/// What `session/load` answers with: new configuration options, if any.
pub type Loaded = Option<Vec<SessionConfigOption>>;

/// How loading a session ended, before the projection is looked at.
pub open spec fn load_end(stopped: bool, answer: Option<Option<Result<Loaded, AcpError>>>) -> Result<
    Loaded,
    AcpErrorView,
> {
    match answer {
        Some(Some(Ok(loaded))) if !stopped => Ok(loaded),
        Some(Some(Err(error))) if !stopped => Err(error@),
        Some(None) if !stopped => Err(AcpErrorView::Internal("acp `session/load` timed out"@)),
        _ => Err(AcpErrorView::Internal("acp session actor was stopped"@)),
    }
}

/// Judges the second half of restoring a session: the configuration is cached,
/// and the history counts as replayed unless the projection has failed.
pub fn restore_loaded(
    state: &mut ProjectionState,
    stopped: bool,
    answer: Option<Option<Result<Loaded, AcpError>>>,
) -> (result: Result<(), AcpError>)
    ensures
        match load_end(stopped, answer) {
            Err(expected) => final(state)@ == old(state)@ && (result matches Err(error) && error@
                == expected),
            Ok(loaded) => {
                let options = match loaded {
                    Some(options) => options@,
                    None => old(state)@.options,
                };
                if old(state)@.fault {
                    final(state)@ == (StateView { options, ..old(state)@ }) && (
                    result matches Err(error) && error@ == AcpErrorView::Internal(
                        "acp projection queue overflowed during `session/load`"@,
                    ))
                } else {
                    final(state)@ == (StateView { options, replaying: false, ..old(state)@ })
                        && result is Ok
                }
            },
        },
{
    let judged = match answer {
        Some(answered) => Some(
            protocol::request_with_timeout(answered, "acp `session/load` timed out"),
        ),
        None => None,
    };
    let loaded = match stop_aware(stopped, judged) {
        Ok(loaded) => loaded,
        Err(error) => {
            return Err(error);
        },
    };
    if let Some(options) = loaded {
        state.apply_config_options(options);
    }
    if state.is_faulty() {
        return Err(AcpError::internal("acp projection queue overflowed during `session/load`"));
    }
    state.finish_replay();
    Ok(())
}

} // verus!
