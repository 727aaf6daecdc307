//! The socket client: the request machinery and one method per herdr API call.
//!
//! herdr answers exactly one request per connection. A request is a single line
//! of JSON, and so is its answer; `None` stands for an answer that did not come
//! within the operation timeout.

use vstd::prelude::*;

use crate::config::TimeSpan;
use crate::herdr::error::HerdrError;
use crate::herdr::event::Subscription;
use crate::herdr::model::{Agent, CreatedTab, CreatedWorkspace, PaneId, TabId, WorkspaceId};
use crate::herdr::wire::{Envelope, TabCreated, WorkspaceCreated};
use crate::json;
use crate::json::JsonView;
use crate::numbers;
use crate::session::Harness;
use crate::text;
use serde_json::Value;

verus! {

/// Request id for every request. herdr answers exactly one request per
/// connection, so ids only need to be unique per connection — one constant
/// suffices.
pub const REQUEST_ID: &'static str = "herdcord";

/// Settings of the client over the herdr Unix-socket API.
#[derive(Debug, Clone)]
pub struct Herdr {
    /// Path of the socket.
    pub socket_path: String,
    /// Bounds the total runtime of each request.
    pub operation_timeout: TimeSpan,
    /// How long `agent.start` waits for the agent to be detected after the
    /// placeholder response.
    pub startup_timeout: TimeSpan,
    /// How often `agent.start` polls for detection.
    pub startup_poll_interval: TimeSpan,
}

/// One API request.
pub struct Request {
    /// Name of the API method.
    pub method: &'static str,
    /// Parameters of the method.
    pub params: Value,
}

/// The members of a request with parameters of these members.
pub open spec fn is_request(
    request: Request,
    method: Seq<char>,
    params: Seq<(Seq<char>, JsonView)>,
) -> bool {
    &&& request.method@ == method
    &&& json::json_of(request.params) == JsonView::Object(json::members(params))
}

/// What a request is sent as.
pub open spec fn request_json(method: Seq<char>, params: JsonView) -> JsonView {
    JsonView::Object(
        json::members(
            seq![
                ("id"@, JsonView::Str(REQUEST_ID@)),
                ("method"@, JsonView::Str(method)),
                ("params"@, params),
            ],
        ),
    )
}

/// The states in which a prompt has settled.
pub open spec fn settled() -> JsonView {
    JsonView::Array(json::strings(seq!["idle"@, "done"@, "blocked"@]))
}

fn text_value(value: &str) -> (result: Value)
    ensures
        json::json_of(result) == JsonView::Str(value@),
{
    json::string(text::copy(value))
}

fn settled_value() -> (result: Value)
    ensures
        json::json_of(result) == settled(),
{
    let mut states: Vec<String> = Vec::new();
    states.push(text::copy("idle"));
    states.push(text::copy("done"));
    states.push(text::copy("blocked"));
    assert(text::texts(states@) =~= seq!["idle"@, "done"@, "blocked"@]);
    json::string_array(&states)
}

/// The whole milliseconds of a time span, as far as they fit.
pub open spec fn millis(span: TimeSpan) -> nat {
    let all = (span.secs * 1000 + span.nanos / 1_000_000) as nat;
    if all <= u64::MAX {
        all
    } else {
        u64::MAX as nat
    }
}

/// Converts a time span to herdr's `timeout_ms` parameter.
pub fn timeout_ms(timeout: TimeSpan) -> (result: u64)
    ensures
        result == millis(timeout),
{
    let all: u128 = timeout.secs as u128 * 1000 + (timeout.nanos / 1_000_000) as u128;
    if all <= u64::MAX as u128 {
        all as u64
    } else {
        u64::MAX
    }
}

impl Request {
    /// Returns the line that the request is sent as.
    pub fn line(&self) -> (line: String)
        ensures
            line@ == json::json_text(
                request_json(self.method@, json::json_of(self.params)),
            ).push('\n'),
    {
        let mut entries: Vec<(&'static str, Value)> = Vec::new();
        entries.push(("id", text_value(REQUEST_ID)));
        entries.push(("method", text_value(self.method)));
        entries.push(("params", self.params.clone()));
        assert(json::member_views(entries@) =~= seq![
            ("id"@, JsonView::Str(REQUEST_ID@)),
            ("method"@, JsonView::Str(self.method@)),
            ("params"@, json::json_of(self.params)),
        ]);
        let request = json::object(entries);
        match json::write(&request) {
            Ok(written) => {
                let mut line = written;
                line.push('\n');
                line
            },
            Err(_) => String::new(),
        }
    }
}

/// Judges the answer to a request: its `result` payload, or why there is none.
pub fn call(answer: Option<Result<Envelope, HerdrError>>) -> (result: Result<Value, HerdrError>)
    ensures
        match answer {
            None => result is Err && result->Err_0 is Timeout,
            Some(Err(error)) => result == Err::<Value, HerdrError>(error),
            Some(Ok(envelope)) => match (envelope.error, envelope.result) {
                (Some(error), _) => result matches Err(reported) && reported.is_herdr(
                    error.code@,
                    error.message@,
                ),
                (None, Some(payload)) => result == Ok::<Value, HerdrError>(payload),
                (None, None) => result matches Err(reported) && reported.is_herdr(
                    "missing_result"@,
                    "herdr response contained no result"@,
                ),
            },
        },
{
    match answer {
        None => Err(HerdrError::Timeout),
        Some(Err(error)) => Err(error),
        Some(Ok(envelope)) => envelope.into_result(),
    }
}

/// Checks that a close response carries `type: "ok"`.
pub fn expect_ok(result: &Value, method: &str) -> (checked: Result<(), HerdrError>)
    ensures
        match checked {
            Ok(_) => json::json_of(*result).str_at("type"@) == Some("ok"@),
            Err(error) => json::json_of(*result).str_at("type"@) != Some("ok"@) && error.is_herdr(
                "unexpected_response"@,
                "`"@ + method@ + "` returned an unexpected response: "@ + json::json_text(
                    json::json_of(*result),
                ),
            ),
        },
{
    if let Some(kind) = json::str_member(result, "type") {
        if text::same(kind, "ok") {
            return Ok(());
        }
    }
    let shown = match json::write(result) {
        Ok(written) => written,
        Err(_) => String::new(),
    };
    Err(
        HerdrError::herdr(
            "unexpected_response",
            text::join4("`", method, "` returned an unexpected response: ", shown.as_str()),
        ),
    )
}

/// What a started agent's poll leads to.
pub enum StartStep {
    /// The agent is running.
    Started(Agent),
    /// The agent is running as the first answer announced it.
    StartedAsAnnounced,
    /// The agent could not be started.
    Failed(HerdrError),
    /// Ask again after the poll interval.
    Poll,
}

/// One time span is at least another.
pub open spec fn at_least(span: TimeSpan, other: TimeSpan) -> bool {
    span.secs > other.secs || (span.secs == other.secs && span.nanos >= other.nanos)
}

/// What an answer to `agent.get` leads to while an agent starts.
pub open spec fn start_step(
    announced_pending: bool,
    answer: Result<Agent, HerdrError>,
    late: bool,
    name: Seq<char>,
    step: StartStep,
) -> bool {
    let pending = match answer {
        Ok(agent) => agent.launch_pending,
        Err(_) => announced_pending,
    };
    match answer {
        Err(error) if !error.coded("agent_not_found"@) => step == StartStep::Failed(error),
        _ => if !pending {
            step == match answer {
                Ok(agent) => StartStep::Started(agent),
                Err(_) => StartStep::StartedAsAnnounced,
            }
        } else if late {
            step matches StartStep::Failed(error) && error.is_herdr(
                "agent_startup_timeout"@,
                "timed out waiting for agent `"@ + name + "` to start"@,
            )
        } else {
            step is Poll
        },
    }
}

impl Herdr {
    /// Creates a client that talks to the herdr Unix socket at `socket_path`.
    ///
    /// `operation_timeout` bounds each request's total runtime;
    /// `startup_timeout`/`startup_poll_interval` bound the `agent.start`
    /// detection wait.
    #[must_use]
    pub fn new(
        socket_path: String,
        operation_timeout: TimeSpan,
        startup_timeout: TimeSpan,
        startup_poll_interval: TimeSpan,
    ) -> (herdr: Herdr)
        ensures
            herdr == (Herdr {
                socket_path,
                operation_timeout,
                startup_timeout,
                startup_poll_interval,
            }),
    {
        Herdr { socket_path, operation_timeout, startup_timeout, startup_poll_interval }
    }

    /// Lists all workspaces (`workspace.list`).
    pub fn list_workspaces() -> (request: Request)
        ensures
            is_request(request, "workspace.list"@, Seq::empty()),
    {
        Request { method: "workspace.list", params: json::empty_object() }
    }

    /// Creates a workspace with `label` and root-pane working directory `cwd`
    /// (`workspace.create`, unfocused).
    pub fn create_workspace_with_pane(label: &str, cwd: &str) -> (request: Request)
        ensures
            is_request(
                request,
                "workspace.create"@,
                seq![
                    ("label"@, JsonView::Str(label@)),
                    ("cwd"@, JsonView::Str(cwd@)),
                    ("focus"@, JsonView::Bool(false)),
                ],
            ),
    {
        let mut entries: Vec<(&'static str, Value)> = Vec::new();
        entries.push(("label", text_value(label)));
        entries.push(("cwd", text_value(cwd)));
        entries.push(("focus", json::boolean(false)));
        assert(json::member_views(entries@) =~= seq![
            ("label"@, JsonView::Str(label@)),
            ("cwd"@, JsonView::Str(cwd@)),
            ("focus"@, JsonView::Bool(false)),
        ]);
        Request { method: "workspace.create", params: json::object(entries) }
    }

    /// Closes the workspace with id `id` (`workspace.close`).
    pub fn close_workspace(id: &WorkspaceId) -> (request: Request)
        ensures
            is_request(
                request,
                "workspace.close"@,
                seq![("workspace_id"@, JsonView::Str(id@))],
            ),
    {
        let mut entries: Vec<(&'static str, Value)> = Vec::new();
        entries.push(("workspace_id", text_value(id.as_str())));
        assert(json::member_views(entries@) =~= seq![("workspace_id"@, JsonView::Str(id@))]);
        Request { method: "workspace.close", params: json::object(entries) }
    }

    /// Creates a tab in `workspace_id` with `label` and working directory `cwd`
    /// (`tab.create`, unfocused).
    pub fn create_tab(workspace_id: &WorkspaceId, label: &str, cwd: &str) -> (request: Request)
        ensures
            is_request(
                request,
                "tab.create"@,
                seq![
                    ("workspace_id"@, JsonView::Str(workspace_id@)),
                    ("label"@, JsonView::Str(label@)),
                    ("cwd"@, JsonView::Str(cwd@)),
                    ("focus"@, JsonView::Bool(false)),
                ],
            ),
    {
        let mut entries: Vec<(&'static str, Value)> = Vec::new();
        entries.push(("workspace_id", text_value(workspace_id.as_str())));
        entries.push(("label", text_value(label)));
        entries.push(("cwd", text_value(cwd)));
        entries.push(("focus", json::boolean(false)));
        assert(json::member_views(entries@) =~= seq![
            ("workspace_id"@, JsonView::Str(workspace_id@)),
            ("label"@, JsonView::Str(label@)),
            ("cwd"@, JsonView::Str(cwd@)),
            ("focus"@, JsonView::Bool(false)),
        ]);
        Request { method: "tab.create", params: json::object(entries) }
    }

    /// Closes the tab with id `tab_id` (`tab.close`).
    pub fn close_tab(tab_id: &TabId) -> (request: Request)
        ensures
            is_request(request, "tab.close"@, seq![("tab_id"@, JsonView::Str(tab_id@))]),
    {
        let mut entries: Vec<(&'static str, Value)> = Vec::new();
        entries.push(("tab_id", text_value(tab_id.as_str())));
        assert(json::member_views(entries@) =~= seq![("tab_id"@, JsonView::Str(tab_id@))]);
        Request { method: "tab.close", params: json::object(entries) }
    }

    /// Lists all agents (`agent.list`).
    pub fn list_agents() -> (request: Request)
        ensures
            is_request(request, "agent.list"@, Seq::empty()),
    {
        Request { method: "agent.list", params: json::empty_object() }
    }

    /// Fetches the agent identified by `target` (a pane id).
    pub fn get_agent(target: &PaneId) -> (request: Request)
        ensures
            is_request(request, "agent.get"@, seq![("target"@, JsonView::Str(target@))]),
    {
        let mut entries: Vec<(&'static str, Value)> = Vec::new();
        entries.push(("target", text_value(target.as_str())));
        assert(json::member_views(entries@) =~= seq![("target"@, JsonView::Str(target@))]);
        Request { method: "agent.get", params: json::object(entries) }
    }

    /// Starts an agent of `harness` in `pane_id` under unique `name`, passing
    /// `agent_args` through to the agent.
    pub fn start_agent(
        name: &str,
        harness: Harness,
        pane_id: &PaneId,
        agent_args: &Vec<String>,
    ) -> (request: Request)
        ensures
            is_request(
                request,
                "agent.start"@,
                seq![
                    ("name"@, JsonView::Str(name@)),
                    ("kind"@, JsonView::Str(harness.label())),
                    ("pane_id"@, JsonView::Str(pane_id@)),
                    ("args"@, JsonView::Array(json::strings(text::texts(agent_args@)))),
                ],
            ),
    {
        let mut entries: Vec<(&'static str, Value)> = Vec::new();
        entries.push(("name", text_value(name)));
        entries.push(("kind", text_value(harness.to_label().as_str())));
        entries.push(("pane_id", text_value(pane_id.as_str())));
        entries.push(("args", json::string_array(agent_args)));
        assert(json::member_views(entries@) =~= seq![
            ("name"@, JsonView::Str(name@)),
            ("kind"@, JsonView::Str(harness.label())),
            ("pane_id"@, JsonView::Str(pane_id@)),
            ("args"@, JsonView::Array(json::strings(text::texts(agent_args@)))),
        ]);
        Request { method: "agent.start", params: json::object(entries) }
    }

    /// Judges a poll for a started agent. `agent.start` answers with a
    /// placeholder record before the agent is detected; `agent.get` is asked
    /// until the real record appears or the startup timeout is over.
    pub fn await_agent(
        &self,
        name: &str,
        announced: &Agent,
        answer: Result<Agent, HerdrError>,
        elapsed: TimeSpan,
    ) -> (step: StartStep)
        ensures
            start_step(
                announced.launch_pending,
                answer,
                at_least(elapsed, self.startup_timeout),
                name@,
                step,
            ),
    {
        let pending = match &answer {
            Ok(agent) => agent.launch_pending,
            Err(error) => {
                if !error.has_code("agent_not_found") {
                    return StartStep::Failed(
                        match answer {
                            Err(error) => error,
                            Ok(_) => HerdrError::Timeout,
                        },
                    );
                }
                announced.launch_pending
            },
        };
        if !pending {
            return match answer {
                Ok(agent) => StartStep::Started(agent),
                Err(_) => StartStep::StartedAsAnnounced,
            };
        }
        let limit = self.startup_timeout;
        let late = elapsed.secs > limit.secs || (elapsed.secs == limit.secs && elapsed.nanos
            >= limit.nanos);
        if late {
            return StartStep::Failed(
                HerdrError::herdr(
                    "agent_startup_timeout",
                    text::join3("timed out waiting for agent `", name, "` to start"),
                ),
            );
        }
        StartStep::Poll
    }

    /// Prompts the agent at `target` with `text` and waits for it to settle,
    /// bounded by `timeout`.
    ///
    /// When the agent is still working after `timeout`, herdr answers with a
    /// `timeout` error, for which [`HerdrError::is_timeout`] returns `true`.
    pub fn prompt_agent(target: &PaneId, prompt: &str, timeout: TimeSpan) -> (request: Request)
        ensures
            is_request(
                request,
                "agent.prompt"@,
                seq![
                    ("target"@, JsonView::Str(target@)),
                    ("text"@, JsonView::Str(prompt@)),
                    (
                        "wait"@,
                        JsonView::Object(
                            json::members(
                                seq![
                                    ("until"@, settled()),
                                    (
                                        "timeout_ms"@,
                                        JsonView::Number(numbers::decimal(millis(timeout))),
                                    ),
                                ],
                            ),
                        ),
                    ),
                ],
            ),
    {
        let mut wait: Vec<(&'static str, Value)> = Vec::new();
        wait.push(("until", settled_value()));
        wait.push(("timeout_ms", json::number(timeout_ms(timeout))));
        let ghost limits = seq![
            ("until"@, settled()),
            ("timeout_ms"@, JsonView::Number(numbers::decimal(millis(timeout)))),
        ];
        assert(json::member_views(wait@) =~= limits);
        let mut entries: Vec<(&'static str, Value)> = Vec::new();
        entries.push(("target", text_value(target.as_str())));
        entries.push(("text", text_value(prompt)));
        entries.push(("wait", json::object(wait)));
        assert(json::member_views(entries@) =~= seq![
            ("target"@, JsonView::Str(target@)),
            ("text"@, JsonView::Str(prompt@)),
            ("wait"@, JsonView::Object(json::members(limits))),
        ]);
        Request { method: "agent.prompt", params: json::object(entries) }
    }

    /// Delivers a prompt to the agent at `target` without waiting for the turn
    /// to settle (`agent.prompt` without `wait`): settlement is tracked
    /// separately with [`Herdr::wait_agent`].
    pub fn send_prompt(target: &PaneId, prompt: &str) -> (request: Request)
        ensures
            is_request(
                request,
                "agent.prompt"@,
                seq![("target"@, JsonView::Str(target@)), ("text"@, JsonView::Str(prompt@))],
            ),
    {
        let mut entries: Vec<(&'static str, Value)> = Vec::new();
        entries.push(("target", text_value(target.as_str())));
        entries.push(("text", text_value(prompt)));
        assert(json::member_views(entries@) =~= seq![
            ("target"@, JsonView::Str(target@)),
            ("text"@, JsonView::Str(prompt@)),
        ]);
        Request { method: "agent.prompt", params: json::object(entries) }
    }

    /// Waits for the agent at `target` to settle, bounded by `timeout`.
    pub fn wait_agent(target: &PaneId, timeout: TimeSpan) -> (request: Request)
        ensures
            is_request(
                request,
                "agent.wait"@,
                seq![
                    ("target"@, JsonView::Str(target@)),
                    ("until"@, settled()),
                    ("timeout_ms"@, JsonView::Number(numbers::decimal(millis(timeout)))),
                ],
            ),
    {
        let mut entries: Vec<(&'static str, Value)> = Vec::new();
        entries.push(("target", text_value(target.as_str())));
        entries.push(("until", settled_value()));
        entries.push(("timeout_ms", json::number(timeout_ms(timeout))));
        assert(json::member_views(entries@) =~= seq![
            ("target"@, JsonView::Str(target@)),
            ("until"@, settled()),
            ("timeout_ms"@, JsonView::Number(numbers::decimal(millis(timeout)))),
        ]);
        Request { method: "agent.wait", params: json::object(entries) }
    }

    /// Lists the worktrees of `workspace_id`'s repo (`worktree.list`).
    pub fn worktree_list(workspace_id: &WorkspaceId) -> (request: Request)
        ensures
            is_request(
                request,
                "worktree.list"@,
                seq![("workspace_id"@, JsonView::Str(workspace_id@))],
            ),
    {
        let mut entries: Vec<(&'static str, Value)> = Vec::new();
        entries.push(("workspace_id", text_value(workspace_id.as_str())));
        assert(json::member_views(entries@) =~= seq![
            ("workspace_id"@, JsonView::Str(workspace_id@)),
        ]);
        Request { method: "worktree.list", params: json::object(entries) }
    }

    /// Takes a point-in-time snapshot of the herdr session
    /// (`session.snapshot`), whose answer holds every agent.
    pub fn session_snapshot() -> (request: Request)
        ensures
            is_request(request, "session.snapshot"@, Seq::empty()),
    {
        Request { method: "session.snapshot", params: json::empty_object() }
    }

    /// Opens an `events.subscribe` connection: the request for `subscriptions`,
    /// each of which names its kind and, where it has one, its pane. A kind that
    /// is delivered for one pane only has to name it.
    pub fn subscribe(subscriptions: &Vec<Subscription>) -> (result: Result<Request, HerdrError>)
        ensures
            match result {
                Ok(request) => first_unscoped(subscriptions@) == subscriptions@.len() && is_request(
                    request,
                    "events.subscribe"@,
                    seq![("subscriptions"@, JsonView::Array(subscription_views(subscriptions@)))],
                ),
                Err(error) => first_unscoped(subscriptions@) < subscriptions@.len()
                    && error.is_herdr(
                    "pane_scope_required"@,
                    subscriptions@[first_unscoped(subscriptions@)].kind.name()
                        + " requires a pane id"@,
                ),
            },
    {
        let mut items: Vec<Value> = Vec::new();
        let mut i: usize = 0;
        while i < subscriptions.len()
            invariant
                i <= subscriptions@.len(),
                items@.len() == i,
                forall|j: int|
                    0 <= j < i ==> json::json_of(#[trigger] items@[j]) == subscription_view(
                        subscriptions@[j],
                    ),
                forall|j: int| 0 <= j < i ==> !unscoped(#[trigger] subscriptions@[j]),
            decreases subscriptions@.len() - i,
        {
            let subscription = &subscriptions[i];
            let mut entries: Vec<(&'static str, Value)> = Vec::new();
            entries.push(("type", text_value(subscription.kind.subscription())));
            let ghost kind = ("type"@, JsonView::Str(subscription.kind.name()));
            match &subscription.pane_id {
                Some(pane_id) => {
                    entries.push(("pane_id", text_value(pane_id.as_str())));
                    assert(json::member_views(entries@) =~= seq![
                        kind,
                        ("pane_id"@, JsonView::Str(pane_id@)),
                    ]);
                },
                None => {
                    if subscription.kind.requires_pane_scope() {
                        proof {
                            lemma_first_unscoped(subscriptions@, i as int);
                        }
                        return Err(
                            HerdrError::herdr(
                                "pane_scope_required",
                                text::join2(
                                    subscription.kind.subscription(),
                                    " requires a pane id",
                                ),
                            ),
                        );
                    }
                    assert(json::member_views(entries@) =~= seq![kind]);
                },
            }
            items.push(json::object(entries));
            i += 1;
        }
        proof {
            lemma_first_unscoped(subscriptions@, i as int);
            assert(json::jsons(items@) =~= subscription_views(subscriptions@));
        }
        let mut params: Vec<(&'static str, Value)> = Vec::new();
        params.push(("subscriptions", json::array(items)));
        assert(json::member_views(params@) =~= seq![
            ("subscriptions"@, JsonView::Array(subscription_views(subscriptions@))),
        ]);
        Ok(Request { method: "events.subscribe", params: json::object(params) })
    }
}

/// A subscription that lacks the pane it has to name.
pub open spec fn unscoped(subscription: Subscription) -> bool {
    subscription.pane_id is None && subscription.kind is PaneAgentStatusChanged
}

/// The position of the first subscription that lacks its pane, or the length.
pub open spec fn first_unscoped(subscriptions: Seq<Subscription>) -> int
    decreases subscriptions.len(),
{
    if subscriptions.len() == 0 || unscoped(subscriptions[0]) {
        0
    } else {
        1 + first_unscoped(subscriptions.drop_first())
    }
}

proof fn lemma_first_unscoped(subscriptions: Seq<Subscription>, at: int)
    requires
        0 <= at <= subscriptions.len(),
        forall|j: int| 0 <= j < at ==> !unscoped(#[trigger] subscriptions[j]),
        at < subscriptions.len() ==> unscoped(subscriptions[at]),
    ensures
        first_unscoped(subscriptions) == at,
    decreases subscriptions.len(),
{
    if at > 0 {
        assert(!unscoped(subscriptions[0]));
        let rest = subscriptions.drop_first();
        assert forall|j: int| 0 <= j < at - 1 implies !unscoped(#[trigger] rest[j]) by {
            assert(rest[j] == subscriptions[j + 1]);
        }
        lemma_first_unscoped(rest, at - 1);
    }
}

/// What a subscription is sent as.
pub open spec fn subscription_view(subscription: Subscription) -> JsonView {
    let kind = ("type"@, JsonView::Str(subscription.kind.name()));
    JsonView::Object(
        json::members(
            match subscription.pane_id {
                Some(pane_id) => seq![kind, ("pane_id"@, JsonView::Str(pane_id@))],
                None => seq![kind],
            },
        ),
    )
}

/// What subscriptions are sent as.
pub open spec fn subscription_views(subscriptions: Seq<Subscription>) -> Seq<JsonView> {
    subscriptions.map_values(|subscription: Subscription| subscription_view(subscription))
}

/// Judges a line that arrives before a subscription is acknowledged, `None` for
/// a connection that was closed: whether it is the acknowledgment.
pub fn acknowledged(line: Option<Envelope>) -> (result: Result<bool, HerdrError>)
    ensures
        match line {
            None => result matches Err(error) && error.is_herdr(
                "subscription_closed"@,
                "herdr closed the subscription connection before acknowledging"@,
            ),
            Some(envelope) => match (envelope.error, envelope.result) {
                (Some(error), _) => result matches Err(reported) && reported.is_herdr(
                    error.code@,
                    error.message@,
                ),
                (None, Some(payload)) => result == Ok::<bool, HerdrError>(
                    json::json_of(payload).str_at("type"@) == Some("subscription_started"@),
                ),
                (None, None) => result matches Err(reported) && reported.is_herdr(
                    "missing_result"@,
                    "herdr response contained no result"@,
                ),
            },
        },
{
    match line {
        None => Err(
            HerdrError::herdr(
                "subscription_closed",
                text::copy("herdr closed the subscription connection before acknowledging"),
            ),
        ),
        Some(envelope) => match envelope.into_result() {
            Err(error) => Err(error),
            Ok(payload) => match json::str_member(&payload, "type") {
                Some(kind) => Ok(text::same(kind, "subscription_started")),
                None => Ok(false),
            },
        },
    }
}

/// The workspace that `workspace.create` answers with.
pub fn created_workspace(created: WorkspaceCreated) -> (workspace: CreatedWorkspace)
    ensures
        workspace == (CreatedWorkspace {
            workspace: created.workspace,
            pane_id: created.root_pane.pane_id,
        }),
{
    CreatedWorkspace { workspace: created.workspace, pane_id: created.root_pane.pane_id }
}

/// The tab that `tab.create` answers with.
pub fn created_tab(created: TabCreated) -> (tab: CreatedTab)
    ensures
        tab == (CreatedTab {
            tab_id: created.tab.tab_id,
            label: created.tab.label,
            pane_id: created.root_pane.pane_id,
            cwd: created.root_pane.cwd,
        }),
{
    CreatedTab {
        tab_id: created.tab.tab_id,
        label: created.tab.label,
        pane_id: created.root_pane.pane_id,
        cwd: created.root_pane.cwd,
    }
}

} // verus!
