//! Laws of stored rows, paths and herdr requests.

use vstd::prelude::*;

use crate::config::TimeSpan;
use crate::db;
use crate::db::migrate;
use crate::db::model::{SessionRow, SessionRowView, WorkspaceRow, WorkspaceRowView};
use crate::forum::events;
use crate::forum::spawn;
use crate::herdr::client;
use crate::herdr::client::StartStep;
use crate::herdr::error::HerdrError;
use crate::herdr::event::{EventKind, Subscription};
use crate::herdr::model::{Agent, Workspace};
use crate::ids::MessageId;
use crate::json;
use crate::json::JsonView;
use crate::numbers;
use crate::paths;
use crate::seqs;
use crate::text;

verus! {

/// A stored workspace is replaced exactly where one that is live bears its label or its
/// identifier as identifier and is stored otherwise; it then bears the label and the
/// identifier of the live one and keeps its forum.
pub proof fn a_migrated_workspace_is_the_live_one(
    row: WorkspaceRowView,
    workspaces: Seq<Workspace>,
)
    ensures
        match migrate::rekeyed(row, workspaces) {
            Some(next) => next != row && next.forum_channel_id == row.forum_channel_id && exists|
                i: int,
            |
                0 <= i < workspaces.len() && next.label == (#[trigger] workspaces[i]).label@
                    && next.workspace_id == workspaces[i].workspace_id@ && (next.workspace_id
                    == row.label || next.workspace_id == row.workspace_id),
            None => (forall|i: int|
                0 <= i < workspaces.len() ==> (#[trigger] workspaces[i]).workspace_id@ != row.label
                    && workspaces[i].workspace_id@ != row.workspace_id) || exists|i: int|
                0 <= i < workspaces.len() && (#[trigger] workspaces[i]).label@ == row.label
                    && workspaces[i].workspace_id@ == row.workspace_id,
        },
{
    let wanted = migrate::stored_as(row);
    seqs::lemma_first_where(workspaces, wanted);
    let at = seqs::first_where(workspaces, wanted);
    if at < workspaces.len() {
        assert(wanted(workspaces[at]));
    } else {
        assert forall|i: int| 0 <= i < workspaces.len() implies (
        #[trigger] workspaces[i]).workspace_id@ != row.label && workspaces[i].workspace_id@
            != row.workspace_id by {
            assert(!wanted(workspaces[i]));
        }
    }
}

/// A stored session is relabelled exactly where its label is the identifier of a live
/// workspace with another label; nothing else of it changes.
pub proof fn a_migrated_session_bears_the_live_label(
    row: SessionRowView,
    workspaces: Seq<Workspace>,
)
    ensures
        match migrate::relabelled(row, workspaces) {
            Some(next) => {
                &&& next == (SessionRowView { workspace_label: next.workspace_label, ..row })
                &&& next.workspace_label != row.workspace_label
                &&& exists|i: int|
                    0 <= i < workspaces.len() && (#[trigger] workspaces[i]).workspace_id@
                        == row.workspace_label && workspaces[i].label@ == next.workspace_label
            },
            None => (forall|i: int|
                0 <= i < workspaces.len() ==> (#[trigger] workspaces[i]).workspace_id@
                    != row.workspace_label) || exists|i: int|
                0 <= i < workspaces.len() && (#[trigger] workspaces[i]).workspace_id@
                    == row.workspace_label && workspaces[i].label@ == row.workspace_label,
        },
{
    let wanted = migrate::labelled_by(row.workspace_label);
    seqs::lemma_first_where(workspaces, wanted);
    let at = seqs::first_where(workspaces, wanted);
    if at < workspaces.len() {
        assert(wanted(workspaces[at]));
    } else {
        assert forall|i: int| 0 <= i < workspaces.len() implies (
        #[trigger] workspaces[i]).workspace_id@ != row.workspace_label by {
            assert(!wanted(workspaces[i]));
        }
    }
}

/// Every stored workspace that is to be replaced is, under its old label.
pub proof fn every_workspace_is_migrated(
    rows: Seq<WorkspaceRow>,
    workspaces: Seq<Workspace>,
    at: int,
)
    requires
        0 <= at < rows.len(),
    ensures
        migrate::rekeyed(rows[at]@, workspaces) matches Some(next)
            ==> migrate::workspace_migrations(rows, workspaces).contains((rows[at]@.label, next)),
    decreases rows.len(),
{
    if let Some(next) = migrate::rekeyed(rows[at]@, workspaces) {
        let all = migrate::workspace_migrations(rows, workspaces);
        if at == rows.len() - 1 {
            assert(all.last() == (rows[at]@.label, next));
        } else {
            every_workspace_is_migrated(rows.drop_last(), workspaces, at);
            let before = migrate::workspace_migrations(rows.drop_last(), workspaces);
            let k = choose|k: int|
                0 <= k < before.len() && before[k] == (rows[at]@.label, next);
            assert(all[k] == (rows[at]@.label, next));
        }
    }
}

/// Every stored session that is to be relabelled is.
pub proof fn every_session_is_migrated(
    rows: Seq<SessionRow>,
    workspaces: Seq<Workspace>,
    at: int,
)
    requires
        0 <= at < rows.len(),
    ensures
        migrate::relabelled(rows[at]@, workspaces) matches Some(next)
            ==> migrate::session_migrations(rows, workspaces).contains(next),
    decreases rows.len(),
{
    if let Some(next) = migrate::relabelled(rows[at]@, workspaces) {
        let all = migrate::session_migrations(rows, workspaces);
        if at == rows.len() - 1 {
            assert(all.last() == next);
        } else {
            every_session_is_migrated(rows.drop_last(), workspaces, at);
            let before = migrate::session_migrations(rows.drop_last(), workspaces);
            let k = choose|k: int| 0 <= k < before.len() && before[k] == next;
            assert(all[k] == next);
        }
    }
}

/// A joined path starts with its base and ends with what is joined to it, with one slash
/// between them; an absolute path is not joined to anything.
pub proof fn a_joined_path_holds_both_parts(base: Seq<char>, relative: Seq<char>)
    ensures
        text::starts_with(paths::joined_path(base, relative), base),
        text::ends_with(paths::joined_path(base, relative), relative),
        base.len() > 0 && base.last() != '/' ==> paths::joined_path(base, relative) == base + seq![
            '/',
        ] + relative,
        base.len() == 0 || base.last() == '/' ==> paths::joined_path(base, relative) == base
            + relative,
        relative.len() > 0 && relative[0] == '/' ==> paths::path_from(base, relative) == relative,
        !(relative.len() > 0 && relative[0] == '/') ==> paths::path_from(base, relative)
            == paths::joined_path(base, relative),
{
    reveal_strlit("/");
    assert("/"@ =~= seq!['/']);
    let path = paths::joined_path(base, relative);
    assert(path.subrange(0, base.len() as int) =~= base);
    assert(path.subrange(path.len() - relative.len(), path.len() as int) =~= relative);
    if base.len() == 0 {
        assert(base + relative =~= relative);
    }
}

/// A path is shortened exactly where it is the home directory or lies in it, and then
/// the tilde stands for the home directory.
pub proof fn a_shortened_path_lies_in_the_home_directory(value: Seq<char>, home: Seq<char>)
    ensures
        ({
            let shown = paths::shortened_home(value, Some(home));
            let inside = text::starts_with(value, home) && (value.len() == home.len()
                || value[home.len() as int] == '/' || value[home.len() as int] == '\\');
            &&& inside ==> shown.len() > 0 && shown[0] == '~' && value == home + shown.skip(1)
            &&& !inside ==> shown == value
        }),
        paths::shortened_home(value, None) == value,
{
    reveal_strlit("~");
    if text::starts_with(value, home) {
        let suffix = value.skip(home.len() as int);
        assert(value =~= home + suffix);
        let shown = "~"@ + suffix;
        assert(shown.skip(1) =~= suffix);
        assert("~"@.skip(1) =~= Seq::<char>::empty());
    }
}

/// A project is labelled by its path below the base directory, and by its shortened path
/// where it does not lie below it.
pub proof fn a_project_is_labelled_by_its_relative_path(
    relative: Option<Seq<char>>,
    path: Seq<char>,
    home: Option<Seq<char>>,
)
    ensures
        relative matches Some(inner) ==> (inner.len() > 0 ==> paths::label_with(
            relative,
            path,
            home,
        ) == inner),
        relative is None || relative->0.len() == 0 ==> paths::label_with(relative, path, home)
            == paths::shortened_home(path, home),
{
}

proof fn lemma_members(entries: Seq<(Seq<char>, JsonView)>, at: int)
    requires
        0 <= at < entries.len(),
        forall|i: int, j: int|
            0 <= i < j < entries.len() ==> (#[trigger] entries[i]).0 != (#[trigger] entries[j]).0,
    ensures
        json::lookup(json::members(entries), entries[at].0) == Some(entries[at].1),
    decreases entries.len(),
{
    let head = entries.drop_last();
    let last = entries.last();
    let before = json::members(head);
    if at == entries.len() - 1 {
        json::lemma_set_entry(before, last.0, last.1);
    } else {
        assert forall|i: int, j: int| 0 <= i < j < head.len() implies (#[trigger] head[i]).0 != (
        #[trigger] head[j]).0 by {
            assert(entries[i].0 != entries[j].0);
        }
        lemma_members(head, at);
        assert(entries[at].0 != entries[entries.len() - 1].0);
        json::lemma_other_entry(before, last.0, last.1, entries[at].0);
        assert(head[at] == entries[at]);
    }
}

/// A request holds each of its parameters under its name.
pub proof fn a_request_holds_its_parameters(
    request: client::Request,
    method: Seq<char>,
    params: Seq<(Seq<char>, JsonView)>,
    at: int,
)
    requires
        client::is_request(request, method, params),
        0 <= at < params.len(),
        forall|i: int, j: int|
            0 <= i < j < params.len() ==> (#[trigger] params[i]).0 != (#[trigger] params[j]).0,
    ensures
        request.method@ == method,
        json::json_of(request.params).get(params[at].0) == Some(params[at].1),
{
    lemma_members(params, at);
}

/// A request line names the sender, the method and the parameters.
pub proof fn a_request_names_its_method(method: Seq<char>, params: JsonView)
    ensures
        client::request_json(method, params).str_at("id"@) == Some("herdcord"@),
        client::request_json(method, params).str_at("method"@) == Some(method),
        client::request_json(method, params).get("params"@) == Some(params),
{
    reveal_strlit("id");
    reveal_strlit("method");
    reveal_strlit("params");
    assert("id"@.len() == 2 && "method"@.len() == 6 && "params"@.len() == 6);
    assert("method"@[0] == 'm' && "params"@[0] == 'p');
    let entries = seq![
        ("id"@, JsonView::Str(client::REQUEST_ID@)),
        ("method"@, JsonView::Str(method)),
        ("params"@, params),
    ];
    assert forall|i: int, j: int| 0 <= i < j < entries.len() implies (#[trigger] entries[i]).0 != (
    #[trigger] entries[j]).0 by {
    }
    lemma_members(entries, 0);
    lemma_members(entries, 1);
    lemma_members(entries, 2);
}

/// A subscription names its kind and, where it has one, its pane.
pub proof fn a_subscription_names_kind_and_pane(subscription: Subscription)
    ensures
        client::subscription_view(subscription).str_at("type"@) == Some(subscription.kind.name()),
        subscription.pane_id matches Some(pane) ==> client::subscription_view(subscription).str_at(
            "pane_id"@,
        ) == Some(pane@),
        subscription.pane_id is None ==> client::subscription_view(subscription).get("pane_id"@)
            is None,
{
    reveal_strlit("type");
    reveal_strlit("pane_id");
    assert("type"@.len() == 4 && "pane_id"@.len() == 7);
    let kind = ("type"@, JsonView::Str(subscription.kind.name()));
    match subscription.pane_id {
        Some(pane) => {
            let entries = seq![kind, ("pane_id"@, JsonView::Str(pane@))];
            assert forall|i: int, j: int|
                0 <= i < j < entries.len() implies (#[trigger] entries[i]).0 != (
            #[trigger] entries[j]).0 by {
            }
            lemma_members(entries, 0);
            lemma_members(entries, 1);
        },
        None => {
            let entries = seq![kind];
            lemma_members(entries, 0);
            let none = Seq::<(Seq<char>, JsonView)>::empty();
            assert(entries.drop_last() =~= none);
            assert(json::members(none) =~= none);
            json::lemma_other_entry(none, kind.0, kind.1, "pane_id"@);
            assert(json::members(entries) == json::with_entry(none, kind.0, kind.1));
        },
    }
}

/// A subscription is refused exactly where one of a pane's status names no pane.
pub proof fn a_status_subscription_names_its_pane(subscriptions: Seq<Subscription>)
    ensures
        0 <= client::first_unscoped(subscriptions) <= subscriptions.len(),
        client::first_unscoped(subscriptions) == subscriptions.len() <==> forall|i: int|
            0 <= i < subscriptions.len() ==> !((#[trigger] subscriptions[i]).pane_id is None
                && subscriptions[i].kind is PaneAgentStatusChanged),
    decreases subscriptions.len(),
{
    if subscriptions.len() > 0 {
        let rest = subscriptions.drop_first();
        a_status_subscription_names_its_pane(rest);
        if client::unscoped(subscriptions[0]) {
            assert(subscriptions[0].pane_id is None);
        } else {
            if forall|i: int|
                0 <= i < rest.len() ==> !((#[trigger] rest[i]).pane_id is None && rest[i].kind
                    is PaneAgentStatusChanged) {
                assert forall|i: int| 0 <= i < subscriptions.len() implies !((
                #[trigger] subscriptions[i]).pane_id is None && subscriptions[i].kind
                    is PaneAgentStatusChanged) by {
                    if i > 0 {
                        assert(subscriptions[i] == rest[i - 1]);
                    }
                }
            }
            if forall|i: int|
                0 <= i < subscriptions.len() ==> !((#[trigger] subscriptions[i]).pane_id is None
                    && subscriptions[i].kind is PaneAgentStatusChanged) {
                assert forall|i: int| 0 <= i < rest.len() implies !((#[trigger] rest[i]).pane_id
                    is None && rest[i].kind is PaneAgentStatusChanged) by {
                    assert(rest[i] == subscriptions[i + 1]);
                }
            }
        }
    }
}

/// Every event that leads to anything is subscribed to: those of a pane's status for each
/// agent, all others for every pane.
pub proof fn every_handled_event_is_subscribed(
    kind: EventKind,
    data: JsonView,
    panes: Map<Seq<char>, Seq<char>>,
    agents: Seq<Agent>,
    at: int,
)
    requires
        0 <= at < agents.len(),
    ensures
        ({
            let wanted = events::lifecycle() + events::pane_events(agents);
            &&& !(events::event_step(Some(kind), data, panes) is Ignore) && !(kind
                is PaneAgentStatusChanged) ==> wanted.contains((kind, None))
            &&& wanted.contains((EventKind::PaneAgentStatusChanged, Some(agents[at].pane_id@)))
        }),
{
    let wanted = events::lifecycle() + events::pane_events(agents);
    assert(wanted[7 + at] == (EventKind::PaneAgentStatusChanged, Some(agents[at].pane_id@)));
    assert(wanted[0] == (EventKind::WorkspaceCreated, None::<Seq<char>>));
    assert(wanted[1] == (EventKind::WorkspaceUpdated, None::<Seq<char>>));
    assert(wanted[2] == (EventKind::WorkspaceRenamed, None::<Seq<char>>));
    assert(wanted[3] == (EventKind::WorkspaceClosed, None::<Seq<char>>));
    assert(wanted[4] == (EventKind::PaneAgentDetected, None::<Seq<char>>));
    assert(wanted[5] == (EventKind::PaneClosed, None::<Seq<char>>));
    assert(wanted[6] == (EventKind::PaneExited, None::<Seq<char>>));
}

/// A time span is told in whole milliseconds, as far as they can be counted.
pub proof fn a_span_is_told_in_milliseconds(span: TimeSpan)
    requires
        span.nanos < 1_000_000_000,
    ensures
        ({
            let told = client::millis(span);
            let nanos = span.secs * 1_000_000_000 + span.nanos;
            &&& nanos < 18446744073709551616 * 1_000_000 ==> told * 1_000_000 <= nanos < (told + 1)
                * 1_000_000
            &&& told <= u64::MAX
        }),
{
}

/// An agent has started once it is no longer pending. While it is, it is polled until
/// the time is up; and an error other than that it is not known yet ends the start.
pub proof fn an_agent_is_polled_while_it_is_pending(
    announced: bool,
    answer: Result<Agent, HerdrError>,
    late: bool,
    name: Seq<char>,
    step: StartStep,
)
    requires
        client::start_step(announced, answer, late, name, step),
    ensures
        answer matches Ok(agent) ==> {
            &&& !agent.launch_pending ==> step == StartStep::Started(agent)
            &&& agent.launch_pending && !late ==> step is Poll
            &&& agent.launch_pending && late ==> step is Failed
        },
        answer matches Err(error) ==> {
            &&& !error.coded("agent_not_found"@) ==> step == StartStep::Failed(error)
            &&& error.coded("agent_not_found"@) && announced && !late ==> step is Poll
            &&& error.coded("agent_not_found"@) && announced && late ==> step is Failed
            &&& error.coded("agent_not_found"@) && !announced ==> step is StartedAsAnnounced
        },
{
}

/// A session is stored field by field, with the number of its thread in decimal; a
/// stored row is read the same way.
pub proof fn a_session_is_stored_field_by_field(row: db::RowView)
    ensures
        ({
            let stored = db::stored_row(row);
            &&& stored.thread_id == numbers::decimal(row.thread_id.0 as nat)
            &&& stored.agent == row.agent_key
            &&& stored.acp == row.session_id
            &&& stored.project_path == row.project_path
        }),
        forall|stored: db::StoredView|
            (#[trigger] db::read_row(stored)) matches Some(read) ==> read.agent_key == stored.agent
                && read.session_id == stored.acp && read.project_path == stored.project_path
                && stored.project_path.len() > 0 && stored.project_path[0] == '/',
{
}

/// The messages of a projection are stored by their positions, each with its number in
/// decimal.
pub proof fn messages_are_stored_by_position(ids: Seq<MessageId>)
    ensures
        db::stored_messages(ids).len() == ids.len(),
        forall|i: int|
            0 <= i < ids.len() ==> #[trigger] db::stored_messages(ids)[i] == (
                i,
                numbers::decimal(ids[i].0 as nat),
            ),
{
}

/// A prompt waits until the agent is idle, done or blocked, and for nothing else.
pub proof fn a_prompt_waits_until_the_agent_settles(value: JsonView)
    ensures
        client::settled() matches JsonView::Array(values) && values.len() == 3 && (values.contains(
            value,
        ) <==> value == JsonView::Str("idle"@) || value == JsonView::Str("done"@) || value
            == JsonView::Str("blocked"@)),
{
    let values = json::strings(seq!["idle"@, "done"@, "blocked"@]);
    assert(values[0] == JsonView::Str("idle"@));
    assert(values[1] == JsonView::Str("done"@));
    assert(values[2] == JsonView::Str("blocked"@));
}

/// One time span is at least another exactly where it takes at least as many
/// nanoseconds.
pub proof fn spans_compare_by_their_length(span: TimeSpan, other: TimeSpan)
    requires
        span.nanos < 1_000_000_000,
        other.nanos < 1_000_000_000,
    ensures
        client::at_least(span, other) <==> span.secs * 1_000_000_000 + span.nanos >= other.secs
            * 1_000_000_000 + other.nanos,
{
}

/// The names that are taken are those that agents bear.
pub proof fn the_taken_names_are_those_of_agents(agents: Seq<Agent>, name: Seq<char>)
    ensures
        spawn::agent_names(agents).contains(name) <==> exists|i: int|
            0 <= i < agents.len() && text::opt_text((#[trigger] agents[i]).name) == Some(name),
    decreases agents.len(),
{
    let all = spawn::agent_names(agents);
    if agents.len() > 0 {
        let head = agents.drop_last();
        let before = spawn::agent_names(head);
        the_taken_names_are_those_of_agents(head, name);
        if all.contains(name) {
            let k = choose|k: int| 0 <= k < all.len() && all[k] == name;
            if k < before.len() {
                assert(before[k] == name);
                let i = choose|i: int|
                    0 <= i < head.len() && text::opt_text((#[trigger] head[i]).name) == Some(name);
                assert(agents[i] == head[i]);
            } else {
                assert(text::opt_text(agents[agents.len() - 1].name) == Some(name));
            }
        }
        if exists|i: int|
            0 <= i < agents.len() && text::opt_text((#[trigger] agents[i]).name) == Some(name) {
            let i = choose|i: int|
                0 <= i < agents.len() && text::opt_text((#[trigger] agents[i]).name) == Some(name);
            if i < head.len() {
                assert(head[i] == agents[i]);
                let k = choose|k: int| 0 <= k < before.len() && before[k] == name;
                assert(all[k] == name);
            } else {
                assert(all.last() == name);
            }
        }
    }
}

/// The panes that are kept are those that are still reported, each with its session.
pub proof fn reported_panes_are_kept(
    panes: Map<Seq<char>, Seq<char>>,
    reported: Seq<Seq<char>>,
    pane: Seq<char>,
)
    ensures
        events::kept(panes, reported).dom().contains(pane) <==> panes.dom().contains(pane)
            && reported.contains(pane),
        events::kept(panes, reported).dom().contains(pane) ==> events::kept(panes, reported)[pane]
            == panes[pane],
{
}

/// A path with a tilde leads into the home directory and cannot be followed without
/// one; any other path leads where it says.
pub proof fn a_tilde_leads_into_the_home_directory(path: Seq<char>, home: Option<Seq<char>>)
    ensures
        !(path.len() > 0 && path[0] == '~' && (path.len() == 1 || path[1] == '/'))
            ==> paths::expanded_home(path, home) == Some(path),
        path == seq!['~'] ==> paths::expanded_home(path, home) == home,
        path.len() > 1 && path[0] == '~' && path[1] == '/' ==> paths::expanded_home(path, home)
            == match home {
            Some(directory) => Some(paths::path_from(directory, path.skip(2))),
            None => None,
        },
{
    reveal_strlit("~");
    reveal_strlit("~/");
    assert("~"@ =~= seq!['~']);
    if text::starts_with(path, "~/"@) {
        assert(path.subrange(0, 2)[0] == '~');
        assert(path.subrange(0, 2)[1] == '/');
    }
    if path.len() > 1 && path[0] == '~' && path[1] == '/' {
        assert(path.subrange(0, 2) =~= "~/"@);
    }
}

/// A project is labelled by its path below the base directory, and by its path as such
/// where there is no base or it does not lie below it.
pub proof fn a_label_is_relative_to_the_base(
    path: Seq<char>,
    base: Seq<char>,
    home: Option<Seq<char>>,
)
    ensures
        base.len() == 0 ==> paths::label_in(path, base, home) == paths::shortened_home(path, home),
        base.len() > 0 && base[0] != '~' ==> paths::label_in(path, base, home) == match paths::below(
            path,
            base,
        ) {
            Some(inner) if inner.len() > 0 => inner,
            _ => paths::shortened_home(path, home),
        },
        home matches Some(directory) ==> (base == seq!['~'] ==> paths::label_in(path, base, home)
            == match paths::below(path, directory) {
            Some(inner) if inner.len() > 0 => inner,
            _ => paths::shortened_home(path, home),
        }),
{
    a_tilde_leads_into_the_home_directory(base, home);
}

} // verus!
