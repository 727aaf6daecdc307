//! Laws of commands: what is asked for, and what is told.

use vstd::prelude::*;

use crate::acp::options;
use crate::acp::options::{
    AcpErrorView, CategoryView, ModelRunView, SessionConfigKind, SessionConfigOption,
};
use crate::commands::agent;
use crate::commands::choices;
use crate::commands::harness;
use crate::commands::herdr;
use crate::commands::model;
use crate::commands::model::Changed;
use crate::commands::session as command;
use crate::commands::workspace;
use crate::commands::workspace::QueryView;
use crate::config;
use crate::config::AgentView;
use crate::db;
use crate::discord::permission;
use crate::discord::render;
use crate::discord::render::{ProjectionOutcome, Reduced};
use crate::elicitation;
use crate::elicitation::ElicitationSchema;
use crate::error::{BotError, BotResult};
use crate::forum::echo;
use crate::forum::spawn;
use crate::forum::ForumView;
use crate::herdr::model::Workspace;
use crate::ids::ChannelId;
use crate::json;
use crate::laws::models;
use crate::laws::tools;
use crate::modal;
use crate::modal::{InputView, Submitted};
use crate::numbers;
use crate::paths;
use crate::seqs;
use crate::session::Harness;
use crate::text;

verus! {

/// The last component of a kind with an identifier says what a submitted modal holds:
/// a menu its first selected value, if any, and an input its text. Without one the
/// modal holds nothing.
pub proof fn a_modal_holds_what_its_component_says(
    components: Seq<Submitted>,
    id: Seq<char>,
    at: int,
)
    requires
        0 <= at < components.len(),
    ensures
        (components[at] matches Submitted::Text { custom_id, value } && custom_id@ == id && (forall|
            k: int,
        |
            at < k < components.len() ==> !(#[trigger] components[k] matches Submitted::Text {
                custom_id: other,
                ..
            } && other@ == id))) ==> modal::submitted(components, false, id) == Some(
            components[at]->Text_value@,
        ),
        (components[at] matches Submitted::Select { custom_id, values } && custom_id@ == id && (
        forall|k: int|
            at < k < components.len() ==> !(#[trigger] components[k] matches Submitted::Select {
                custom_id: other,
                ..
            } && other@ == id))) ==> modal::submitted(components, true, id)
            == if components[at]->values@.len() > 0 {
            Some(components[at]->values@[0]@)
        } else {
            None
        },
    decreases components.len(),
{
    let head = components.drop_last();
    let last = components.len() - 1;
    if at < last {
        a_modal_holds_what_its_component_says(head, id, at);
        assert(head[at] == components[at]);
        assert(forall|k: int| at < k < head.len() ==> #[trigger] head[k] == components[k]);
        assert(components[last] == components.last());
    }
}

/// A switch offers the positions that hold what was typed, and a selection the choices
/// that do; a session without an option of the category offers nothing.
pub proof fn a_category_offers_its_first_option(
    all: Seq<SessionConfigOption>,
    category: CategoryView,
    typed: Seq<char>,
    at: int,
)
    requires
        0 <= at <= all.len(),
        forall|i: int| 0 <= i < at ==> !models::says_it_is(#[trigger] all[i], category),
        at < all.len() ==> models::says_it_is(all[at], category),
    ensures
        ({
            let shown = choices::category_offer(all, category, typed);
            let needle = text::lowercase(typed);
            &&& at == all.len() ==> shown.len() == 0
            &&& at < all.len() ==> match all[at].kind {
                SessionConfigKind::Select(select) => shown == choices::offered(
                    options::all_choices(select).map_values(
                        |choice: (Seq<char>, Seq<char>)| choices::named_candidate(choice),
                    ),
                    needle,
                ),
                SessionConfigKind::Boolean { .. } => {
                    &&& shown.contains(("true"@, "true"@)) <==> text::contains("true"@, needle)
                    &&& shown.contains(("false"@, "false"@)) <==> text::contains("false"@, needle)
                    &&& shown.len() <= 2
                },
                SessionConfigKind::Other => shown.len() == 0,
            }
        }),
{
    let own = options::categorized(category);
    assert forall|i: int| 0 <= i < at implies !own(#[trigger] all[i]) by {
        assert(!models::says_it_is(all[i], category));
    }
    seqs::lemma_first_where_is(all, own, at);
    reveal_strlit("true");
    reveal_strlit("false");
    assert("true"@.len() != "false"@.len());
    let shown = choices::category_offer(all, category, typed);
    let needle = text::lowercase(typed);
    if at < all.len() && all[at].kind is Boolean {
        let toggles = choices::toggle_choices(needle);
        if text::contains("true"@, needle) {
            assert(toggles[0] == ("true"@, "true"@));
        }
        if text::contains("false"@, needle) {
            assert(toggles.last() == ("false"@, "false"@));
        }
        if toggles.contains(("true"@, "true"@)) {
            let k = choose|k: int| 0 <= k < toggles.len() && toggles[k] == ("true"@, "true"@);
            assert(toggles[k].0.len() == 4);
        }
        if toggles.contains(("false"@, "false"@)) {
            let k = choose|k: int| 0 <= k < toggles.len() && toggles[k] == ("false"@, "false"@);
            assert(toggles[k].0.len() == 5);
        }
    }
}

/// Selecting a model sends its changes one after the other, resolved against what the
/// session offers at the time, and is done once all are sent.
pub proof fn a_model_is_set_change_by_change(
    run: ModelRunView,
    all: Seq<SessionConfigOption>,
    changes: Seq<(Seq<char>, Seq<char>)>,
)
    requires
        options::changes_for(all, run.model) == Ok::<Seq<(Seq<char>, Seq<char>)>, AcpErrorView>(
            changes,
        ),
        run.count == changes.len(),
    ensures
        run.index < run.count ==> options::next_change(run, all) == Ok::<
            Option<(Seq<char>, Seq<char>)>,
            AcpErrorView,
        >(Some(changes[run.index as int])),
        run.index >= run.count ==> options::next_change(run, all) == Ok::<
            Option<(Seq<char>, Seq<char>)>,
            AcpErrorView,
        >(None),
{
}

/// A summary tells every change, by its name and what it was set to.
pub proof fn a_summary_tells_every_change(changes: Seq<Changed>, at: int)
    requires
        0 <= at < changes.len(),
    ensures
        text::contains(
            model::summary_of(changes),
            changes[at].name@ + " set to **"@ + changes[at].label@ + "**"@,
        ),
    decreases changes.len(),
{
    let all = model::summary_of(changes);
    let told = changes[at].name@ + " set to **"@ + changes[at].label@ + "**"@;
    let none = Seq::<char>::empty();
    if changes.len() == 1 {
        tools::lemma_contains(none, told, none);
        assert(none + told + none =~= all);
    } else {
        let before = model::summary_of(changes.drop_last());
        let last = model::changed_text(changes.last().name@, changes.last().label@);
        if at == changes.len() - 1 {
            tools::lemma_contains(before + " · "@, told, none);
            assert(before + " · "@ + told + none =~= all);
        } else {
            a_summary_tells_every_change(changes.drop_last(), at);
            let place = choose|place: int| text::occurs_at(before, told, place);
            assert(all.subrange(place, place + told.len()) =~= told) by {
                assert(before.subrange(place, place + told.len()) == told);
            }
            assert(text::occurs_at(all, told, place));
        }
    }
}

proof fn lemma_without_slashes(s: Seq<char>)
    ensures
        command::without_slashes(s).len() > 0 ==> command::without_slashes(s)[0] != '/',
        text::ends_with(s, command::without_slashes(s)),
    decreases s.len(),
{
    let bare = command::without_slashes(s);
    if s.len() > 0 && s[0] == '/' {
        lemma_without_slashes(s.drop_first());
        let rest = s.drop_first();
        assert(s.subrange(s.len() - bare.len(), s.len() as int) =~= rest.subrange(
            rest.len() - bare.len(),
            rest.len() as int,
        ));
    } else {
        assert(s.subrange(0, s.len() as int) =~= s);
    }
}

/// A command is sent behind exactly one slash, however many were typed, with its input
/// behind a space where there is any to be seen.
pub proof fn a_command_is_sent_behind_one_slash(typed: Seq<char>, input: Option<Seq<char>>)
    ensures
        ({
            let name = command::without_slashes(typed);
            let prompt = command::command_prompt(name, input);
            &&& text::ends_with(typed, name)
            &&& name.len() > 0 ==> prompt[0] == '/' && prompt[1] != '/'
            &&& input is None || text::is_blank(input->0) ==> prompt == seq!['/'] + name
            &&& input matches Some(value) ==> (!text::is_blank(value) ==> prompt == seq!['/'] + name
                + seq![' '] + text::trimmed(value))
        }),
{
    lemma_without_slashes(typed);
    reveal_strlit("/");
    reveal_strlit(" ");
    assert("/"@ =~= seq!['/']);
    assert(" "@ =~= seq![' ']);
}

/// A path that is typed below the home directory is looked for there and suggested with
/// the tilde; another user's home directory is not looked into.
pub proof fn a_typed_path_is_looked_for_where_it_leads(input: Seq<char>, home: Seq<char>)
    ensures
        ({
            let query = workspace::query_of(input, home);
            &&& input.len() > 1 && input[0] == '~' && input[1] != '/' ==> query
                == QueryView::Known(Seq::empty())
            &&& input.len() > 0 && input[0] != '~' ==> query is Search
            &&& query matches QueryView::Search(root, prefix, basename) ==> {
                &&& input[0] == '~' ==> text::starts_with(prefix, "~/"@)
                &&& input == "~"@ ==> root == home && basename.len() == 0
                &&& prefix.len() > 0 ==> prefix.last() == '/'
            }
        }),
{
    reveal_strlit("~");
    reveal_strlit("~/");
    reveal_strlit("/");
    if text::starts_with(input, "~/"@) {
        assert(input.subrange(0, 2)[1] == '/');
        assert(input.subrange(0, 2)[0] == '~');
    }
    if let QueryView::Search(root, prefix, basename) = workspace::query_of(input, home) {
        if input[0] == '~' {
            assert(prefix.subrange(0, 2) =~= "~/"@);
        }
        let slashed = workspace::slashed(workspace::path_parts(input).0);
        let below = workspace::slashed(workspace::path_parts(input.skip(2)).0);
        lemma_slashed(workspace::path_parts(input).0);
        lemma_slashed(workspace::path_parts(input.skip(2)).0);
        if text::starts_with(input, "~/"@) && below.len() > 0 {
            assert(prefix.last() == below.last());
        }
    }
}

proof fn lemma_slashed(path: Seq<char>)
    ensures
        workspace::slashed(path).len() > 0 ==> workspace::slashed(path).last() == '/',
        path.len() == 0 ==> workspace::slashed(path).len() == 0,
{
    reveal_strlit("/");
    if path.len() > 0 && text::ends_with(path, "/"@) {
        assert(path.subrange(path.len() - 1, path.len() as int)[0] == '/');
    }
}

/// A path that ends in a slash or in two dots is completed as the directory it is; any
/// other is split into its parent and its last component.
pub proof fn a_path_is_split_at_its_last_component(
    path: Seq<char>,
    parent: Seq<char>,
    name: Seq<char>,
)
    ensures
        text::ends_with(path, "/"@) || text::ends_with(path, ".."@) ==> workspace::parts_with(
            path,
            Some(parent),
            Some(name),
        ) == (path, Seq::<char>::empty()),
        !text::ends_with(path, "/"@) && !text::ends_with(path, ".."@) ==> workspace::parts_with(
            path,
            Some(parent),
            Some(name),
        ) == (parent, name),
{
}

/// A typed directory expands where it starts with the tilde alone, and stays as it is
/// where it does not start with one.
pub proof fn only_the_own_home_directory_expands(input: Seq<char>, home: Seq<char>)
    ensures
        input.len() > 0 && input[0] != '~' ==> workspace::expanded(input, home) == Some(input),
        input == seq!['~'] ==> workspace::expanded(input, home) == Some(home),
        input.len() > 1 && input[0] == '~' && input[1] != '/' ==> workspace::expanded(input, home)
            is None,
        input.len() > 1 && input[0] == '~' && input[1] == '/' ==> workspace::expanded(input, home)
            == Some(paths::path_from(home, input.skip(2))),
        input.len() == 0 ==> workspace::expanded(input, home) is None,
{
    reveal_strlit("~");
    reveal_strlit("~/");
    assert("~"@ =~= seq!['~']);
    if text::starts_with(input, "~/"@) {
        assert(input.subrange(0, 2)[0] == '~');
        assert(input.subrange(0, 2)[1] == '/');
    }
    if input.len() > 1 && input[0] == '~' && input[1] == '/' {
        assert(input.subrange(0, 2) =~= "~/"@);
    }
}

/// A workspace is named as wanted exactly where no workspace has that name.
pub proof fn a_workspace_name_is_free(
    result: BotResult<String>,
    label: Seq<char>,
    workspaces: Seq<Workspace>,
)
    requires
        workspace::label_chosen(result, label, workspaces),
    ensures
        result is Ok <==> forall|i: int|
            0 <= i < workspaces.len() ==> (#[trigger] workspaces[i]).label@ != label,
        result matches Ok(chosen) ==> chosen@ == label,
{
    let wanted = workspace::labelled(label);
    seqs::lemma_first_where(workspaces, wanted);
    let at = seqs::first_where(workspaces, wanted);
    if at < workspaces.len() {
        assert(wanted(workspaces[at]));
    } else {
        assert forall|i: int| 0 <= i < workspaces.len() implies (#[trigger] workspaces[i]).label@
            != label by {
            assert(!wanted(workspaces[i]));
        }
    }
}

/// A new agent can be chosen among all that are configured, under their names and by
/// their keys.
pub proof fn every_agent_can_be_launched(agents: Seq<(Seq<char>, AgentView)>, at: int)
    requires
        0 <= at < agents.len(),
    ensures
        agent::agent_options(agents).len() == agents.len(),
        agent::agent_options(agents)[at].value == agents[at].0,
        agent::agent_options(agents)[at].label == agents[at].1.display_name,
        agent::launch_inputs(agents).len() == 3,
        agent::launch_inputs(agents)[0] matches InputView::Select(id, _, _, shown) && id
            == "agent"@ && shown == agent::agent_options(agents),
        agent::launch_inputs(agents)[1] matches InputView::Text(input) && input.custom_id
            == "project"@ && input.required,
        agent::launch_inputs(agents)[2] matches InputView::Text(input) && input.custom_id
            == "prompt"@ && input.required && input.paragraph,
{
}

/// Every harness can be chosen by its label, and exactly one of them is chosen at first.
pub proof fn every_harness_can_be_chosen(kind: Harness)
    ensures
        harness::kind_options().len() == 5,
        exists|i: int|
            0 <= i < 5 && (#[trigger] harness::kind_options()[i]).value == kind.label()
                && harness::kind_options()[i].label == kind.label()
                && harness::kind_options()[i].default == (kind is Omp),
{
    let at: int = match kind {
        Harness::Omp => 0,
        Harness::ClaudeCode => 1,
        Harness::Codex => 2,
        Harness::Pi => 3,
        Harness::Opencode => 4,
    };
    assert(harness::kind_options()[at].value == kind.label());
}

/// The workspaces of a launch form are those it is given, with the forum's own selected
/// first, and the form asks for kind, workspace and prompt.
pub proof fn a_launch_form_asks_for_kind_workspace_and_prompt(
    labels: Seq<Seq<char>>,
    default: Option<Seq<char>>,
)
    ensures
        ({
            let inputs = harness::modal_inputs(labels, default);
            let shown = harness::workspace_options(labels, default);
            &&& inputs.len() == 3
            &&& inputs[0] matches InputView::Select(id, _, _, _) && id == "kind"@
            &&& inputs[1] matches InputView::Select(id, _, _, all) && id == "workspace"@ && all
                == shown
            &&& inputs[2] matches InputView::Text(input) && input.custom_id == "prompt"@
                && input.required
            &&& shown.len() == labels.len()
            &&& forall|i: int|
                0 <= i < labels.len() ==> (#[trigger] shown[i]).value == labels[i]
                    && shown[i].label == labels[i] && (shown[i].default <==> default == Some(
                    labels[i],
                ))
        }),
{
}

/// What a user left blank counts as not entered, and anything else as it was entered.
pub proof fn a_blank_value_is_not_entered(value: Option<String>)
    ensures
        value is None ==> agent::entered(value) is None,
        value matches Some(inner) ==> (agent::entered(value) is None <==> text::is_blank(inner@)),
        agent::entered(value) matches Some(given) ==> value is Some && given == value->0@,
{
}

/// An agent is shown under its display name while it is configured, else under its key.
pub proof fn an_agent_is_shown_under_its_name(
    agents: Seq<(Seq<char>, AgentView)>,
    key: Seq<char>,
    at: int,
)
    requires
        0 <= at <= agents.len(),
        at < agents.len() ==> agents[at].0 == key,
        forall|i: int| 0 <= i < at ==> (#[trigger] agents[i]).0 != key,
    ensures
        at < agents.len() ==> agent::shown_agent(agents, key) == agents[at].1.display_name,
        at == agents.len() ==> agent::shown_agent(agents, key) == key,
        config::agent_at(agents, key) == at,
{
    let wanted = config::keyed(key);
    assert forall|i: int| 0 <= i < at implies !wanted(#[trigger] agents[i]) by {
        assert(agents[i].0 != key);
    }
    seqs::lemma_first_where_is(agents, wanted, at);
}

/// An echoed turn is shown under the name that the guild knows its author by, or else
/// all of Discord, or else the account, and says where it comes from.
pub proof fn an_echo_names_its_author(
    member: Option<Seq<char>>,
    global: Option<Seq<char>>,
    name: Seq<char>,
)
    ensures
        echo::persona(member, global, name) == (if member is Some {
            member->0
        } else if global is Some {
            global->0
        } else {
            name
        }) + " (via herdr)"@,
{
}

/// Forgetting a session forgets its tool calls and its transcript and nothing of any
/// other session.
pub proof fn forgetting_a_session_keeps_the_others(
    state: ForumView,
    path: Seq<char>,
    other: Seq<char>,
    call: Seq<char>,
)
    ensures
        ({
            let after = state.forgetting(path);
            &&& !after.tools.dom().contains((path, call))
            &&& !after.stamps.dom().contains(path)
            &&& other != path ==> after.tools.get((other, call)) == state.tools.get((other, call))
                && after.stamps.get(other) == state.stamps.get(other)
            &&& after.panes == state.panes && after.resuming == state.resuming
        }),
{
}

/// A new agent starts where one runs already, else where the first stored session ran,
/// else at home, else in the temporary directory.
pub proof fn an_agent_starts_in_a_known_directory(
    live: Option<Seq<char>>,
    sessions: Seq<db::model::SessionRow>,
    home: Option<Seq<char>>,
)
    ensures
        live matches Some(cwd) ==> spawn::cwd_for(live, sessions, home) == cwd,
        live is None && sessions.len() > 0 ==> spawn::cwd_for(live, sessions, home)
            == sessions[0]@.cwd,
        live is None && sessions.len() == 0 ==> spawn::cwd_for(live, sessions, home) == if home
            is Some {
            home->0
        } else {
            "/tmp"@
        },
{
}

/// What the reducer answers tells the outcomes apart: only an update gives a projection,
/// and each kind of unreadable state its own error.
pub proof fn an_outcome_is_told_apart(result: BotResult<ProjectionOutcome>, expected: Reduced)
    requires
        render::is_reduced(result, expected),
    ensures
        result is Ok <==> expected is Ignored || expected is Updated,
        result matches Ok(ProjectionOutcome::Updated(projection)) ==> expected
            == Reduced::Updated(projection@),
        (result matches Ok(ProjectionOutcome::Ignored)) <==> expected is Ignored,
        (result matches Err(BotError::ProjectionStateNotObject)) <==> expected is NotObject,
{
}

/// A permission is asked for by the title of its operation, which cannot mention anybody
/// or break out of the text.
pub proof fn a_permission_prompt_holds_the_title(title: Option<Seq<char>>)
    ensures
        ({
            let raw = match title {
                Some(value) => value,
                None => "the requested tool call"@,
            };
            text::contains(
                permission::prompt_text(title),
                raw.filter(|c: char| c != '@' && c != '`'),
            )
        }),
{
    let raw = match title {
        Some(value) => value,
        None => "the requested tool call"@,
    };
    crate::laws::texts::taking_out_characters_keeps_the_others(raw, '@', '`');
    tools::lemma_contains(
        "🔐 **permission requested** for **"@,
        raw.filter(|c: char| c != '@' && c != '`'),
        "**"@,
    );
}

/// A form that cannot be shown is told whole, with the reason and the message of the
/// agent.
pub proof fn a_refused_form_is_told_whole(
    agent_name: Seq<char>,
    message: Seq<char>,
    schema: ElicitationSchema,
)
    ensures
        ({
            let told = elicitation::refused_form(agent_name, message, schema);
            &&& text::contains(told, message)
            &&& text::contains(told, json::json_pretty(json::json_of(schema.raw)))
            &&& schema.properties@.len() > 5 ==> text::contains(
                told,
                numbers::decimal(schema.properties@.len()),
            )
        }),
{
    let told = elicitation::refused_form(agent_name, message, schema);
    let lead = "📋 **"@ + text::without2(agent_name, '@', '`') + " needs input** — "@;
    let reason = elicitation::refusal(schema);
    let raw = json::json_pretty(json::json_of(schema.raw));
    let middle = "\ncannot present this form: "@;
    let fence = "\n```json\n"@;
    let end = "\n```"@;
    assert(text::contains(told, message)) by {
        let rest = middle + reason + fence + raw + end;
        tools::lemma_contains(lead, message, rest);
        assert(lead + message + rest =~= told);
    }
    assert(text::contains(told, raw)) by {
        let before = lead + message + middle + reason + fence;
        tools::lemma_contains(before, raw, end);
        assert(before + raw + end =~= told);
    }
    if schema.properties@.len() > 5 {
        let digits = numbers::decimal(schema.properties@.len());
        assert(text::contains(told, digits)) by {
            let before = lead + message + middle + "the form has "@;
            let rest = " fields, but Discord modals support at most 5"@ + fence + raw + end;
            tools::lemma_contains(before, digits, rest);
            assert(before + digits + rest =~= told);
        }
    }
}

/// A message of the agent is shown whole up to five hundred characters.
pub proof fn a_message_is_shown_up_to_its_limit(message: Seq<char>)
    ensures
        message.len() <= 500 ==> elicitation::shown_message(message) == message,
        message.len() > 500 ==> elicitation::shown_message(message) == message.take(499).push('…'),
{
}

/// The forum that a command is given in is chosen at first: the channel itself, or the
/// parent of a thread.
pub proof fn the_own_forum_is_preselected(
    channel: crate::forum::lookup::Channel,
    id: ChannelId,
)
    ensures
        channel is Guild ==> harness::preselected(channel, id) == Some(id),
        channel matches crate::forum::lookup::Channel::GuildThread(parent) ==> harness::preselected(
            channel,
            id,
        ) == Some(parent),
        channel is Other ==> harness::preselected(channel, id) is None,
{
}

/// A typed path is looked for in its parent directory, in the current one where it has
/// none, and the suggestions begin with what was typed of the parent.
pub proof fn a_typed_path_is_looked_for_in_its_parent(input: Seq<char>, home: Seq<char>)
    requires
        input.len() > 0,
    ensures
        input[0] != '~' ==> ({
            let (parent, name) = workspace::path_parts(input);
            workspace::query_of(input, home) matches QueryView::Search(root, prefix, basename)
                && basename == name && (if parent.len() == 0 {
                root == "."@ && prefix.len() == 0
            } else {
                root == parent && is_directory_of(prefix, parent)
            })
        }),
        input.len() > 1 && input[0] == '~' && input[1] == '/' ==> ({
            let (parent, name) = workspace::path_parts(input.skip(2));
            workspace::query_of(input, home) matches QueryView::Search(root, prefix, basename)
                && basename == name && root == paths::path_from(home, parent) && (if parent.len()
                == 0 {
                prefix == "~/"@
            } else {
                prefix.len() > 2 && prefix[0] == '~' && prefix[1] == '/' && is_directory_of(
                    prefix.skip(2),
                    parent,
                )
            })
        }),
        input == seq!['~'] ==> workspace::query_of(input, home) == QueryView::Search(
            home,
            "~/"@,
            Seq::<char>::empty(),
        ),
{
    reveal_strlit("~");
    reveal_strlit("~/");
    reveal_strlit("/");
    assert("~"@ =~= seq!['~']);
    if input.len() > 1 && input[0] == '~' && input[1] == '/' {
        assert(input.subrange(0, 2) =~= "~/"@);
        let parent = workspace::path_parts(input.skip(2)).0;
        lemma_directory(parent);
        if parent.len() > 0 {
            let slashed = workspace::slashed(parent);
            assert(("~/"@ + slashed).skip(2) =~= slashed);
        }
    } else if input[0] != '~' {
        lemma_directory(workspace::path_parts(input).0);
        if text::starts_with(input, "~/"@) {
            assert(input.subrange(0, 2)[0] == '~');
        }
    } else if text::starts_with(input, "~/"@) {
        assert(input.subrange(0, 2)[1] == '/');
    }
}

/// A path with one slash behind it, unless it ends with one.
pub open spec fn is_directory_of(prefix: Seq<char>, path: Seq<char>) -> bool {
    prefix == if path.last() == '/' {
        path
    } else {
        path.push('/')
    }
}

proof fn lemma_directory(path: Seq<char>)
    ensures
        path.len() > 0 ==> is_directory_of(workspace::slashed(path), path),
        path.len() == 0 ==> workspace::slashed(path).len() == 0,
{
    reveal_strlit("/");
    if path.len() > 0 {
        let last = path.subrange(path.len() - 1, path.len() as int);
        if path.last() == '/' {
            assert(last =~= "/"@);
        } else {
            assert(last[0] != "/"@[0]);
            assert(path + "/"@ =~= path.push('/'));
        }
    }
}

/// A taken name is refused with the identifier of a workspace that bears it.
pub proof fn a_taken_name_is_told(
    result: BotResult<String>,
    label: Seq<char>,
    workspaces: Seq<Workspace>,
)
    requires
        workspace::label_chosen(result, label, workspaces),
        result is Err,
    ensures
        exists|i: int|
            0 <= i < workspaces.len() && (#[trigger] workspaces[i]).label@ == label && told_taken(
                result,
                label,
                workspaces[i].workspace_id@,
            ),
{
    let at = seqs::first_where(workspaces, workspace::labelled(label));
    seqs::lemma_first_where(workspaces, workspace::labelled(label));
    assert(workspace::labelled(label)(workspaces[at]));
    assert(told_taken(result, label, workspaces[at].workspace_id@));
}

/// A refusal that names the label and who bears it.
pub open spec fn told_taken(result: BotResult<String>, label: Seq<char>, id: Seq<char>) -> bool {
    result matches Err(BotError::Other(message)) && message@ == "a workspace named `"@ + label
        + "` already exists (`"@ + id + "`)"@
}

/// The control command runs in the environment of a herdr session and is told the socket.
pub proof fn the_control_command_is_told_its_socket(socket: Seq<char>)
    ensures
        herdr::control_variables(socket).contains(("HERDR_ENV"@, "1"@)),
        herdr::control_variables(socket).contains(("HERDR_SOCKET_PATH"@, socket)),
        herdr::control_variables(socket).len() == 2,
{
    let all = herdr::control_variables(socket);
    assert(all[0] == ("HERDR_ENV"@, "1"@));
    assert(all[1] == ("HERDR_SOCKET_PATH"@, socket));
}

} // verus!
