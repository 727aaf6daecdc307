//! Launching an agent in a herdr workspace via a modal: an agent-harness dropdown
//! (defaulted to the configured default kind), a workspace dropdown, and a prompt
//! input.

use vstd::prelude::*;

use crate::error::{BotError, BotResult};
use crate::forum::lookup::Channel;
use crate::herdr::error::HerdrError;
use crate::ids::{ChannelId, GuildId};
use crate::modal;
use crate::modal::{InputView, Modal, ModalInput, OptionView, SelectOption, Submitted, TextView};
use crate::numbers;
use crate::seqs;
use crate::session::Harness;
use crate::text;

verus! {

/// Discord select menus accept at most this many options; further workspaces are
/// dropped.
pub const MAX_WORKSPACE_OPTIONS: usize = 25;

/// Component custom id of the harness dropdown.
pub const KIND_SELECT_ID: &'static str = "kind";

/// Component custom id of the workspace dropdown.
pub const WORKSPACE_SELECT_ID: &'static str = "workspace";

/// Component custom id of the prompt input.
pub const PROMPT_INPUT_ID: &'static str = "prompt";

/// The harness that is preselected, and launched where none is selected.
pub open spec fn default_kind() -> Harness {
    Harness::Omp
}

/// Returns the harness that is preselected.
pub fn default_agent_kind() -> (kind: Harness)
    ensures
        kind == default_kind(),
{
    Harness::Omp
}

/// Texts that are their own keys.
pub open spec fn self_keyed(values: Seq<Seq<char>>) -> Seq<(Seq<char>, Seq<char>)> {
    values.map_values(|value: Seq<char>| (value, value))
}

/// The labels offered in the workspace dropdown: sorted, and as many as fit.
pub open spec fn offered_labels(labels: Seq<Seq<char>>) -> Seq<Seq<char>> {
    seqs::at_most(
        text::sorted_keyed(self_keyed(labels)).map_values(
            |item: (Seq<char>, Seq<char>)| item.1,
        ),
        MAX_WORKSPACE_OPTIONS as nat,
    )
}

/// Sorts the workspace labels and drops those that do not fit.
pub fn workspace_labels(labels: &Vec<String>) -> (offered: Vec<String>)
    ensures
        text::texts(offered@) == offered_labels(text::texts(labels@)),
        offered@.len() <= MAX_WORKSPACE_OPTIONS,
{
    let ghost all = text::texts(labels@);
    let mut items: Vec<(String, String)> = Vec::new();
    let mut i: usize = 0;
    while i < labels.len()
        invariant
            i <= labels@.len(),
            items@.len() == i,
            forall|j: int|
                0 <= j < i ==> (#[trigger] items@[j]).0@ == labels@[j]@ && items@[j].1@
                    == labels@[j]@,
        decreases labels@.len() - i,
    {
        items.push((text::copy(labels[i].as_str()), text::copy(labels[i].as_str())));
        i += 1;
    }
    assert(text::keyed_views(items@) =~= self_keyed(all));
    let sorted = text::sort_keyed(items);
    let ghost wanted = text::sorted_keyed(self_keyed(all)).map_values(
        |item: (Seq<char>, Seq<char>)| item.1,
    );
    let mut offered: Vec<String> = Vec::new();
    let mut k: usize = 0;
    while k < sorted.len() && k < MAX_WORKSPACE_OPTIONS
        invariant
            k <= sorted@.len(),
            k <= MAX_WORKSPACE_OPTIONS,
            offered@.len() == k,
            forall|j: int| 0 <= j < k ==> (#[trigger] offered@[j])@ == sorted@[j].1@,
        decreases sorted@.len() - k,
    {
        offered.push(text::copy(sorted[k].1.as_str()));
        k += 1;
    }
    proof {
        assert(text::keyed_views(sorted@).len() == sorted@.len());
        assert forall|j: int| 0 <= j < sorted@.len() implies wanted[j] == #[trigger] sorted@[j].1@ by {
            assert(text::keyed_views(sorted@)[j] == (sorted@[j].0@, sorted@[j].1@));
        }
        assert(text::texts(offered@) =~= seqs::at_most(wanted, MAX_WORKSPACE_OPTIONS as nat));
    }
    offered
}

/// Decides what the workspace dropdown offers; without a workspace there is
/// nothing to launch into.
pub fn launchable(labels: &Vec<String>) -> (result: Result<Vec<String>, &'static str>)
    ensures
        match result {
            Ok(offered) => labels@.len() > 0 && text::texts(offered@) == offered_labels(
                text::texts(labels@),
            ),
            Err(reply) => labels@.len() == 0 && reply@
                == "there are no herdr workspaces to launch into."@,
        },
{
    if labels.len() == 0 {
        return Err("there are no herdr workspaces to launch into.");
    }
    Ok(workspace_labels(labels))
}

/// Makes the error for workspaces that could not be listed.
pub fn herdr_unreachable(error: &HerdrError) -> (shown: BotError)
    ensures
        error.is_told("couldn't reach herdr: "@, shown),
{
    error.tell("couldn't reach herdr: ")
}

/// The channel whose workspace is preselected when the command runs in `channel`:
/// a guild channel itself, a thread's parent.
pub open spec fn preselected(channel: Channel, id: ChannelId) -> Option<ChannelId> {
    match channel {
        Channel::Guild(_) => Some(id),
        Channel::GuildThread(parent) => Some(parent),
        Channel::Other => None,
    }
}

/// Finds the stored id of the forum whose workspace is preselected when the
/// command runs in the channel `id`.
pub fn preselected_forum(channel: Channel, id: ChannelId) -> (result: BotResult<Option<i64>>)
    ensures
        match (result, preselected(channel, id)) {
            (Ok(None), None) => true,
            (Ok(Some(stored)), Some(forum)) => stored == forum.0,
            (Err(error), Some(forum)) => forum.0 > i64::MAX && error.is_other(
                "channel id overflows i64"@,
            ),
            _ => false,
        },
{
    let forum = match channel {
        Channel::Guild(_) => id,
        Channel::GuildThread(parent) => parent,
        Channel::Other => {
            return Ok(None);
        },
    };
    if forum.0 > i64::MAX as u64 {
        return Err(BotError::Other(text::copy("channel id overflows i64")));
    }
    Ok(Some(forum.0 as i64))
}

/// The options of the harness dropdown.
pub open spec fn kind_options() -> Seq<OptionView> {
    Harness::every().map_values(
        |kind: Harness|
            OptionView {
                label: kind.label(),
                value: kind.label(),
                default: kind == default_kind(),
            },
    )
}

/// The options of the workspace dropdown.
pub open spec fn workspace_options(labels: Seq<Seq<char>>, default: Option<Seq<char>>) -> Seq<
    OptionView,
> {
    labels.map_values(
        |label: Seq<char>|
            OptionView { label, value: label, default: default == Some(label) },
    )
}

/// The components of the agent modal.
pub open spec fn modal_inputs(labels: Seq<Seq<char>>, default: Option<Seq<char>>) -> Seq<
    InputView,
> {
    seq![
        InputView::Select(KIND_SELECT_ID@, "agent harness"@, None, kind_options()),
        InputView::Select(
            WORKSPACE_SELECT_ID@,
            "workspace"@,
            None,
            workspace_options(labels, default),
        ),
        InputView::Text(
            TextView {
                custom_id: PROMPT_INPUT_ID@,
                label: "prompt"@,
                placeholder: Some("what should the agent do?"@),
                value: None,
                paragraph: true,
                max_length: None,
                required: true,
            },
        ),
    ]
}

/// The agent modal: the harness dropdown (the configured default kind
/// preselected), the workspace dropdown (preselected when the command ran in a
/// managed forum), and the prompt input.
pub fn build_agent_modal(
    custom_id: &str,
    labels: &Vec<String>,
    default_workspace: Option<&str>,
) -> (built: Modal)
    ensures
        built.custom_id@ == custom_id@,
        built.title@ == "launch an agent"@,
        modal::input_views(built.components@) == modal_inputs(
            text::texts(labels@),
            text::opt_str(default_workspace),
        ),
{
    let ghost all = text::texts(labels@);
    let kinds = Harness::all();
    let mut kind_menu: Vec<SelectOption> = Vec::new();
    let mut i: usize = 0;
    while i < kinds.len()
        invariant
            i <= kinds@.len(),
            kinds@ == Harness::every(),
            kind_menu@.len() == i,
            forall|j: int|
                0 <= j < i ==> (#[trigger] kind_menu@[j])@ == (OptionView {
                    label: kinds@[j].label(),
                    value: kinds@[j].label(),
                    default: kinds@[j] == default_kind(),
                }),
        decreases kinds@.len() - i,
    {
        let kind = kinds[i];
        kind_menu.push(
            SelectOption {
                label: kind.to_label(),
                value: kind.to_label(),
                default: kind == default_agent_kind(),
            },
        );
        i += 1;
    }
    assert(modal::option_views(kind_menu@) =~= kind_options());
    let mut workspace_menu: Vec<SelectOption> = Vec::new();
    let mut k: usize = 0;
    while k < labels.len()
        invariant
            k <= labels@.len(),
            all == text::texts(labels@),
            workspace_menu@.len() == k,
            forall|j: int|
                0 <= j < k ==> (#[trigger] workspace_menu@[j])@ == (OptionView {
                    label: all[j],
                    value: all[j],
                    default: text::opt_str(default_workspace) == Some(all[j]),
                }),
        decreases labels@.len() - k,
    {
        let label = labels[k].as_str();
        assert(all[k as int] == label@);
        let default = match default_workspace {
            Some(wanted) => text::same(wanted, label),
            None => false,
        };
        workspace_menu.push(
            SelectOption { label: text::copy(label), value: text::copy(label), default },
        );
        k += 1;
    }
    assert(modal::option_views(workspace_menu@) =~= workspace_options(
        all,
        text::opt_str(default_workspace),
    ));
    let mut components: Vec<ModalInput> = Vec::new();
    components.push(
        ModalInput::Select {
            custom_id: text::copy(KIND_SELECT_ID),
            label: text::copy("agent harness"),
            placeholder: None,
            options: kind_menu,
        },
    );
    components.push(
        ModalInput::Select {
            custom_id: text::copy(WORKSPACE_SELECT_ID),
            label: text::copy("workspace"),
            placeholder: None,
            options: workspace_menu,
        },
    );
    components.push(
        ModalInput::Text {
            custom_id: text::copy(PROMPT_INPUT_ID),
            label: text::copy("prompt"),
            placeholder: Some(text::copy("what should the agent do?")),
            value: None,
            paragraph: true,
            max_length: None,
            required: true,
        },
    );
    assert(modal::input_views(components@) =~= modal_inputs(
        all,
        text::opt_str(default_workspace),
    ));
    Modal {
        custom_id: text::copy(custom_id),
        title: text::copy("launch an agent"),
        components,
    }
}

/// The `/agent` modal's submitted values.
#[derive(Debug, PartialEq, Eq)]
pub struct AgentSelection {
    /// The selected harness, when the dropdown value parsed.
    pub kind: Option<Harness>,
    /// The selected workspace label.
    pub workspace: Option<String>,
    /// The prompt text.
    pub prompt: Option<String>,
}

/// Extracts the kind, workspace, and prompt from a submitted modal.
pub fn parse_agent_modal(components: &Vec<Submitted>) -> (selection: AgentSelection)
    ensures
        match selection.kind {
            Some(kind) => modal::submitted(components@, true, KIND_SELECT_ID@) == Some(
                kind.label(),
            ),
            None => forall|any: Harness|
                modal::submitted(components@, true, KIND_SELECT_ID@) != Some(
                    #[trigger] any.label(),
                ),
        },
        text::opt_text(selection.workspace) == modal::submitted(
            components@,
            true,
            WORKSPACE_SELECT_ID@,
        ),
        text::opt_text(selection.prompt) == modal::submitted(components@, false, PROMPT_INPUT_ID@),
{
    let kind = match modal::read_submitted(components, true, KIND_SELECT_ID) {
        Some(label) => Harness::parse(label.as_str()),
        None => None,
    };
    AgentSelection {
        kind,
        workspace: modal::read_submitted(components, true, WORKSPACE_SELECT_ID),
        prompt: modal::read_submitted(components, false, PROMPT_INPUT_ID),
    }
}

/// What a submitted modal leads to.
pub enum LaunchStep {
    /// Answer at once.
    Reply(&'static str),
    /// Launch an agent.
    Launch {
        /// Harness to launch.
        kind: Harness,
        /// Label of the workspace to launch into.
        workspace: String,
        /// Prompt for the agent.
        prompt: String,
    },
}

/// Checks a submitted modal: a workspace has to be selected and the prompt must
/// not be blank.
pub fn agent(selection: AgentSelection) -> (step: LaunchStep)
    ensures
        match (selection.workspace, selection.prompt) {
            (None, _) => step matches LaunchStep::Reply(shown) && shown@
                == "no workspace selected."@,
            (Some(_), None) => step matches LaunchStep::Reply(shown) && shown@
                == "the prompt is empty."@,
            (Some(label), Some(entered)) => if text::is_blank(entered@) {
                step matches LaunchStep::Reply(shown) && shown@ == "the prompt is empty."@
            } else {
                step == (LaunchStep::Launch {
                    kind: match selection.kind {
                        Some(kind) => kind,
                        None => default_kind(),
                    },
                    workspace: label,
                    prompt: entered,
                })
            },
        },
{
    let workspace = match selection.workspace {
        Some(label) => label,
        None => {
            return LaunchStep::Reply("no workspace selected.");
        },
    };
    let prompt = match selection.prompt {
        Some(entered) => entered,
        None => {
            return LaunchStep::Reply("the prompt is empty.");
        },
    };
    if text::blank(prompt.as_str()) {
        return LaunchStep::Reply("the prompt is empty.");
    }
    let kind = match selection.kind {
        Some(kind) => kind,
        None => default_agent_kind(),
    };
    LaunchStep::Launch { kind, workspace, prompt }
}

/// Makes the link to a thread.
pub fn thread_link(guild: GuildId, post: i64) -> (link: String)
    ensures
        link@ == "https://discord.com/channels/"@ + numbers::decimal(guild.0 as nat) + "/"@
            + numbers::signed_decimal(post as int),
{
    text::join4(
        "https://discord.com/channels/",
        numbers::format_u64(guild.0).as_str(),
        "/",
        numbers::format_i64(post).as_str(),
    )
}

/// Tells what launching an agent came to.
pub fn launch_report(kind: Harness, workspace: &str, outcome: Result<&str, &str>) -> (report:
    String)
    ensures
        report@ == match outcome {
            Ok(link) => "launched a **"@ + kind.label() + "** agent in workspace `"@ + workspace@
                + "` — "@ + link@,
            Err(error) => "couldn't launch the agent: "@ + error@,
        },
{
    match outcome {
        Ok(link) => {
            let head = text::join4(
                "launched a **",
                kind.to_label().as_str(),
                "** agent in workspace `",
                workspace,
            );
            text::join3(head.as_str(), "` — ", link)
        },
        Err(error) => text::join2("couldn't launch the agent: ", error),
    }
}

/// Checks what is found for a launch: the workspace has to exist and the session
/// has to have a post.
pub fn launch_from_modal(workspace: &str, found: bool, post: Option<i64>) -> (result: BotResult<i64>)
    ensures
        match result {
            Ok(id) => found && post == Some(id),
            Err(error) => error matches BotError::Other(shown) && shown@ == if !found {
                "workspace `"@ + workspace@ + "` no longer exists"@
            } else {
                "session has no forum post yet"@
            } && (!found || post is None),
        },
{
    if !found {
        return Err(
            BotError::Other(text::join3("workspace `", workspace, "` no longer exists")),
        );
    }
    match post {
        Some(id) => Ok(id),
        None => Err(BotError::Other(text::copy("session has no forum post yet"))),
    }
}

} // verus!
