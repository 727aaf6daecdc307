//! Creating a session via a modal: an agent selector, a project directory and an
//! initial prompt.

use vstd::prelude::*;

use crate::config;
use crate::config::{AgentKey, AgentView, Agents};
use crate::ids::{GenericChannelId, GuildId};
use crate::modal;
use crate::modal::{InputView, Modal, ModalInput, OptionView, SelectOption, Submitted, TextView};
use crate::numbers;
use crate::text;

verus! {

/// Custom id for the agent selector in the launch modal.
pub const AGENT_SELECT_ID: &'static str = "agent";

/// Custom id for the project directory input in the launch modal.
pub const PROJECT_INPUT_ID: &'static str = "project";

/// Custom id for the initial prompt input in the launch modal.
pub const PROMPT_INPUT_ID: &'static str = "prompt";

/// Most characters that an input of the launch modal takes.
pub const INPUT_LIMIT: u16 = 4000;

/// The options of the agent selector.
pub open spec fn agent_options(agents: Seq<(Seq<char>, AgentView)>) -> Seq<OptionView> {
    agents.map_values(
        |agent: (Seq<char>, AgentView)|
            OptionView { label: agent.1.display_name, value: agent.0, default: false },
    )
}

/// The components of the launch modal.
pub open spec fn launch_inputs(agents: Seq<(Seq<char>, AgentView)>) -> Seq<InputView> {
    seq![
        InputView::Select(
            AGENT_SELECT_ID@,
            "Agent"@,
            Some("Choose an agent"@),
            agent_options(agents),
        ),
        InputView::Text(
            TextView {
                custom_id: PROJECT_INPUT_ID@,
                label: "Project directory"@,
                placeholder: Some("~/Projects/my-project"@),
                value: None,
                paragraph: false,
                max_length: Some(INPUT_LIMIT),
                required: true,
            },
        ),
        InputView::Text(
            TextView {
                custom_id: PROMPT_INPUT_ID@,
                label: "Initial prompt"@,
                placeholder: Some("What should the agent do?"@),
                value: None,
                paragraph: true,
                max_length: Some(INPUT_LIMIT),
                required: true,
            },
        ),
    ]
}

/// Builds the launch modal from the configured agents.
pub fn build_agent_modal(agents: &Agents, custom_id: &str) -> (built: Modal)
    ensures
        built.custom_id@ == custom_id@,
        built.title@ == "Create an Agentcord session"@,
        modal::input_views(built.components@) == launch_inputs(agents@),
{
    let ghost all = agents@;
    let mut options: Vec<SelectOption> = Vec::new();
    let mut i: usize = 0;
    while i < agents.len()
        invariant
            i <= all.len(),
            all == agents@,
            options@.len() == i,
            forall|j: int|
                0 <= j < i ==> (#[trigger] options@[j])@ == (OptionView {
                    label: all[j].1.display_name,
                    value: all[j].0,
                    default: false,
                }),
        decreases all.len() - i,
    {
        if let (Some(key), Some(agent)) = (agents.key_at(i), agents.agent_at(i)) {
            options.push(
                SelectOption {
                    label: text::copy(agent.display_name.as_str()),
                    value: text::copy(key.as_str()),
                    default: false,
                },
            );
        }
        i += 1;
    }
    assert(modal::option_views(options@) =~= agent_options(all));
    let mut components: Vec<ModalInput> = Vec::new();
    components.push(
        ModalInput::Select {
            custom_id: text::copy(AGENT_SELECT_ID),
            label: text::copy("Agent"),
            placeholder: Some(text::copy("Choose an agent")),
            options,
        },
    );
    components.push(
        ModalInput::Text {
            custom_id: text::copy(PROJECT_INPUT_ID),
            label: text::copy("Project directory"),
            placeholder: Some(text::copy("~/Projects/my-project")),
            value: None,
            paragraph: false,
            max_length: Some(INPUT_LIMIT),
            required: true,
        },
    );
    components.push(
        ModalInput::Text {
            custom_id: text::copy(PROMPT_INPUT_ID),
            label: text::copy("Initial prompt"),
            placeholder: Some(text::copy("What should the agent do?")),
            value: None,
            paragraph: true,
            max_length: Some(INPUT_LIMIT),
            required: true,
        },
    );
    assert(modal::input_views(components@) =~= launch_inputs(all));
    Modal {
        custom_id: text::copy(custom_id),
        title: text::copy("Create an Agentcord session"),
        components,
    }
}

/// Values submitted by the launch modal.
#[derive(Debug)]
pub struct AgentModalValues {
    /// Selected configured agent key.
    pub agent: Option<String>,
    /// User-supplied project directory.
    pub project: Option<String>,
    /// Initial prompt sent to the new session.
    pub prompt: Option<String>,
}

/// Extracts the launch values from a submitted modal interaction.
pub fn parse_agent_modal(components: &Vec<Submitted>) -> (values: AgentModalValues)
    ensures
        text::opt_text(values.agent) == modal::submitted(components@, true, AGENT_SELECT_ID@),
        text::opt_text(values.project) == modal::submitted(components@, false, PROJECT_INPUT_ID@),
        text::opt_text(values.prompt) == modal::submitted(components@, false, PROMPT_INPUT_ID@),
{
    AgentModalValues {
        agent: modal::read_submitted(components, true, AGENT_SELECT_ID),
        project: modal::read_submitted(components, false, PROJECT_INPUT_ID),
        prompt: modal::read_submitted(components, false, PROMPT_INPUT_ID),
    }
}

/// A value that was entered: `None` where it is missing or blank.
pub open spec fn entered(value: Option<String>) -> Option<Seq<char>> {
    match value {
        Some(inner) if !text::is_blank(inner@) => Some(inner@),
        _ => None,
    }
}

fn read_entered(value: &Option<String>) -> (result: Option<&str>)
    ensures
        text::opt_str(result) == entered(*value),
{
    match value {
        Some(inner) => if text::blank(inner.as_str()) {
            None
        } else {
            Some(inner.as_str())
        },
        None => None,
    }
}

/// What submitted launch values lead to.
pub enum AgentStep {
    /// Answer at once.
    Reply(&'static str),
    /// Resolve the project directory.
    Resolve {
        /// Agent of the session.
        agent_key: AgentKey,
        /// Entered project directory.
        project: String,
    },
}

/// Checks the agent and the project directory of submitted launch values.
pub fn agent(values: &AgentModalValues, agents: &Agents) -> (step: AgentStep)
    ensures
        match (entered(values.agent), entered(values.project)) {
            (None, _) => step matches AgentStep::Reply(shown) && shown@ == "choose an agent"@,
            (Some(key), project) => if config::agent_at(agents@, text::trimmed(key))
                == agents@.len() {
                step matches AgentStep::Reply(shown) && shown@
                    == "that agent is no longer configured"@
            } else {
                match project {
                    None => step matches AgentStep::Reply(shown) && shown@
                        == "the project directory is empty"@,
                    Some(directory) => step matches AgentStep::Resolve { agent_key, project }
                        && agent_key@ == text::trimmed(key) && project@ == text::trimmed(
                        directory,
                    ),
                }
            },
        },
{
    let key = match read_entered(&values.agent) {
        Some(key) => text::trim(key),
        None => {
            return AgentStep::Reply("choose an agent");
        },
    };
    if agents.get(key.as_str()).is_none() {
        return AgentStep::Reply("that agent is no longer configured");
    }
    match read_entered(&values.project) {
        Some(directory) => AgentStep::Resolve {
            agent_key: AgentKey::new(key.as_str()),
            project: text::trim(directory),
        },
        None => AgentStep::Reply("the project directory is empty"),
    }
}

/// Checks the prompt of submitted launch values, once the project directory is
/// resolved.
pub fn launch_prompt(values: &AgentModalValues) -> (result: Result<String, &'static str>)
    ensures
        match (result, entered(values.prompt)) {
            (Ok(prompt), Some(value)) => prompt@ == value,
            (Err(shown), None) => shown@ == "the prompt is empty"@,
            _ => false,
        },
{
    match read_entered(&values.prompt) {
        Some(prompt) => Ok(text::copy(prompt)),
        None => Err("the prompt is empty"),
    }
}

/// The name of an agent: its display name, or its key where it is not
/// configured.
pub open spec fn shown_agent(agents: Seq<(Seq<char>, AgentView)>, key: Seq<char>) -> Seq<char> {
    let at = config::agent_at(agents, key);
    if at < agents.len() {
        agents[at].1.display_name
    } else {
        key
    }
}

/// Tells that a session was created or imported, with a link to its thread.
pub fn bound_reply(
    verb: &str,
    agents: &Agents,
    key: &AgentKey,
    guild: GuildId,
    thread: GenericChannelId,
) -> (reply: String)
    ensures
        reply@ == verb@ + " **"@ + shown_agent(agents@, key@)
            + "** — https://discord.com/channels/"@ + numbers::decimal(guild.0 as nat) + "/"@
            + numbers::decimal(thread.0 as nat),
{
    let name = match agents.get(key.as_str()) {
        Some(agent) => text::copy(agent.display_name.as_str()),
        None => text::copy(key.as_str()),
    };
    let head = text::join4(verb, " **", name.as_str(), "** — https://discord.com/channels/");
    text::join4(
        head.as_str(),
        numbers::format_u64(guild.0).as_str(),
        "/",
        numbers::format_u64(thread.0).as_str(),
    )
}

} // verus!
