//! Commands for creating, importing and steering sessions.

use vstd::prelude::*;

use crate::commands::model;
use crate::config::{AgentKey, Agents};
use crate::error::{BotError, BotResult};
use crate::ids;
use crate::ids::{GenericChannelId, UserId};
use crate::numbers;
use crate::paths;
use crate::text;

verus! {

/// Restricts commands to the configured Discord user.
pub fn allowed(author: UserId, allowed_user: UserId) -> (result: bool)
    ensures
        result == (author == allowed_user),
{
    author == allowed_user
}

/// The reply to a user who may not use the commands.
pub const NOT_ALLOWED: &'static str = "you're not allowed to use this bot";

/// Resolves a fixed agent-choice index against the immutable configuration.
pub fn agent_key_at(agents: &Agents, index: usize) -> (result: BotResult<AgentKey>)
    ensures
        match result {
            Ok(key) => index < agents@.len() && key@ == agents@[index as int].0,
            Err(error) => index >= agents@.len() && (error matches BotError::UnknownAgent { key }
                && key@ == "choice "@ + numbers::decimal(index as nat)),
        },
{
    match agents.key_at(index) {
        Some(key) => Ok(key.copy()),
        None => Err(
            BotError::UnknownAgent {
                key: text::join2("choice ", numbers::format_usize(index).as_str()),
            },
        ),
    }
}

/// Reads the selected agent from the value of the `agent` argument, `None` where
/// the argument is missing or no integer.
pub fn agent_argument(agents: &Agents, value: Option<i64>) -> (key: Option<AgentKey>)
    ensures
        match (key, value) {
            (Some(found), Some(index)) => 0 <= index < agents@.len() && found@
                == agents@[index as int].0,
            (None, Some(index)) => !(0 <= index < agents@.len()),
            (None, None) => true,
            (Some(_), None) => false,
        },
{
    match value {
        Some(index) => {
            if index < 0 || index as u64 >= agents.len() as u64 {
                return None;
            }
            match agents.key_at(index as usize) {
                Some(key) => Some(key.copy()),
                None => None,
            }
        },
        None => None,
    }
}

/// What was found at a project path.
pub enum ProjectLookup {
    /// The path could not be canonicalized.
    Failed(String),
    /// The path is canonically this one.
    Found {
        /// Canonical path.
        path: String,
        /// Whether a directory is there.
        is_directory: bool,
    },
}

/// Resolves a user-supplied project path that was expanded: it has to be an
/// existing directory.
pub fn resolve_project_path(expanded: &str, lookup: ProjectLookup) -> (result: BotResult<String>)
    ensures
        match lookup {
            ProjectLookup::Failed(reason) => result matches Err(
                BotError::ProjectPathResolution { path, description, cause },
            ) && path@ == expanded@ && description@ == "project directory"@ && cause@ == reason@,
            ProjectLookup::Found { path, is_directory } => if is_directory {
                result == Ok::<String, BotError>(path)
            } else {
                result == Err::<String, BotError>(BotError::ProjectNotDirectory { path })
            },
        },
{
    match lookup {
        ProjectLookup::Failed(cause) => Err(
            BotError::ProjectPathResolution {
                path: text::copy(expanded),
                description: text::copy("project directory"),
                cause,
            },
        ),
        ProjectLookup::Found { path, is_directory } => if is_directory {
            Ok(path)
        } else {
            Err(BotError::ProjectNotDirectory { path })
        },
    }
}

/// Expands a project path as it was typed: without surrounding white space and
/// with a leading `~` replaced.
pub fn typed_project_path(input: &str, home: &Option<String>) -> (result: BotResult<String>)
    ensures
        match (result, paths::expanded_home(text::trimmed(input@), text::opt_text(*home))) {
            (Ok(path), Some(expanded)) => path@ == expanded,
            (Err(error), None) => error is HomeDirectoryUnavailable,
            _ => false,
        },
{
    let typed = text::trim(input);
    match paths::expand_home_in(typed.as_str(), home) {
        Some(path) => Ok(path),
        None => Err(BotError::HomeDirectoryUnavailable),
    }
}

/// Tells that something was done to a thread.
pub fn thread_reply(verb: &str, thread: GenericChannelId) -> (reply: String)
    ensures
        reply@ == verb@ + " "@ + ids::mention_of(thread),
{
    text::join3(verb, " ", thread.mention().as_str())
}

/// Tells that a model was selected.
pub fn model_reply(canonical: &str) -> (reply: String)
    ensures
        reply@ == "model `"@ + canonical@ + "` selected"@,
{
    text::join3("model `", canonical, "` selected")
}

/// Tells that a session mode was set, by its label where the agent advertises one.
pub fn mode_reply(label: Option<&str>, mode: &str) -> (reply: String)
    ensures
        reply@ == "mode set to **"@ + match label {
            Some(label) => label@,
            None => mode@,
        } + "**"@,
{
    let shown = match label {
        Some(label) => label,
        None => mode,
    };
    text::join3("mode set to **", shown, "**")
}

/// Tells why an operation failed.
pub fn failure_reply(what: &str, error: &str) -> (reply: String)
    ensures
        reply@ == what@ + ": "@ + error@,
{
    text::join3(what, ": ", error)
}

/// Shows the first message of a thread.
pub fn starter_reply(first: Option<&str>) -> (reply: String)
    ensures
        reply@ == match first {
            Some(content) => content@,
            None => "this thread has no messages"@,
        },
{
    match first {
        Some(content) => text::copy(content),
        None => text::copy("this thread has no messages"),
    }
}

/// A text without the slashes that it starts with.
pub open spec fn without_slashes(s: Seq<char>) -> Seq<char>
    decreases s.len(),
{
    if s.len() > 0 && s[0] == '/' {
        without_slashes(s.drop_first())
    } else {
        s
    }
}

fn strip_slashes(value: &str) -> (result: String)
    ensures
        result@ == without_slashes(value@),
{
    let chars = text::chars_of(value);
    let mut from: usize = 0;
    assert(value@.skip(0) =~= value@);
    while from < chars.len() && chars[from] == '/'
        invariant
            chars@ == value@,
            from <= chars@.len(),
            without_slashes(value@) == without_slashes(value@.skip(from as int)),
        decreases chars@.len() - from,
    {
        assert(value@.skip(from as int).drop_first() =~= value@.skip(from + 1));
        from += 1;
    }
    let result = text::string_of(&chars, from, chars.len());
    assert(result@ =~= value@.skip(from as int));
    result
}

/// The prompt that runs an agent's slash command.
pub open spec fn command_prompt(name: Seq<char>, input: Option<Seq<char>>) -> Seq<char> {
    match input {
        Some(value) if !text::is_blank(value) => "/"@ + name + " "@ + text::trimmed(value),
        _ => "/"@ + name,
    }
}

/// Makes the prompt that runs one of the agent's advertised slash commands. The
/// name may be typed with or without its slash.
pub fn command(cmd: &str, input: Option<&str>) -> (result: BotResult<String>)
    ensures
        ({
            let name = without_slashes(text::trimmed(cmd@));
            match result {
                Ok(prompt) => name.len() > 0 && prompt@ == command_prompt(
                    name,
                    text::opt_str(input),
                ),
                Err(error) => name.len() == 0 && (error matches BotError::Other(shown) && shown@
                    == "the command name is empty"@),
            }
        }),
{
    let typed = text::trim(cmd);
    let name = strip_slashes(typed.as_str());
    if name.as_str().is_empty() {
        return Err(BotError::Other(text::copy("the command name is empty")));
    }
    if let Some(value) = input {
        if !text::blank(value) {
            return Ok(
                text::join4("/", name.as_str(), " ", text::trim(value).as_str()),
            );
        }
    }
    Ok(text::join2("/", name.as_str()))
}

/// Tells that a prompt was queued.
pub fn queued_reply(prompt: &str) -> (reply: String)
    ensures
        reply@ == "queued **"@ + prompt@ + "**"@,
{
    text::join3("queued **", prompt, "**")
}

/// Resolves a mode by either its protocol id or display name. The modes are
/// given as their ids and names, where the agent advertised any.
pub fn resolve_mode(modes: Option<&Vec<(String, String)>>, mode: &str) -> (result: BotResult<String>)
    ensures
        match modes {
            None => result matches Err(BotError::Other(shown)) && shown@
                == "the agent has not advertised any session modes"@,
            Some(available) => {
                let all = text::keyed_views(available@);
                let typed = text::trimmed(mode@);
                let at = model::meant(all, typed, typed);
                if at < all.len() {
                    result matches Ok(id) && id@ == all[at].0
                } else {
                    result matches Err(BotError::Other(shown)) && shown@ == "unknown mode `"@
                        + mode@ + "`"@
                }
            },
        },
{
    match modes {
        None => Err(
            BotError::Other(text::copy("the agent has not advertised any session modes")),
        ),
        Some(available) => {
            let typed = text::trim(mode);
            assert(text::keyed_views(available@).len() == available@.len());
            match model::find_meant(available, typed.as_str(), typed.as_str()) {
                Some(at) => {
                    assert(text::keyed_views(available@)[at as int].0 == available@[at as int].0@);
                    Ok(text::copy(available[at].0.as_str()))
                },
                None => Err(BotError::Other(text::join3("unknown mode `", mode, "`"))),
            }
        },
    }
}

/// Decides whether a gateway message may be a user prompt: it is not blank and
/// comes from the allowed user, who is not the bot itself.
pub fn handle_message(author: UserId, allowed_user: UserId, own: UserId, content: &str) -> (prompt:
    bool)
    ensures
        prompt == (author == allowed_user && author != own && !text::is_blank(content@)),
{
    author == allowed_user && author != own && !text::blank(content)
}

} // verus!
