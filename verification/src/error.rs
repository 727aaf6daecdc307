//! Error types shared by Agentcord's boundaries.

use vstd::prelude::*;

use crate::ids;
use crate::ids::GenericChannelId;
use crate::numbers;
use crate::numbers::ParseIntError;
use crate::text;

verus! {

/// Errors returned when parsing a `model[:reasoning]` selector.
#[derive(Debug, Eq, PartialEq)]
pub enum ModelSpecError {
    /// The selector contains more than one reasoning separator.
    ExtraSeparator {
        /// User-supplied selector.
        input: String,
    },
    /// One selector component is empty.
    EmptyPart {
        /// User-supplied selector.
        input: String,
    },
    /// A selector component contains whitespace.
    Whitespace {
        /// User-supplied selector.
        input: String,
    },
}

impl ModelSpecError {
    /// The text shown for the error.
    pub open spec fn text(self) -> Seq<char> {
        match self {
            ModelSpecError::ExtraSeparator { .. } => "expected at most one reasoning separator"@,
            ModelSpecError::EmptyPart { .. } => "model and reasoning must not be empty"@,
            ModelSpecError::Whitespace {
                ..
            } => "provider, model, and reasoning cannot contain whitespace"@,
        }
    }

    /// Returns the text shown for the error.
    pub fn message(&self) -> (message: String)
        ensures
            message@ == self.text(),
    {
        match self {
            ModelSpecError::ExtraSeparator { .. } => text::copy(
                "expected at most one reasoning separator",
            ),
            ModelSpecError::EmptyPart { .. } => text::copy("model and reasoning must not be empty"),
            ModelSpecError::Whitespace { .. } => text::copy(
                "provider, model, and reasoning cannot contain whitespace",
            ),
        }
    }
}

/// Result type used by Agentcord operations.
pub type BotResult<T = ()> = Result<T, BotError>;

/// Errors produced while constructing and using Agentcord.
#[derive(Debug)]
pub enum BotError {
    /// The configuration cannot be represented on Discord.
    Config(String),
    /// A request cannot be carried out as it was made.
    InvalidRequest(String),
    /// An operation failed for the given reason.
    Other(String),
    /// An agent does not have a corresponding forum tag.
    MissingForumTag {
        /// Configured agent key.
        agent_key: String,
    },
    /// The configured Discord channel is not a forum.
    ForumChannelRequired {
        /// Configured channel identifier.
        channel: String,
    },
    /// A forum channel does not exist.
    ForumChannelNotFound,
    /// A project path stored in the database is relative.
    RelativeProjectPath {
        /// Invalid project path.
        path: String,
    },
    /// A persisted Discord snowflake is malformed.
    InvalidStoredDiscordId {
        /// Stored textual snowflake.
        value: String,
        /// Underlying integer parser error.
        source: ParseIntError,
    },
    /// A projection contains more messages than can be indexed.
    ProjectionTooLarge,
    /// A project path could not be canonicalized.
    ProjectPathResolution {
        /// Path supplied by the user.
        path: String,
        /// Human-readable path kind.
        description: String,
        /// Text of the underlying filesystem error.
        cause: String,
    },
    /// A resolved project path is not a directory.
    ProjectNotDirectory {
        /// Resolved path.
        path: String,
    },
    /// The current user's home directory could not be found.
    HomeDirectoryUnavailable,
    /// A model selector could not be parsed.
    Model(ModelSpecError),
    /// A configured agent key was not found.
    UnknownAgent {
        /// Missing configured agent key.
        key: String,
    },
    /// A command targeted a channel that is not an Agentcord session.
    NotSession {
        /// Discord thread supplied by the command or message handler.
        thread: GenericChannelId,
    },
    /// A session identifier was omitted or empty.
    EmptySessionId,
    /// A session is already bound to a live Discord thread.
    AlreadyImported {
        /// Existing Discord thread.
        thread: GenericChannelId,
    },
    /// An imported agent session reported a relative project path.
    NonAbsoluteProjectPath {
        /// Project path reported by the agent.
        path: String,
    },
    /// An ACP agent did not return the requested external session.
    SessionNotFound {
        /// Requested ACP session identifier.
        session_id: String,
    },
    /// The ACP subprocess or protocol connection failed.
    AcpProtocol(String),
    /// The bounded ACP command queue cannot accept another prompt or command.
    AcpQueueFull,
    /// The ACP session actor exited before accepting a command.
    AcpActorExited,
    /// The existing actor did not stop within the configured startup timeout.
    AcpActorStopTimedOut,
    /// The ACP model-selection request did not complete in time.
    AcpModelSelectionTimedOut,
    /// The ACP session did not reload in time.
    AcpReloadTimedOut,
    /// Discord has not delivered its first ready event.
    DiscordNotReady,
    /// Renderer JSON state could not be decoded.
    ProjectionDeserialize {
        /// State kind being decoded.
        context: &'static str,
        /// Underlying JSON error.
        source: serde_json::Error,
    },
    /// Renderer state could not be encoded.
    ProjectionSerialize {
        /// State kind being encoded.
        context: &'static str,
        /// Underlying JSON error.
        source: serde_json::Error,
    },
    /// Renderer state was valid JSON but not an object.
    ProjectionStateNotObject,
}

/// The `Display` text of a `serde_json::Error`. Nothing is said of it: what it
/// describes is not visible in the error.
#[verifier::external_body]
pub(crate) fn json_error_text(error: &serde_json::Error) -> (message: String) {
    error.to_string()
}

impl BotError {
    /// The text shown for the error, up to the text of an underlying JSON error.
    pub open spec fn text(self) -> Seq<char> {
        match self {
            BotError::Config(message) => message@,
            BotError::InvalidRequest(message) => message@,
            BotError::Other(message) => message@,
            BotError::MissingForumTag { agent_key } => "missing forum tag for `"@ + agent_key@
                + "`"@,
            BotError::ForumChannelRequired { channel } => "discord channel `"@ + channel@
                + "` is not a forum"@,
            BotError::ForumChannelNotFound => "forum channel not found"@,
            BotError::RelativeProjectPath { path } => "acp project path `"@ + path@
                + "` must be absolute"@,
            BotError::InvalidStoredDiscordId { value, source } => "invalid stored discord id `"@
                + value@ + "`: "@ + source.text(),
            BotError::ProjectionTooLarge => "render projection contains too many messages"@,
            BotError::ProjectPathResolution { path, description, cause } => "could not resolve "@
                + description@ + " `"@ + path@ + "`: "@ + cause@,
            BotError::ProjectNotDirectory { path } => "project path `"@ + path@
                + "` is not a directory"@,
            BotError::HomeDirectoryUnavailable => "could not determine home directory"@,
            BotError::Model(error) => error.text(),
            BotError::UnknownAgent { key } => "unknown agent `"@ + key@ + "`"@,
            BotError::NotSession { thread } => "this is not an acp session in thread "@
                + ids::mention_of(thread),
            BotError::EmptySessionId => "the session id is empty"@,
            BotError::AlreadyImported { thread } => "this session is already imported in thread "@
                + ids::mention_of(thread),
            BotError::NonAbsoluteProjectPath {
                path,
            } => "agent reported a non-absolute project path `"@ + path@ + "`"@,
            BotError::SessionNotFound { session_id } => "agent does not know session `"@
                + session_id@ + "`"@,
            BotError::AcpProtocol(message) => "acp error: "@ + message@,
            BotError::AcpQueueFull => "the acp prompt queue is full"@,
            BotError::AcpActorExited => "the acp session actor has exited"@,
            BotError::AcpActorStopTimedOut => "acp session actor stop timed out"@,
            BotError::AcpModelSelectionTimedOut => "acp model selection timed out"@,
            BotError::AcpReloadTimedOut => "acp session reload timed out"@,
            BotError::DiscordNotReady => "discord is not ready"@,
            BotError::ProjectionDeserialize { context, .. } => "projection "@ + context@
                + " could not be decoded: "@,
            BotError::ProjectionSerialize { context, .. } => "projection "@ + context@
                + " could not be encoded: "@,
            BotError::ProjectionStateNotObject => "projection state must contain a json object"@,
        }
    }

    /// Whether the error only gives a reason.
    pub open spec fn is_other(self, reason: Seq<char>) -> bool {
        match self {
            BotError::Other(message) => message@ == reason,
            _ => false,
        }
    }

    /// Whether a JSON error is the cause, whose text follows `text`.
    pub open spec fn has_json_source(self) -> bool {
        self is ProjectionDeserialize || self is ProjectionSerialize
    }

    /// Returns the text shown for the error.
    pub fn message(&self) -> (message: String)
        ensures
            !self.has_json_source() ==> message@ == self.text(),
            text::starts_with(message@, self.text()),
    {
        let message = match self {
            BotError::Config(message) => text::copy(message.as_str()),
            BotError::InvalidRequest(message) => text::copy(message.as_str()),
            BotError::Other(message) => text::copy(message.as_str()),
            BotError::MissingForumTag { agent_key } => text::join3(
                "missing forum tag for `",
                agent_key.as_str(),
                "`",
            ),
            BotError::ForumChannelRequired { channel } => text::join3(
                "discord channel `",
                channel.as_str(),
                "` is not a forum",
            ),
            BotError::ForumChannelNotFound => text::copy("forum channel not found"),
            BotError::RelativeProjectPath { path } => text::join3(
                "acp project path `",
                path.as_str(),
                "` must be absolute",
            ),
            BotError::InvalidStoredDiscordId { value, source } => text::join4(
                "invalid stored discord id `",
                value.as_str(),
                "`: ",
                source.message(),
            ),
            BotError::ProjectionTooLarge => text::copy(
                "render projection contains too many messages",
            ),
            BotError::ProjectPathResolution { path, description, cause } => {
                let head = text::join4(
                    "could not resolve ",
                    description.as_str(),
                    " `",
                    path.as_str(),
                );
                text::join3(head.as_str(), "`: ", cause.as_str())
            },
            BotError::ProjectNotDirectory { path } => text::join3(
                "project path `",
                path.as_str(),
                "` is not a directory",
            ),
            BotError::HomeDirectoryUnavailable => text::copy("could not determine home directory"),
            BotError::Model(error) => error.message(),
            BotError::UnknownAgent { key } => text::join3("unknown agent `", key.as_str(), "`"),
            BotError::NotSession { thread } => text::join2(
                "this is not an acp session in thread ",
                thread.mention().as_str(),
            ),
            BotError::EmptySessionId => text::copy("the session id is empty"),
            BotError::AlreadyImported { thread } => text::join2(
                "this session is already imported in thread ",
                thread.mention().as_str(),
            ),
            BotError::NonAbsoluteProjectPath { path } => text::join3(
                "agent reported a non-absolute project path `",
                path.as_str(),
                "`",
            ),
            BotError::SessionNotFound { session_id } => text::join3(
                "agent does not know session `",
                session_id.as_str(),
                "`",
            ),
            BotError::AcpProtocol(message) => text::join2("acp error: ", message.as_str()),
            BotError::AcpQueueFull => text::copy("the acp prompt queue is full"),
            BotError::AcpActorExited => text::copy("the acp session actor has exited"),
            BotError::AcpActorStopTimedOut => text::copy("acp session actor stop timed out"),
            BotError::AcpModelSelectionTimedOut => text::copy("acp model selection timed out"),
            BotError::AcpReloadTimedOut => text::copy("acp session reload timed out"),
            BotError::DiscordNotReady => text::copy("discord is not ready"),
            BotError::ProjectionDeserialize { context, source } => text::join4(
                "projection ",
                context,
                " could not be decoded: ",
                json_error_text(source).as_str(),
            ),
            BotError::ProjectionSerialize { context, source } => text::join4(
                "projection ",
                context,
                " could not be encoded: ",
                json_error_text(source).as_str(),
            ),
            BotError::ProjectionStateNotObject => text::copy(
                "projection state must contain a json object",
            ),
        };
        assert(message@.subrange(0, self.text().len() as int) =~= self.text());
        message
    }
}

} // verus!
