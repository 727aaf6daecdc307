//! Resolving Discord channels for the bot's bindings: a forum channel from its
//! id, a forum post (thread) from its id, the forum containing a post, and
//! existence checks.

use vstd::prelude::*;

use crate::error::{BotError, BotResult};
use crate::ids::ChannelId;
use crate::numbers;
use crate::text;

verus! {

/// Whether a channel exists on Discord.
#[derive(Clone, Copy, Debug, PartialEq, Eq, Structural)]
pub enum Existence {
    /// The channel exists.
    Exists,
    /// The channel was deleted.
    Gone,
    /// Discord could not be asked.
    Unknown,
}

/// Discord's status for a channel that does not exist.
pub const NOT_FOUND: u16 = 404;

/// Judges whether a channel exists: where asking for it failed, by the status of
/// the unsuccessful response, if Discord responded at all.
pub fn channel_exists(found: bool, status: Option<u16>) -> (existence: Existence)
    ensures
        existence == if found {
            Existence::Exists
        } else if status == Some(NOT_FOUND) {
            Existence::Gone
        } else {
            Existence::Unknown
        },
{
    if found {
        return Existence::Exists;
    }
    match status {
        Some(code) => if code == NOT_FOUND {
            Existence::Gone
        } else {
            Existence::Unknown
        },
        None => Existence::Unknown,
    }
}

/// What kind of channel Discord returned.
#[derive(Clone, Copy, Debug, PartialEq, Eq, Structural)]
pub enum Channel {
    /// A guild channel, which may stand in another one.
    Guild(Option<ChannelId>),
    /// A thread, which stands in a channel.
    GuildThread(ChannelId),
    /// Any other channel.
    Other,
}

/// Finds the forum channel containing `post` (its parent channel).
pub fn forum_for_post(channel: Channel, post: ChannelId) -> (result: BotResult<ChannelId>)
    ensures
        match (result, channel) {
            (Ok(forum), Channel::Guild(Some(parent))) => forum == parent,
            (Ok(forum), Channel::GuildThread(parent)) => forum == parent,
            (Err(error), Channel::Guild(None)) => error.is_other(
                "post "@ + numbers::decimal(post.0 as nat) + " is not in a forum"@,
            ),
            (Err(error), Channel::Other) => error.is_other(
                "post "@ + numbers::decimal(post.0 as nat) + " is not a guild channel"@,
            ),
            _ => false,
        },
{
    let id = numbers::format_u64(post.0);
    match channel {
        Channel::Guild(Some(parent)) => Ok(parent),
        Channel::GuildThread(parent) => Ok(parent),
        Channel::Guild(None) => Err(
            BotError::Other(text::join3("post ", id.as_str(), " is not in a forum")),
        ),
        Channel::Other => Err(
            BotError::Other(text::join3("post ", id.as_str(), " is not a guild channel")),
        ),
    }
}

/// Checks that a channel can be a forum: a guild channel.
pub fn forum_channel(channel: Channel) -> (result: BotResult<()>)
    ensures
        match result {
            Ok(_) => channel is Guild,
            Err(error) => !(channel is Guild) && error is ForumChannelNotFound,
        },
{
    match channel {
        Channel::Guild(_) => Ok(()),
        _ => Err(BotError::ForumChannelNotFound),
    }
}

/// Checks that a channel is a thread (a forum post), and returns the forum
/// channel it stands in.
pub fn forum_thread(channel: Channel) -> (result: BotResult<ChannelId>)
    ensures
        match (result, channel) {
            (Ok(forum), Channel::GuildThread(parent)) => forum == parent,
            (Err(error), _) => !(channel is GuildThread) && error is ForumChannelNotFound,
            _ => false,
        },
{
    match channel {
        Channel::GuildThread(parent) => Ok(parent),
        _ => Err(BotError::ForumChannelNotFound),
    }
}

} // verus!
