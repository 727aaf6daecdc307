//! Discord identifiers.

use vstd::prelude::*;

use crate::numbers;
use crate::text;

verus! {

/// Identifies a Discord channel of any kind, threads included.
#[derive(Clone, Copy, Debug, PartialEq, Eq, Hash, Structural)]
pub struct GenericChannelId(pub u64);

/// Identifies a Discord guild channel, such as a forum.
#[derive(Clone, Copy, Debug, PartialEq, Eq, Hash, Structural)]
pub struct ChannelId(pub u64);

/// Identifies a Discord message.
#[derive(Clone, Copy, Debug, PartialEq, Eq, Hash, Structural)]
pub struct MessageId(pub u64);

/// Identifies a Discord user.
#[derive(Clone, Copy, Debug, PartialEq, Eq, Hash, Structural)]
pub struct UserId(pub u64);

/// Identifies a Discord guild.
#[derive(Clone, Copy, Debug, PartialEq, Eq, Hash, Structural)]
pub struct GuildId(pub u64);

/// Identifies a custom Discord emoji.
#[derive(Clone, Copy, Debug, PartialEq, Eq, Hash, Structural)]
pub struct EmojiId(pub u64);

/// Identifies a Discord forum tag.
#[derive(Clone, Copy, Debug, PartialEq, Eq, Hash, Structural)]
pub struct ForumTagId(pub u64);

/// The text by which Discord links to a channel.
pub open spec fn mention_of(channel: GenericChannelId) -> Seq<char> {
    "<#"@ + numbers::decimal(channel.0 as nat) + ">"@
}

impl GenericChannelId {
    /// Returns the text by which Discord links to the channel.
    pub fn mention(self) -> (mention: String)
        ensures
            mention@ == mention_of(self),
    {
        text::join3("<#", numbers::format_u64(self.0).as_str(), ">")
    }
}

} // verus!
