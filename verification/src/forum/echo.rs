//! Webhook echoes: mirroring user turns that were typed in herdr (and never
//! appeared in Discord) into session posts through a per-forum webhook named and
//! avatared after the allowed user.

use vstd::prelude::*;

use crate::discord::webhook;
use crate::discord::webhook::{MirrorRun, MirrorView, Poster};
use crate::error::{BotError, BotResult};
use crate::ids::MessageId;
use crate::numbers;
use crate::seqs;
use crate::text;

verus! {

/// The error for a stored number that is no message id.
pub open spec fn invalid_message(id: i64) -> Seq<char> {
    numbers::signed_decimal(id as int) + " is not a valid message id"@
}

/// Finds the message after which a turn would have been typed.
pub fn typed_after(after: Option<i64>) -> (result: BotResult<Option<MessageId>>)
    ensures
        match (result, after) {
            (Ok(None), None) => true,
            (Ok(Some(message)), Some(id)) => message.0 == id,
            (Err(error), Some(id)) => id < 0 && error.is_other(invalid_message(id)),
            _ => false,
        },
{
    match after {
        None => Ok(None),
        Some(id) => if id >= 0 {
            Ok(Some(MessageId(id as u64)))
        } else {
            Err(
                BotError::Other(
                    text::join2(numbers::format_i64(id).as_str(), " is not a valid message id"),
                ),
            )
        },
    }
}

/// Starts the echo of a user turn, split into messages, unless the user already
/// typed it into the thread: echoes go through the forum's user webhook so that
/// transcript turns look like the user's own messages, and whatever the webhook
/// does not post falls back to plain bot messages, so a long turn can never wedge
/// the cursor.
pub fn post_user_echo(turn: &str, chunks: Vec<String>, recent: &Vec<String>, hooked: bool) -> (run:
    Option<MirrorRun>)
    ensures
        match run {
            Some(run) => !text::texts(recent@).contains(turn@) && run@ == (MirrorView {
                chunks: text::texts(chunks@),
                posted: 0,
                poster: if hooked {
                    Poster::Webhook
                } else {
                    Poster::Bot
                },
            }),
            None => text::texts(recent@).contains(turn@),
        },
{
    if text::among(recent, turn) {
        return None;
    }
    Some(MirrorRun::of_chunks(chunks, hooked))
}

/// Returns the message that stands for an echoed turn: the last one posted.
pub fn echoed(posted: &Vec<MessageId>) -> (message: Option<MessageId>)
    ensures
        message == if posted@.len() > 0 {
            Some(posted@.last())
        } else {
            None
        },
{
    if posted.len() > 0 {
        Some(posted[posted.len() - 1])
    } else {
        None
    }
}

/// The name shown on echoes: the guild display name where it is known, else the
/// global name, else the user name.
pub open spec fn persona(
    member: Option<Seq<char>>,
    global: Option<Seq<char>>,
    name: Seq<char>,
) -> Seq<char> {
    let shown = match (member, global) {
        (Some(display), _) => display,
        (None, Some(global)) => global,
        (None, None) => name,
    };
    shown + " (via herdr)"@
}

/// Makes the name shown on echoes, which is also the name of the webhook. The
/// suffix marks webhook echoes.
pub fn user_profile(member: Option<&str>, global: Option<&str>, name: &str) -> (username: String)
    ensures
        username@ == persona(text::opt_str(member), text::opt_str(global), name@),
{
    let shown = match member {
        Some(display) => display,
        None => match global {
            Some(global) => global,
            None => name,
        },
    };
    text::join2(shown, " (via herdr)")
}

/// Finds the webhook used to mirror the allowed user's turns by the webhooks'
/// names; where there is none, one is created on demand.
pub fn user_webhook(names: &Vec<Option<String>>, username: &str) -> (found: Option<usize>)
    ensures
        match found {
            Some(at) => at < names@.len() && at == seqs::first_where(
                names@,
                webhook::is_named(username@),
            ),
            None => seqs::first_where(names@, webhook::is_named(username@)) == names@.len(),
        },
{
    webhook::named_webhook(names, username)
}

} // verus!
