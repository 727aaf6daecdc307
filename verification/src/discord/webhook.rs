//! Discord webhook mirroring for user-authored prompts.

use vstd::prelude::*;

use crate::discord::present::MESSAGE_LIMIT;
use crate::discord::split;
use crate::seqs;
use crate::text;

verus! {

/// Name used to identify Agentcord's forum webhook.
pub const WEBHOOK_NAME: &'static str = "agentcord";

/// The name shown on mirrored prompts: the guild display name where it is known,
/// else the global name, else the user name.
pub open spec fn shown_name(
    member: Option<Seq<char>>,
    global: Option<Seq<char>>,
    name: Seq<char>,
) -> Seq<char> {
    let shown = match member {
        Some(display) => display,
        None => match global {
            Some(global) => global,
            None => name,
        },
    };
    shown + " (via agentcord)"@
}

/// Makes the name shown on mirrored prompts.
pub fn profile_name(member: Option<&str>, global: Option<&str>, name: &str) -> (username: String)
    ensures
        username@ == shown_name(text::opt_str(member), text::opt_str(global), name@),
{
    let shown = match member {
        Some(display) => display,
        None => match global {
            Some(global) => global,
            None => name,
        },
    };
    text::join2(shown, " (via agentcord)")
}

/// Webhooks with a name.
pub open spec fn is_named(wanted: Seq<char>) -> spec_fn(Option<String>) -> bool {
    |name: Option<String>| text::opt_text(name) == Some(wanted)
}

/// Finds the first webhook with a name by the webhooks' names.
pub fn named_webhook(names: &Vec<Option<String>>, wanted: &str) -> (found: Option<usize>)
    ensures
        match found {
            Some(at) => at < names@.len() && at == seqs::first_where(names@, is_named(wanted@)),
            None => seqs::first_where(names@, is_named(wanted@)) == names@.len(),
        },
{
    let ghost chosen = is_named(wanted@);
    let mut at: usize = 0;
    while at < names.len()
        invariant
            at <= names@.len(),
            chosen == is_named(wanted@),
            forall|i: int| 0 <= i < at ==> !chosen(#[trigger] names@[i]),
        decreases names@.len() - at,
    {
        if let Some(name) = &names[at] {
            if text::same(name.as_str(), wanted) {
                proof {
                    seqs::lemma_first_where_is(names@, chosen, at as int);
                }
                return Some(at);
            }
        }
        at += 1;
    }
    proof {
        seqs::lemma_first_where_is(names@, chosen, at as int);
    }
    None
}

/// Finds the forum webhook used for mirrored prompts by the webhooks' names.
pub fn user_webhook(names: &Vec<Option<String>>) -> (found: Option<usize>)
    ensures
        match found {
            Some(at) => at < names@.len() && at == seqs::first_where(
                names@,
                is_named(WEBHOOK_NAME@),
            ),
            None => seqs::first_where(names@, is_named(WEBHOOK_NAME@)) == names@.len(),
        },
{
    named_webhook(names, WEBHOOK_NAME)
}

/// Who posts the next message of a mirrored prompt.
#[derive(Clone, Copy, Debug, PartialEq, Eq, Structural)]
pub enum Poster {
    /// The webhook, in the name of the user.
    Webhook,
    /// The bot.
    Bot,
}

/// How a message of a mirrored prompt was posted.
#[derive(Clone, Copy, Debug, PartialEq, Eq, Structural)]
pub enum Posted {
    /// The message exists.
    Sent,
    /// The webhook answered without a message.
    Nothing,
    /// The message could not be posted.
    Failed,
}

/// What follows a message of a mirrored prompt.
#[derive(Clone, Copy, Debug, PartialEq, Eq, Structural)]
pub enum MirrorNext {
    /// Go on with the next message.
    Continue,
    /// Forget the webhook, and go on with the bot.
    DropWebhook,
    /// The prompt cannot be mirrored.
    Fail,
}

/// Mirroring a prompt, one message at a time.
pub struct MirrorRun {
    chunks: Vec<String>,
    posted: usize,
    poster: Poster,
}

/// How far mirroring has come.
pub ghost struct MirrorView {
    pub chunks: Seq<Seq<char>>,
    pub posted: nat,
    pub poster: Poster,
}

impl View for MirrorRun {
    type V = MirrorView;

    closed spec fn view(&self) -> MirrorView {
        MirrorView {
            chunks: text::texts(self.chunks@),
            posted: self.posted as nat,
            poster: self.poster,
        }
    }
}

/// What posting one message leads to.
pub open spec fn mirrored(run: MirrorView, posted: Posted) -> (MirrorView, MirrorNext) {
    match (run.poster, posted) {
        (_, Posted::Sent) => (
            MirrorView { posted: run.posted + 1, ..run },
            MirrorNext::Continue,
        ),
        (Poster::Webhook, Posted::Nothing) => (
            MirrorView { poster: Poster::Bot, ..run },
            MirrorNext::Continue,
        ),
        (Poster::Webhook, Posted::Failed) => (
            MirrorView { poster: Poster::Bot, ..run },
            MirrorNext::DropWebhook,
        ),
        (Poster::Bot, _) => (run, MirrorNext::Fail),
    }
}

impl MirrorRun {
    /// Starts mirroring a prompt as the configured Discord user, where a webhook
    /// is at hand.
    pub fn mirror_user_message(prompt: &str, webhook: bool) -> (run: MirrorRun)
        ensures
            run@ == (MirrorView {
                chunks: split::split_of(prompt@, MESSAGE_LIMIT as nat),
                posted: 0,
                poster: if webhook {
                    Poster::Webhook
                } else {
                    Poster::Bot
                },
            }),
    {
        let chunks = split::split_message(prompt, MESSAGE_LIMIT);
        MirrorRun::of_chunks(chunks, webhook)
    }

    /// Starts mirroring messages as the configured Discord user, where a webhook
    /// is at hand.
    pub fn of_chunks(chunks: Vec<String>, webhook: bool) -> (run: MirrorRun)
        ensures
            run@ == (MirrorView {
                chunks: text::texts(chunks@),
                posted: 0,
                poster: if webhook {
                    Poster::Webhook
                } else {
                    Poster::Bot
                },
            }),
    {
        MirrorRun {
            chunks,
            posted: 0,
            poster: if webhook {
                Poster::Webhook
            } else {
                Poster::Bot
            },
        }
    }

    /// Returns the next message and who posts it, `None` once all are posted.
    pub fn next(&self) -> (next: Option<(Poster, &str)>)
        ensures
            match next {
                Some((poster, chunk)) => self@.posted < self@.chunks.len() && poster
                    == self@.poster && chunk@ == self@.chunks[self@.posted as int],
                None => self@.posted >= self@.chunks.len(),
            },
    {
        if self.posted < self.chunks.len() {
            Some((self.poster, self.chunks[self.posted].as_str()))
        } else {
            None
        }
    }

    /// Records how the next message was posted. Webhook failures are not fatal:
    /// messages that the webhook did not send are sent by the bot.
    pub fn record(&mut self, posted: Posted) -> (next: MirrorNext)
        requires
            old(self)@.posted < old(self)@.chunks.len(),
        ensures
            (final(self)@, next) == mirrored(old(self)@, posted),
    {
        let count = self.chunks.len();
        assert(self.posted < count);
        match posted {
            Posted::Sent => {
                self.posted = self.posted + 1;
                MirrorNext::Continue
            },
            Posted::Nothing => match self.poster {
                Poster::Webhook => {
                    self.poster = Poster::Bot;
                    MirrorNext::Continue
                },
                Poster::Bot => MirrorNext::Fail,
            },
            Posted::Failed => match self.poster {
                Poster::Webhook => {
                    self.poster = Poster::Bot;
                    MirrorNext::DropWebhook
                },
                Poster::Bot => MirrorNext::Fail,
            },
        }
    }
}

/// A message that the webhook does not post is posted by the bot instead: unless
/// mirroring fails, either the next message comes, or the same one from the bot,
/// and the prompt itself never changes.
pub proof fn every_message_is_posted_once(run: MirrorView, posted: Posted)
    ensures
        mirrored(run, posted).0.chunks == run.chunks,
        mirrored(run, posted).0.posted == run.posted + if posted is Sent {
            1int
        } else {
            0int
        },
        !(posted is Sent) && !(mirrored(run, posted).1 is Fail) ==> run.poster is Webhook
            && mirrored(run, posted).0.poster is Bot,
        mirrored(run, posted).1 is Fail <==> run.poster is Bot && !(posted is Sent),
{
}

} // verus!
