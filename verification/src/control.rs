//! The `/herdr` control command: a user-configured one-shot subprocess.
//!
//! The command (e.g. a lean `pi -p`) is configured; the user's prompt, prefixed
//! with a control-plane preamble ([`control_prompt`]), is piped to its stdin, and
//! its concatenated output is relayed back as the reply ([`truncate_reply`]).

use vstd::prelude::*;

use crate::config::TimeSpan;
use crate::error::{BotError, BotResult};
use crate::text;

verus! {

/// What precedes the user's request: it frames the session and the confirmation
/// contract.
pub const CONTROL_PREAMBLE: &'static str =
    "You are herdcord's herdr control plane, invoked from Discord. This is a one-shot session: it exists only to perform the user's requested herdr action against the main herdr session.\n\nStart by reading the herdr skill (`herdr --skill`), then perform the action. Fire off the herdr commands and ensure they complete successfully — do not monitor agent output or wait for turns.\n\nWhen done, reply with a single short plain-text message confirming what you did. If the request is impossible or ambiguous, reply with a one-line explanation instead. Do not explain your reasoning or dump tool output.\n\nUser request:\n";

/// The prompt piped to the control command: a one-shot preamble that frames the
/// session and the confirmation contract, followed by the user's request.
#[must_use]
pub fn control_prompt(user_text: &str) -> (prompt: String)
    ensures
        prompt@ == CONTROL_PREAMBLE@ + user_text@,
{
    text::join2(CONTROL_PREAMBLE, user_text)
}

/// What ends a reply that was cut.
pub const TRUNCATION_NOTE: &'static str = "\n… (truncated)";

/// The length of the truncation note.
pub const NOTE_LENGTH: usize = 14;

/// How many characters of an output precede the truncation note.
pub open spec fn kept_of(limit: nat) -> nat {
    if limit >= NOTE_LENGTH {
        (limit - NOTE_LENGTH) as nat
    } else {
        0
    }
}

/// As much of the truncation note as a limit leaves room for.
pub open spec fn note_of(limit: nat) -> Seq<char> {
    if limit >= NOTE_LENGTH {
        TRUNCATION_NOTE@
    } else {
        TRUNCATION_NOTE@.take(limit as int)
    }
}

/// An output of at most `limit` characters as it is, a longer one cut and with a
/// note, which is itself cut where the limit has no room for it.
pub open spec fn cut_reply(output: Seq<char>, limit: nat) -> Seq<char> {
    if output.len() <= limit {
        output
    } else {
        output.take(kept_of(limit) as int) + note_of(limit)
    }
}

/// Truncates the control command's output to at most `limit` characters
/// (Discord's per-message cap counts characters), appending a truncation note
/// when it was cut. The cut never splits a character.
#[must_use]
pub fn truncate_reply(output: &str, limit: usize) -> (reply: String)
    ensures
        reply@ == cut_reply(output@, limit as nat),
        reply@.len() <= limit,
{
    proof {
        a_truncated_reply_fits(output@, limit as nat);
    }
    if output.unicode_len() <= limit {
        return text::copy(output);
    }
    proof {
        reveal_strlit("\n… (truncated)");
    }
    if limit >= NOTE_LENGTH {
        text::join2(output.substring_char(0, limit - NOTE_LENGTH), TRUNCATION_NOTE)
    } else {
        let note = text::copy(TRUNCATION_NOTE.substring_char(0, limit));
        assert(note@ =~= note_of(limit as nat));
        assert(output@.take(0) + note@ =~= note@);
        note
    }
}

/// A truncated reply fits whatever the limit, and leaves none of it unused.
pub proof fn a_truncated_reply_fits(output: Seq<char>, limit: nat)
    ensures
        cut_reply(output, limit).len() <= limit,
        output.len() > limit ==> cut_reply(output, limit).len() == limit,
{
    reveal_strlit("\n… (truncated)");
    assert(TRUNCATION_NOTE@.len() == NOTE_LENGTH);
}

/// Splits the configured command into a program and its arguments.
pub fn control_argv(command: &str) -> (result: BotResult<(String, Vec<String>)>)
    ensures
        match result {
            Ok((program, args)) => text::words(command@).len() > 0 && program@ == text::words(
                command@,
            )[0] && text::texts(args@) == text::words(command@).drop_first(),
            Err(error) => text::words(command@).len() == 0 && (error matches BotError::Other(shown)
                && shown@ == "the control command is empty"@),
        },
{
    let mut parts = text::split_whitespace(command);
    let ghost all = text::texts(parts@);
    assert(all.len() == parts@.len());
    if parts.len() == 0 {
        return Err(BotError::Other(text::copy("the control command is empty")));
    }
    let program = parts.remove(0);
    assert(all[0] == program@);
    assert(text::texts(parts@) =~= all.drop_first());
    Ok((program, parts))
}

/// What `Duration` shows of itself for debugging.
pub uninterp spec fn span_text(secs: u64, nanos: u32) -> Seq<char>;

/// The `Debug` text of a `Duration` of whole seconds and nanoseconds, a function
/// of the two numbers alone.
#[verifier::external_body]
fn show_span(secs: u64, nanos: u32) -> (shown: String)
    requires
        nanos < 1_000_000_000,
    ensures
        shown@ == span_text(secs, nanos),
{
    format!("{:?}", std::time::Duration::new(secs, nanos))
}

/// How running the control command ended.
pub enum ControlRun {
    /// The command could not be started.
    SpawnFailed(String),
    /// Reading its output failed.
    IoFailed(String),
    /// The command outlived its time limit.
    TimedOut(TimeSpan),
    /// The command ended, with whatever exit code.
    Finished {
        /// What it wrote to its standard output.
        stdout: Vec<u8>,
        /// What it wrote to its standard error.
        stderr: Vec<u8>,
    },
}

/// Judges how running the control command ended: its output is what it wrote to
/// both of its streams, whatever its exit code.
pub fn run_control_command(run: &ControlRun) -> (result: BotResult<String>)
    requires
        *run matches ControlRun::TimedOut(limit) ==> limit.nanos < 1_000_000_000,
    ensures
        match *run {
            ControlRun::SpawnFailed(cause) => result matches Err(BotError::Other(shown)) && shown@
                == "couldn't spawn the control command: "@ + cause@,
            ControlRun::IoFailed(cause) => result matches Err(BotError::Other(shown)) && shown@
                == "the control command's I/O failed: "@ + cause@,
            ControlRun::TimedOut(limit) => result matches Err(BotError::Other(shown)) && shown@
                == "the control command timed out after "@ + span_text(limit.secs, limit.nanos),
            ControlRun::Finished { stdout, stderr } => result matches Ok(output) && output@
                == text::lossy_text(stdout@) + text::lossy_text(stderr@),
        },
{
    match run {
        ControlRun::SpawnFailed(cause) => Err(
            BotError::Other(
                text::join2("couldn't spawn the control command: ", cause.as_str()),
            ),
        ),
        ControlRun::IoFailed(cause) => Err(
            BotError::Other(text::join2("the control command's I/O failed: ", cause.as_str())),
        ),
        ControlRun::TimedOut(limit) => Err(
            BotError::Other(
                text::join2(
                    "the control command timed out after ",
                    show_span(limit.secs, limit.nanos).as_str(),
                ),
            ),
        ),
        ControlRun::Finished { stdout, stderr } => Ok(
            text::join2(
                text::from_utf8_lossy(stdout).as_str(),
                text::from_utf8_lossy(stderr).as_str(),
            ),
        ),
    }
}

} // verus!
