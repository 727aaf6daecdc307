//! The `/herdr` command: runs the configured control command as a one-shot
//! control plane against the main herdr session.

use vstd::prelude::*;

use crate::control;
use crate::error::BotError;
use crate::text;

verus! {

/// What `/herdr` does with a request.
pub enum HerdrStep {
    /// Answer at once.
    Reply(&'static str),
    /// Run the command with this prompt.
    Run(String),
}

/// Decides what `/herdr` does with a request.
pub fn herdr(configured: bool, prompt: &str) -> (step: HerdrStep)
    ensures
        if !configured {
            step matches HerdrStep::Reply(shown) && shown@
                == "the control command is not configured."@
        } else if text::is_blank(prompt@) {
            step matches HerdrStep::Reply(shown) && shown@ == "the prompt is empty."@
        } else {
            step matches HerdrStep::Run(framed) && framed@ == control::CONTROL_PREAMBLE@ + prompt@
        },
{
    if !configured {
        HerdrStep::Reply("the control command is not configured.")
    } else if text::blank(prompt) {
        HerdrStep::Reply("the prompt is empty.")
    } else {
        HerdrStep::Run(control::control_prompt(prompt))
    }
}

/// The environment that the control command runs with: the mark of a herdr
/// session and the socket of the main one.
pub open spec fn control_variables(socket: Seq<char>) -> Seq<(Seq<char>, Seq<char>)> {
    seq![("HERDR_ENV"@, "1"@), ("HERDR_SOCKET_PATH"@, socket)]
}

/// Makes the environment that the control command runs with.
pub fn control_env(socket: &str) -> (env: Vec<(&'static str, String)>)
    ensures
        env@.map_values(|pair: (&'static str, String)| (pair.0@, pair.1@)) == control_variables(
            socket@,
        ),
{
    let mut env: Vec<(&'static str, String)> = Vec::new();
    env.push(("HERDR_ENV", text::copy("1")));
    env.push(("HERDR_SOCKET_PATH", text::copy(socket)));
    assert(env@.map_values(|pair: (&'static str, String)| (pair.0@, pair.1@))
        =~= control_variables(socket@));
    env
}

/// Makes the reply for a control command that was run: its output, cut to what
/// Discord takes, or why there is none.
pub fn control_reply(outcome: &Result<String, BotError>, limit: usize) -> (reply: String)
    ensures
        match *outcome {
            Ok(output) => {
                let cut = control::cut_reply(output@, limit as nat);
                reply@ == if text::is_blank(cut) {
                    "the control command produced no output."@
                } else {
                    cut
                }
            },
            Err(error) => text::starts_with(
                reply@,
                "control command failed: "@ + error.text(),
            ) && (!error.has_json_source() ==> reply@ == "control command failed: "@
                + error.text()),
        },
{
    match outcome {
        Ok(output) => {
            let cut = control::truncate_reply(output.as_str(), limit);
            if text::blank(cut.as_str()) {
                text::copy("the control command produced no output.")
            } else {
                cut
            }
        },
        Err(error) => {
            let shown = error.message();
            let reply = text::join2("control command failed: ", shown.as_str());
            assert(reply@.subrange(0, ("control command failed: "@ + error.text()).len() as int)
                =~= "control command failed: "@ + error.text()) by {
                assert(shown@.subrange(0, error.text().len() as int) =~= error.text());
                assert forall|i: int| 0 <= i < error.text().len() implies shown@[i]
                    == error.text()[i] by {
                    assert(shown@.subrange(0, error.text().len() as int)[i] == shown@[i]);
                }
            }
            reply
        },
    }
}

} // verus!
