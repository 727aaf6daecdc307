//! Errors from talking to the herdr socket.

use vstd::prelude::*;

use crate::error;
use crate::error::BotError;
use crate::text;

verus! {

/// Errors from talking to the herdr socket.
#[derive(Debug)]
pub enum HerdrError {
    /// The herdr server reported a failure.
    Herdr {
        /// Machine-readable error code, e.g. `agent_not_found` or `timeout`.
        code: String,
        /// Human-readable error message.
        message: String,
    },
    /// The request exceeded the operation timeout.
    Timeout,
    /// The herdr socket could not be reached or read.
    Io(String),
    /// The response could not be parsed as the expected shape.
    Json(serde_json::Error),
}

impl HerdrError {
    /// The text shown for the error, up to the text of an underlying JSON error.
    pub open spec fn text(self) -> Seq<char> {
        match self {
            HerdrError::Herdr { code, message } => "herdr server error "@ + code@ + ": "@ + message@,
            HerdrError::Timeout => "herdr request timed out"@,
            HerdrError::Io(cause) => "failed to communicate with herdr socket: "@ + cause@,
            HerdrError::Json(_) => "failed to parse herdr response: "@,
        }
    }

    /// Returns the text shown for the error.
    pub fn message(&self) -> (message: String)
        ensures
            !(self is Json) ==> message@ == self.text(),
            text::starts_with(message@, self.text()),
    {
        let message = match self {
            HerdrError::Herdr { code, message } => text::join4(
                "herdr server error ",
                code.as_str(),
                ": ",
                message.as_str(),
            ),
            HerdrError::Timeout => text::copy("herdr request timed out"),
            HerdrError::Io(cause) => text::join2(
                "failed to communicate with herdr socket: ",
                cause.as_str(),
            ),
            HerdrError::Json(cause) => text::join2(
                "failed to parse herdr response: ",
                error::json_error_text(cause).as_str(),
            ),
        };
        assert(message@.subrange(0, self.text().len() as int) =~= self.text());
        message
    }

    /// A message tells of this error behind a lead. The text of an underlying JSON
    /// error is left open.
    pub open spec fn is_told(self, lead: Seq<char>, told: BotError) -> bool {
        told matches BotError::Other(message) && text::starts_with(message@, lead + self.text())
            && (!(self is Json) ==> message@ == lead + self.text())
    }

    /// Tells of this error behind a lead.
    pub fn tell(&self, lead: &str) -> (told: BotError)
        ensures
            self.is_told(lead@, told),
    {
        let cause = self.message();
        let message = text::join2(lead, cause.as_str());
        proof {
            let expected = lead@ + self.text();
            assert forall|i: int| 0 <= i < self.text().len() implies cause@[i]
                == self.text()[i] by {
                assert(cause@.subrange(0, self.text().len() as int)[i] == cause@[i]);
            }
            assert(message@.subrange(0, expected.len() as int) =~= expected);
        }
        BotError::Other(message)
    }

    /// An error that the server reports, or that is reported in its form.
    pub open spec fn is_herdr(self, code: Seq<char>, message: Seq<char>) -> bool {
        self matches HerdrError::Herdr { code: reported, message: shown } && reported@ == code && shown@
            == message
    }

    /// Makes an error in the form of a server error.
    pub fn herdr(code: &str, message: String) -> (error: HerdrError)
        ensures
            error.is_herdr(code@, message@),
    {
        HerdrError::Herdr { code: text::copy(code), message }
    }

    /// The error is one whose code is this one.
    pub open spec fn coded(self, code: Seq<char>) -> bool {
        self matches HerdrError::Herdr { code: reported, .. } && reported@ == code
    }

    /// Returns whether the error is a server error with a code.
    pub fn has_code(&self, code: &str) -> (result: bool)
        ensures
            result == self.coded(code@),
    {
        match self {
            HerdrError::Herdr { code: reported, .. } => text::same(reported.as_str(), code),
            _ => false,
        }
    }

    /// Returns `true` when the operation exceeded its allowed time: either the
    /// local operation timeout or a `timeout` error code from the herdr server
    /// (e.g. `agent prompt` still working after its wait deadline).
    #[must_use]
    pub fn is_timeout(&self) -> (result: bool)
        ensures
            result == (self is Timeout || self.coded("timeout"@)),
    {
        match self {
            HerdrError::Timeout => true,
            _ => self.has_code("timeout"),
        }
    }

    /// Whether the error is herdr's "prompt produced no observed state change"
    /// stall: the prompt was delivered, the agent just did not transition within
    /// herdr's short window. Callers keep waiting and let the transcript sync
    /// surface the message instead of failing.
    #[must_use]
    pub fn is_stalled(&self) -> (result: bool)
        ensures
            result == self.coded("agent_prompt_stalled"@),
    {
        self.has_code("agent_prompt_stalled")
    }
}

} // verus!
