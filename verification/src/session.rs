//! Agent harnesses.

use vstd::prelude::*;

use crate::text;

verus! {

/// An upper-case ASCII letter.
pub open spec fn is_upper(c: char) -> bool {
    'A' <= c && c <= 'Z'
}

/// A camel-case name in kebab case: in lower case, with a dash before each word but
/// the first.
pub open spec fn kebab(name: Seq<char>) -> Seq<char>
    decreases name.len(),
{
    if name.len() == 0 {
        name
    } else {
        let before = kebab(name.drop_last());
        let c = name.last();
        if is_upper(c) && name.len() > 1 {
            before.push('-').push(text::ascii_lower(c))
        } else {
            before.push(text::ascii_lower(c))
        }
    }
}

/// Writes a camel-case name in kebab case.
pub fn to_kebab(name: &str) -> (result: String)
    ensures
        result@ == kebab(name@),
{
    let chars = text::chars_of(name);
    let mut result = String::new();
    let mut i: usize = 0;
    assert(name@.take(0) =~= Seq::<char>::empty());
    while i < chars.len()
        invariant
            i <= chars@.len(),
            chars@ == name@,
            result@ == kebab(name@.take(i as int)),
        decreases chars@.len() - i,
    {
        assert(name@.take(i + 1).drop_last() =~= name@.take(i as int));
        let c = chars[i];
        if 'A' <= c && c <= 'Z' && i > 0 {
            result.push('-');
        }
        result.push(text::lower_char(c));
        i += 1;
    }
    assert(name@.take(i as int) =~= name@);
    result
}

proof fn lemma_kebab_length(name: Seq<char>)
    ensures
        name.len() <= kebab(name).len() <= 2 * name.len(),
        (forall|i: int| 1 <= i < name.len() ==> !is_upper(#[trigger] name[i])) ==> kebab(name).len()
            == name.len(),
        (exists|i: int| 1 <= i < name.len() && is_upper(#[trigger] name[i])) ==> kebab(name).len()
            > name.len(),
    decreases name.len(),
{
    if name.len() > 0 {
        let rest = name.drop_last();
        lemma_kebab_length(rest);
        if forall|i: int| 1 <= i < name.len() ==> !is_upper(#[trigger] name[i]) {
            assert forall|i: int| 1 <= i < rest.len() implies !is_upper(#[trigger] rest[i]) by {
                assert(rest[i] == name[i]);
            }
            if name.len() > 1 {
                assert(!is_upper(name[name.len() - 1]));
            }
        }
        if exists|i: int| 1 <= i < name.len() && is_upper(#[trigger] name[i]) {
            let i = choose|i: int| 1 <= i < name.len() && is_upper(#[trigger] name[i]);
            if i < rest.len() {
                assert(is_upper(rest[i]));
            }
        }
    }
}

/// A program that runs agents.
#[derive(Clone, Copy, Debug, PartialEq, Eq, Structural)]
pub enum Harness {
    /// omp.
    Omp,
    /// Anthropic's coding agent.
    ClaudeCode,
    /// Codex.
    Codex,
    /// pi.
    Pi,
    /// opencode.
    Opencode,
}

impl Harness {
    /// The name of the harness in camel case.
    pub open spec fn name(self) -> Seq<char> {
        match self {
            Harness::Omp => "Omp"@,
            Harness::ClaudeCode => "ClaudeCode"@,
            Harness::Codex => "Codex"@,
            Harness::Pi => "Pi"@,
            Harness::Opencode => "Opencode"@,
        }
    }

    /// The label of the harness: its name in kebab case.
    pub open spec fn label(self) -> Seq<char> {
        kebab(self.name())
    }

    /// Returns the label of the harness: its name in kebab case, as herdr reports
    /// it.
    #[must_use]
    pub fn to_label(self) -> (label: String)
        ensures
            label@ == self.label(),
    {
        match self {
            Harness::Omp => to_kebab("Omp"),
            Harness::ClaudeCode => to_kebab("ClaudeCode"),
            Harness::Codex => to_kebab("Codex"),
            Harness::Pi => to_kebab("Pi"),
            Harness::Opencode => to_kebab("Opencode"),
        }
    }

    fn has_label(self, label: &str) -> (result: bool)
        ensures
            result == (label@ == self.label()),
    {
        text::same(label, self.to_label().as_str())
    }

    /// Finds the harness with a label.
    #[must_use]
    pub fn parse(label: &str) -> (harness: Option<Harness>)
        ensures
            match harness {
                Some(found) => label@ == found.label(),
                None => forall|any: Harness| label@ != #[trigger] any.label(),
            },
    {
        if Harness::Omp.has_label(label) {
            Some(Harness::Omp)
        } else if Harness::ClaudeCode.has_label(label) {
            Some(Harness::ClaudeCode)
        } else if Harness::Codex.has_label(label) {
            Some(Harness::Codex)
        } else if Harness::Pi.has_label(label) {
            Some(Harness::Pi)
        } else if Harness::Opencode.has_label(label) {
            Some(Harness::Opencode)
        } else {
            None
        }
    }

    /// All harnesses, in their order.
    pub open spec fn every() -> Seq<Harness> {
        seq![Harness::Omp, Harness::ClaudeCode, Harness::Codex, Harness::Pi, Harness::Opencode]
    }

    /// Returns all harnesses, in their order.
    #[must_use]
    pub fn all() -> (harnesses: Vec<Harness>)
        ensures
            harnesses@ == Harness::every(),
    {
        let harnesses = vec![
            Harness::Omp,
            Harness::ClaudeCode,
            Harness::Codex,
            Harness::Pi,
            Harness::Opencode,
        ];
        assert(harnesses@ =~= Harness::every());
        harnesses
    }
}

/// Who wrote a message of a transcript.
#[derive(Clone, Copy, Debug, PartialEq, Eq, Structural)]
pub enum SessionRole {
    /// The user.
    User,
    /// The agent.
    Agent,
    /// A tool the agent called.
    Tool,
}

/// How far a tool call has come.
#[derive(Clone, Copy, Debug, PartialEq, Eq, Structural)]
pub enum ToolState {
    /// The call has not returned yet.
    Running,
    /// The call returned.
    Completed,
    /// The call failed.
    Failed,
}

/// A tool call of a transcript.
#[derive(Clone, Debug)]
pub struct ToolCall {
    /// Identifies the call in its session.
    pub call_id: String,
    /// How far the call has come.
    pub state: ToolState,
}

/// A message of a transcript.
#[derive(Clone, Debug)]
pub struct SessionMessage {
    /// Who wrote the message.
    pub role: SessionRole,
    /// Text of the message.
    pub text: String,
    /// The call, for a message of a tool whose call is known.
    pub tool: Option<ToolCall>,
}

/// Labels are not empty and not longer than twenty characters.
pub proof fn harness_labels_are_short(harness: Harness)
    ensures
        0 < harness.label().len() <= 20,
{
    reveal_strlit("Omp");
    reveal_strlit("ClaudeCode");
    reveal_strlit("Codex");
    reveal_strlit("Pi");
    reveal_strlit("Opencode");
    lemma_kebab_length(harness.name());
}

/// Harnesses have different labels, so that parsing a label gives its harness.
pub proof fn harness_labels_are_distinct(left: Harness, right: Harness)
    requires
        left.label() == right.label(),
    ensures
        left == right,
{
    lemma_label_length(left);
    lemma_label_length(right);
}

proof fn lemma_label_length(harness: Harness)
    ensures
        match harness {
            Harness::Omp => harness.label().len() == 3,
            Harness::ClaudeCode => harness.label().len() > 10,
            Harness::Codex => harness.label().len() == 5,
            Harness::Pi => harness.label().len() == 2,
            Harness::Opencode => harness.label().len() == 8,
        },
{
    reveal_strlit("Omp");
    reveal_strlit("ClaudeCode");
    reveal_strlit("Codex");
    reveal_strlit("Pi");
    reveal_strlit("Opencode");
    lemma_kebab_length(harness.name());
    if harness is ClaudeCode {
        assert(is_upper(harness.name()[6]));
    }
}

} // verus!
