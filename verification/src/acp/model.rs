//! Model selection and ACP session configuration helpers.

use vstd::prelude::*;

use crate::error::{BotError, BotResult, ModelSpecError};
use crate::text;

verus! {

/// A user-selected ACP model and optional reasoning level.
#[derive(Clone, Debug, Eq, PartialEq)]
pub struct ModelSpec {
    /// Optional provider portion of the model identifier.
    pub provider: String,
    /// Model identifier returned by the ACP agent.
    pub model: String,
    /// Optional reasoning level requested from the ACP agent.
    ///
    /// An empty value means that the agent does not expose a separate
    /// reasoning selector, or that the user did not select one.
    pub reasoning: String,
}

/// The content of a model selector.
pub ghost struct SpecView {
    pub provider: Seq<char>,
    pub model: Seq<char>,
    pub reasoning: Seq<char>,
}

impl View for ModelSpec {
    type V = SpecView;

    open spec fn view(&self) -> SpecView {
        SpecView { provider: self.provider@, model: self.model@, reasoning: self.reasoning@ }
    }
}

/// A text contains white space.
pub open spec fn has_space(s: Seq<char>) -> bool {
    exists|i: int| 0 <= i < s.len() && text::is_space(#[trigger] s[i])
}

impl SpecView {
    /// The model selector sent to ACP.
    pub open spec fn model_value(self) -> Seq<char> {
        if self.provider.len() == 0 {
            self.model
        } else {
            self.provider + "/"@ + self.model
        }
    }

    /// The canonical model string.
    pub open spec fn canonical(self) -> Seq<char> {
        if self.reasoning.len() == 0 {
            self.model_value()
        } else {
            self.model_value() + ":"@ + self.reasoning
        }
    }

    /// What every parsed selector is: a model without white space or colon, with
    /// a provider unless it holds no slash, and a reasoning level without white
    /// space or colon.
    pub open spec fn well_formed(self) -> bool {
        &&& self.model.len() > 0
        &&& !has_space(self.provider) && !has_space(self.model) && !has_space(self.reasoning)
        &&& !self.provider.contains(':') && !self.model.contains(':') && !self.reasoning.contains(
            ':',
        )
        &&& !self.provider.contains('/')
        &&& self.provider.len() == 0 ==> !self.model.contains('/')
    }
}

/// What reading a model selector gives.
pub ghost enum SpecRead {
    Read(SpecView),
    ExtraSeparator(Seq<char>),
    EmptyPart(Seq<char>),
    Whitespace(Seq<char>),
}

/// Reads `model[:reasoning]`, where the model may name a provider before a
/// slash.
pub open spec fn spec_read(raw: Seq<char>) -> SpecRead {
    let input = text::trimmed(raw);
    let colon = text::first_at(input, ':', 0);
    let value = input.take(colon);
    let reasoning = if colon < input.len() {
        input.skip(colon + 1)
    } else {
        Seq::empty()
    };
    let slash = text::first_at(value, '/', 0);
    let provider = if slash < value.len() {
        value.take(slash)
    } else {
        Seq::empty()
    };
    let model = if slash < value.len() {
        value.skip(slash + 1)
    } else {
        value
    };
    if reasoning.contains(':') {
        SpecRead::ExtraSeparator(input)
    } else if slash < value.len() && (provider.len() == 0 || model.len() == 0) {
        SpecRead::EmptyPart(input)
    } else if model.len() == 0 || (input.len() > 0 && input.last() == ':') {
        SpecRead::EmptyPart(input)
    } else if has_space(provider) || has_space(model) || has_space(reasoning) {
        SpecRead::Whitespace(input)
    } else {
        SpecRead::Read(SpecView { provider, model, reasoning })
    }
}

/// A parser result says what `spec_read` says.
pub open spec fn is_spec_read(
    result: Result<ModelSpec, ModelSpecError>,
    expected: SpecRead,
) -> bool {
    match expected {
        SpecRead::Read(view) => result matches Ok(spec) && spec@ == view,
        SpecRead::ExtraSeparator(text) => result matches Err(
            ModelSpecError::ExtraSeparator { input },
        ) && input@ == text,
        SpecRead::EmptyPart(text) => result matches Err(ModelSpecError::EmptyPart { input })
            && input@ == text,
        SpecRead::Whitespace(text) => result matches Err(ModelSpecError::Whitespace { input })
            && input@ == text,
    }
}

fn range_has_space(chars: &Vec<char>, from: usize, to: usize) -> (result: bool)
    requires
        from <= to <= chars@.len(),
    ensures
        result == has_space(chars@.subrange(from as int, to as int)),
{
    let ghost part = chars@.subrange(from as int, to as int);
    let mut i: usize = from;
    while i < to
        invariant
            from <= i <= to <= chars@.len(),
            part == chars@.subrange(from as int, to as int),
            forall|j: int| 0 <= j < i - from ==> !text::is_space(#[trigger] part[j]),
        decreases to - i,
    {
        if text::char_is_space(chars[i]) {
            assert(text::is_space(part[i - from]));
            return true;
        }
        i += 1;
    }
    false
}

/// Parses the canonical `model[:reasoning]` form.
pub fn parse_model_spec(raw: &str) -> (result: Result<ModelSpec, ModelSpecError>)
    ensures
        is_spec_read(result, spec_read(raw@)),
{
    let trimmed = text::trim(raw);
    let input = trimmed.as_str();
    let chars = text::chars_of(input);
    let length = chars.len();
    let colon = text::find_char(&chars, ':', 0);
    let start: usize = if colon < length {
        colon + 1
    } else {
        length
    };
    let ghost value = input@.take(colon as int);
    let ghost reasoning = input@.skip(start as int);
    let extra = text::find_char(&chars, ':', start);
    proof {
        assert(colon == length ==> input@.skip(length as int) =~= Seq::<char>::empty());
        if extra < length {
            assert(reasoning[extra - start] == ':');
        } else {
            assert forall|i: int| 0 <= i < reasoning.len() implies reasoning[i] != ':' by {
                assert(reasoning[i] == chars@[i + start]);
            }
        }
    }
    if extra < length {
        return Err(ModelSpecError::ExtraSeparator { input: text::copy(input) });
    }
    let found = text::find_char(&chars, '/', 0);
    let slash: usize = if found < colon {
        found
    } else {
        colon
    };
    proof {
        assert forall|i: int| 0 <= i < slash implies value[i] != '/' by {
            assert(value[i] == chars@[i]);
        }
        text::lemma_first_at_unique(value, '/', 0, slash as int);
    }
    let model_start: usize = if slash < colon {
        slash + 1
    } else {
        0
    };
    let provider_end: usize = if slash < colon {
        slash
    } else {
        0
    };
    proof {
        let provider = if slash < value.len() {
            value.take(slash as int)
        } else {
            Seq::empty()
        };
        let model = if slash < value.len() {
            value.skip(slash + 1)
        } else {
            value
        };
        assert(provider =~= chars@.subrange(0, provider_end as int));
        assert(model =~= chars@.subrange(model_start as int, colon as int));
        assert(reasoning =~= chars@.subrange(start as int, length as int));
    }
    if slash < colon && (provider_end == 0 || model_start == colon) {
        return Err(ModelSpecError::EmptyPart { input: text::copy(input) });
    }
    if model_start == colon || (length > 0 && chars[length - 1] == ':') {
        return Err(ModelSpecError::EmptyPart { input: text::copy(input) });
    }
    if range_has_space(&chars, 0, provider_end) || range_has_space(&chars, model_start, colon)
        || range_has_space(&chars, start, length) {
        return Err(ModelSpecError::Whitespace { input: text::copy(input) });
    }
    Ok(
        ModelSpec {
            provider: text::string_of(&chars, 0, provider_end),
            model: text::string_of(&chars, model_start, colon),
            reasoning: text::string_of(&chars, start, length),
        },
    )
}

impl std::str::FromStr for ModelSpec {
    type Err = ModelSpecError;

    /// Parses the canonical `model[:reasoning]` form.
    fn from_str(input: &str) -> (result: Result<Self, Self::Err>)
        ensures
            is_spec_read(result, spec_read(input@)),
    {
        parse_model_spec(input)
    }
}

impl ModelSpec {
    /// Parses the canonical `model[:reasoning]` form.
    pub fn parse(input: &str) -> (result: BotResult<ModelSpec>)
        ensures
            match result {
                Ok(spec) => spec_read(input@) == SpecRead::Read(spec@),
                Err(BotError::Model(error)) => is_spec_read(Err(error), spec_read(input@)),
                Err(_) => false,
            },
    {
        match parse_model_spec(input) {
            Ok(spec) => Ok(spec),
            Err(error) => Err(BotError::Model(error)),
        }
    }

    /// Returns the canonical model string shown in Discord.
    #[must_use]
    pub fn canonical(&self) -> (value: String)
        ensures
            value@ == self@.canonical(),
    {
        let model = self.model_value();
        if self.reasoning.as_str().is_empty() {
            model
        } else {
            text::join3(model.as_str(), ":", self.reasoning.as_str())
        }
    }

    /// Returns the model selector sent to ACP.
    #[must_use]
    pub fn model_value(&self) -> (value: String)
        ensures
            value@ == self@.model_value(),
    {
        if self.provider.as_str().is_empty() {
            text::copy(self.model.as_str())
        } else {
            text::join3(self.provider.as_str(), "/", self.model.as_str())
        }
    }

    /// Copies the selector.
    pub fn copy(&self) -> (copied: ModelSpec)
        ensures
            copied@ == self@,
    {
        ModelSpec {
            provider: text::copy(self.provider.as_str()),
            model: text::copy(self.model.as_str()),
            reasoning: text::copy(self.reasoning.as_str()),
        }
    }
}

proof fn lemma_take_free(s: Seq<char>, c: char)
    ensures
        !s.take(text::first_at(s, c, 0)).contains(c),
{
    text::lemma_first_at(s, c, 0);
    let head = s.take(text::first_at(s, c, 0));
    assert forall|i: int| 0 <= i < head.len() implies head[i] != c by {
        assert(head[i] == s[i]);
    }
}

/// Every selector that is read is well formed.
pub proof fn a_read_selector_is_well_formed(raw: Seq<char>)
    ensures
        spec_read(raw) matches SpecRead::Read(spec) ==> spec.well_formed(),
{
    if let SpecRead::Read(spec) = spec_read(raw) {
        let input = text::trimmed(raw);
        let colon = text::first_at(input, ':', 0);
        text::lemma_first_at(input, ':', 0);
        let value = input.take(colon);
        lemma_take_free(input, ':');
        let slash = text::first_at(value, '/', 0);
        text::lemma_first_at(value, '/', 0);
        lemma_take_free(value, '/');
        if slash < value.len() {
            assert forall|i: int| 0 <= i < spec.provider.len() implies spec.provider[i] != ':' by {
                assert(value.contains(value[i]));
            }
            assert forall|i: int| 0 <= i < spec.model.len() implies spec.model[i] != ':' by {
                assert(spec.model[i] == value[i + slash + 1]);
                assert(value.contains(value[i + slash + 1]));
            }
        } else {
            assert(value.take(slash) =~= value);
        }
    }
}

/// The canonical form of a selector that was read is the input, trimmed.
pub proof fn a_read_selector_keeps_its_text(raw: Seq<char>)
    ensures
        spec_read(raw) matches SpecRead::Read(spec) ==> spec.canonical() == text::trimmed(raw),
{
    if let SpecRead::Read(spec) = spec_read(raw) {
        reveal_strlit("/");
        reveal_strlit(":");
        let input = text::trimmed(raw);
        let colon = text::first_at(input, ':', 0);
        text::lemma_first_at(input, ':', 0);
        let value = input.take(colon);
        text::lemma_first_at(value, '/', 0);
        assert(spec.model_value() =~= value);
        if colon < input.len() {
            assert(spec.reasoning.len() > 0) by {
                if spec.reasoning.len() == 0 {
                    assert(input.last() == ':');
                }
            }
            assert(spec.canonical() =~= input);
        } else {
            assert(value =~= input);
        }
    }
}

proof fn lemma_no_space_ends(s: Seq<char>)
    requires
        !has_space(s),
    ensures
        s.len() == 0 || (!text::is_space(s[0]) && !text::is_space(s.last())),
{
}

/// A well-formed selector read back from its canonical form is the selector.
pub proof fn a_canonical_selector_reads_back(spec: SpecView)
    requires
        spec.well_formed(),
    ensures
        spec_read(spec.canonical()) == SpecRead::Read(spec),
{
    reveal_strlit("/");
    reveal_strlit(":");
    let raw = spec.canonical();
    let value = spec.model_value();
    assert(!has_space(value)) by {
        assert forall|i: int| 0 <= i < value.len() implies !text::is_space(#[trigger] value[i]) by {
            if spec.provider.len() > 0 {
                if i < spec.provider.len() {
                    assert(value[i] == spec.provider[i]);
                } else if i > spec.provider.len() {
                    assert(value[i] == spec.model[i - spec.provider.len() - 1]);
                }
            } else {
                assert(value[i] == spec.model[i]);
            }
        }
    }
    assert(!has_space(raw)) by {
        assert forall|i: int| 0 <= i < raw.len() implies !text::is_space(#[trigger] raw[i]) by {
            if i < value.len() {
                assert(raw[i] == value[i]);
            } else if i > value.len() {
                assert(raw[i] == spec.reasoning[i - value.len() - 1]);
            }
        }
    }
    lemma_no_space_ends(raw);
    text::lemma_trimmed_fixed(raw);
    assert forall|i: int| 0 <= i < value.len() implies value[i] != ':' by {
        if spec.provider.len() > 0 {
            if i < spec.provider.len() {
                assert(spec.provider.contains(spec.provider[i]));
            } else if i > spec.provider.len() {
                assert(spec.model.contains(spec.model[i - spec.provider.len() - 1]));
            }
        } else {
            assert(spec.model.contains(spec.model[i]));
        }
    }
    text::lemma_first_at_unique(raw, ':', 0, value.len() as int);
    assert(raw.take(value.len() as int) =~= value);
    if spec.reasoning.len() > 0 {
        assert(raw.skip(value.len() as int + 1) =~= spec.reasoning);
        assert(raw.last() == spec.reasoning.last());
        assert(spec.reasoning.contains(spec.reasoning.last()));
    } else {
        assert(raw.last() == value.last());
        assert(spec.reasoning =~= Seq::<char>::empty());
    }
    if spec.provider.len() > 0 {
        assert forall|i: int| 0 <= i < spec.provider.len() implies value[i] != '/' by {
            assert(spec.provider.contains(spec.provider[i]));
        }
        text::lemma_first_at_unique(value, '/', 0, spec.provider.len() as int);
        assert(value.take(spec.provider.len() as int) =~= spec.provider);
        assert(value.skip(spec.provider.len() as int + 1) =~= spec.model);
    } else {
        assert forall|i: int| 0 <= i < value.len() implies value[i] != '/' by {
            assert(spec.model.contains(spec.model[i]));
        }
        text::lemma_first_at_unique(value, '/', 0, value.len() as int);
        assert(spec.provider =~= Seq::<char>::empty());
    }
}

} // verus!
