//! Discord modals: what is shown, and what comes back.

use vstd::prelude::*;

use crate::text;

verus! {

/// One option of a select menu.
#[derive(Clone, Debug, PartialEq, Eq)]
pub struct SelectOption {
    /// Label shown to the user.
    pub label: String,
    /// Value handed back.
    pub value: String,
    /// Whether the option is selected at first.
    pub default: bool,
}

/// The content of an option of a select menu.
pub ghost struct OptionView {
    pub label: Seq<char>,
    pub value: Seq<char>,
    pub default: bool,
}

impl View for SelectOption {
    type V = OptionView;

    open spec fn view(&self) -> OptionView {
        OptionView { label: self.label@, value: self.value@, default: self.default }
    }
}

/// The content of the options of a select menu.
pub open spec fn option_views(options: Seq<SelectOption>) -> Seq<OptionView> {
    options.map_values(|option: SelectOption| option@)
}

/// One component of a modal.
#[derive(Clone, Debug, PartialEq, Eq)]
pub enum ModalInput {
    /// A select menu.
    Select {
        /// Identifies the component.
        custom_id: String,
        /// Label of the component.
        label: String,
        /// Text shown while nothing is selected.
        placeholder: Option<String>,
        /// Options, in order.
        options: Vec<SelectOption>,
    },
    /// A text input.
    Text {
        /// Identifies the component.
        custom_id: String,
        /// Label of the component.
        label: String,
        /// Text shown while the input is empty.
        placeholder: Option<String>,
        /// Text that the input holds at first.
        value: Option<String>,
        /// Whether the input spans several lines.
        paragraph: bool,
        /// Most characters that the input takes.
        max_length: Option<u16>,
        /// Whether a value has to be given.
        required: bool,
    },
}

/// The content of a text input.
pub ghost struct TextView {
    pub custom_id: Seq<char>,
    pub label: Seq<char>,
    pub placeholder: Option<Seq<char>>,
    pub value: Option<Seq<char>>,
    pub paragraph: bool,
    pub max_length: Option<u16>,
    pub required: bool,
}

/// The content of a component.
pub ghost enum InputView {
    Select(Seq<char>, Seq<char>, Option<Seq<char>>, Seq<OptionView>),
    Text(TextView),
}

impl View for ModalInput {
    type V = InputView;

    open spec fn view(&self) -> InputView {
        match self {
            ModalInput::Select { custom_id, label, placeholder, options } => InputView::Select(
                custom_id@,
                label@,
                text::opt_text(*placeholder),
                option_views(options@),
            ),
            ModalInput::Text {
                custom_id,
                label,
                placeholder,
                value,
                paragraph,
                max_length,
                required,
            } => InputView::Text(
                TextView {
                    custom_id: custom_id@,
                    label: label@,
                    placeholder: text::opt_text(*placeholder),
                    value: text::opt_text(*value),
                    paragraph: *paragraph,
                    max_length: *max_length,
                    required: *required,
                },
            ),
        }
    }
}

/// A modal.
#[derive(Clone, Debug, PartialEq, Eq)]
pub struct Modal {
    /// Identifies the modal.
    pub custom_id: String,
    /// Title of the modal.
    pub title: String,
    /// Components, in order.
    pub components: Vec<ModalInput>,
}

/// The content of components.
pub open spec fn input_views(inputs: Seq<ModalInput>) -> Seq<InputView> {
    inputs.map_values(|input: ModalInput| input@)
}

/// One component of a submitted modal.
#[derive(Clone, Debug, PartialEq, Eq)]
pub enum Submitted {
    /// The selected values of a select menu.
    Select {
        /// Identifies the component.
        custom_id: String,
        /// Selected values, in order.
        values: Vec<String>,
    },
    /// The text of an input.
    Text {
        /// Identifies the component.
        custom_id: String,
        /// Entered text.
        value: String,
    },
    /// A component of another kind.
    Other,
}

/// What a component says for an identifier, where it is about that identifier: a
/// select menu without a selection says `None`.
pub open spec fn says(component: Submitted, select: bool, id: Seq<char>) -> Option<
    Option<Seq<char>>,
> {
    match component {
        Submitted::Select { custom_id, values } if select && custom_id@ == id => Some(
            if values@.len() > 0 {
                Some(values@[0]@)
            } else {
                None
            },
        ),
        Submitted::Text { custom_id, value } if !select && custom_id@ == id => Some(Some(value@)),
        _ => None,
    }
}

/// The value that a submitted modal holds for a component: what the last such
/// component says.
pub open spec fn submitted(components: Seq<Submitted>, select: bool, id: Seq<char>) -> Option<
    Seq<char>,
>
    decreases components.len(),
{
    if components.len() == 0 {
        None
    } else {
        match says(components.last(), select, id) {
            Some(said) => said,
            None => submitted(components.drop_last(), select, id),
        }
    }
}

/// Reads the value that a submitted modal holds for a component.
pub fn read_submitted(components: &Vec<Submitted>, select: bool, id: &str) -> (value: Option<
    String,
>)
    ensures
        text::opt_text(value) == submitted(components@, select, id@),
{
    let mut i: usize = components.len();
    assert(components@.take(i as int) =~= components@);
    while i > 0
        invariant
            i <= components@.len(),
            submitted(components@, select, id@) == submitted(
                components@.take(i as int),
                select,
                id@,
            ),
        decreases i,
    {
        let ghost head = components@.take(i as int);
        assert(head.drop_last() =~= components@.take(i - 1));
        match &components[i - 1] {
            Submitted::Select { custom_id, values } => {
                if select && text::same(custom_id.as_str(), id) {
                    return if values.len() > 0 {
                        Some(text::copy(values[0].as_str()))
                    } else {
                        None
                    };
                }
            },
            Submitted::Text { custom_id, value } => {
                if !select && text::same(custom_id.as_str(), id) {
                    return Some(text::copy(value.as_str()));
                }
            },
            Submitted::Other => {},
        }
        i -= 1;
    }
    None
}

} // verus!
