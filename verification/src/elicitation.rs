//! Elicitation requests: questions that an agent asks the user through a form or
//! a web page.
//!
//! The functions here decide what is shown and what is answered; `None` stands
//! for an interaction that did not come in time.

use vstd::prelude::*;

use crate::commands::session;
use crate::discord::split;
use crate::ids::UserId;
use crate::json;
use crate::modal;
use crate::modal::{InputView, Modal, ModalInput, OptionView, SelectOption, Submitted, TextView};
use crate::numbers;
use crate::text;
use serde_json::Value;

verus! {

/// Message budget leaving room for elicitation formatting.
pub const MESSAGE_LIMIT: usize = 1900;

/// Maximum number of inputs supported by a Discord modal.
pub const MODAL_FIELDS_LIMIT: usize = 5;

/// Maximum Discord modal-title length.
pub const MODAL_TITLE_LIMIT: usize = 45;

/// Maximum Discord modal-field label length.
pub const FIELD_LABEL_LIMIT: usize = 45;

/// Maximum length of the agent's message.
pub const REQUEST_LIMIT: usize = 500;

/// Prefix used for elicitation status messages.
pub const FOOTER: &'static str = "📋 **elicitation** — ";

/// One property of a form.
#[derive(Clone, Debug)]
pub enum PropertySchema {
    /// A text, possibly one of several.
    Text {
        /// Human-readable title.
        title: Option<String>,
        /// Initial value.
        default: Option<String>,
        /// Possible values.
        enum_values: Option<Vec<String>>,
        /// Possible values with their titles.
        one_of: Option<Vec<(String, String)>>,
    },
    /// An integer.
    Integer {
        /// Human-readable title.
        title: Option<String>,
        /// Initial value.
        default: Option<i64>,
    },
    /// A number.
    Number {
        /// Human-readable title.
        title: Option<String>,
        /// Initial value, as it is shown.
        default: Option<String>,
    },
    /// A truth value.
    Boolean {
        /// Human-readable title.
        title: Option<String>,
        /// Initial value.
        default: Option<bool>,
    },
    /// A property that Discord cannot show.
    Other,
}

/// The form that an agent asks for.
#[derive(Clone, Debug)]
pub struct ElicitationSchema {
    /// Title of the form.
    pub title: Option<String>,
    /// Properties by name, in the order of their names.
    pub properties: Vec<(String, PropertySchema)>,
    /// Names of the properties that have to be given.
    pub required: Option<Vec<String>>,
    /// The form in its serialized form.
    pub raw: Value,
}

/// What a text input expects.
#[derive(Clone, Copy, Debug, PartialEq, Eq, Structural)]
pub enum Placeholder {
    /// Any text.
    Free,
    /// An integer.
    Integer,
    /// A number.
    Number,
}

/// A Discord-compatible input derived from a property.
#[derive(Clone, Debug)]
pub enum FieldInput {
    /// A free-form short text input.
    Text {
        /// Hint describing the expected primitive type.
        placeholder: Placeholder,
        /// Optional initial field value.
        default: Option<String>,
    },
    /// A bounded string-selection input.
    Select {
        /// Display-label and submitted-value pairs.
        options: Vec<(String, String)>,
        /// Optional initially selected value.
        default: Option<String>,
    },
}

/// The content of an input.
pub ghost enum FieldInputView {
    Text(Placeholder, Option<Seq<char>>),
    Select(Seq<(Seq<char>, Seq<char>)>, Option<Seq<char>>),
}

impl View for FieldInput {
    type V = FieldInputView;

    open spec fn view(&self) -> FieldInputView {
        match self {
            FieldInput::Text { placeholder, default } => FieldInputView::Text(
                *placeholder,
                text::opt_text(*default),
            ),
            FieldInput::Select { options, default } => FieldInputView::Select(
                text::keyed_views(options@),
                text::opt_text(*default),
            ),
        }
    }
}

/// One validated field in an elicitation modal.
#[derive(Clone, Debug)]
pub struct ModalField {
    /// Schema property name used as the component id.
    pub custom_id: String,
    /// Human-readable Discord label.
    pub label: String,
    /// Whether the schema requires a submitted value.
    pub required: bool,
    /// Discord component representation for the property.
    pub input: FieldInput,
}

/// The content of a field.
pub ghost struct FieldView {
    pub custom_id: Seq<char>,
    pub label: Seq<char>,
    pub required: bool,
    pub input: FieldInputView,
}

impl View for ModalField {
    type V = FieldView;

    open spec fn view(&self) -> FieldView {
        FieldView {
            custom_id: self.custom_id@,
            label: self.label@,
            required: self.required,
            input: self.input@,
        }
    }
}

/// A validated Discord modal derived from an elicitation schema.
#[derive(Clone, Debug)]
pub struct ModalSpec {
    /// Bounded modal title.
    pub title: String,
    /// Fields in schema presentation order.
    pub fields: Vec<ModalField>,
}

/// The content of fields.
pub open spec fn field_views(fields: Seq<ModalField>) -> Seq<FieldView> {
    fields.map_values(|field: ModalField| field@)
}

/// The title of a property, where it has one.
pub open spec fn title_of(property: PropertySchema) -> Option<Seq<char>> {
    match property {
        PropertySchema::Text { title, .. } => text::opt_text(title),
        PropertySchema::Integer { title, .. } => text::opt_text(title),
        PropertySchema::Number { title, .. } => text::opt_text(title),
        PropertySchema::Boolean { title, .. } => text::opt_text(title),
        PropertySchema::Other => None,
    }
}

/// The possible values of a text with their labels, where they are limited.
pub open spec fn limited_to(
    enum_values: Option<Vec<String>>,
    one_of: Option<Vec<(String, String)>>,
) -> Option<Seq<(Seq<char>, Seq<char>)>> {
    match enum_values {
        Some(values) => Some(
            text::texts(values@).map_values(|value: Seq<char>| (value, value)),
        ),
        None => match one_of {
            Some(options) => Some(text::keyed_views(options@)),
            None => None,
        },
    }
}

/// The input of a property, `None` where Discord cannot show it.
pub open spec fn input_of(property: PropertySchema) -> Option<FieldInputView> {
    match property {
        PropertySchema::Text { default, enum_values, one_of, .. } => Some(
            match limited_to(enum_values, one_of) {
                Some(options) => FieldInputView::Select(options, text::opt_text(default)),
                None => FieldInputView::Text(Placeholder::Free, text::opt_text(default)),
            },
        ),
        PropertySchema::Integer { default, .. } => Some(
            FieldInputView::Text(
                Placeholder::Integer,
                match default {
                    Some(value) => Some(numbers::signed_decimal(value as int)),
                    None => None,
                },
            ),
        ),
        PropertySchema::Number { default, .. } => Some(
            FieldInputView::Text(Placeholder::Number, text::opt_text(default)),
        ),
        PropertySchema::Boolean { default, .. } => Some(
            FieldInputView::Select(
                seq![("true"@, "true"@), ("false"@, "false"@)],
                match default {
                    Some(value) => Some(
                        if value {
                            "true"@
                        } else {
                            "false"@
                        },
                    ),
                    None => None,
                },
            ),
        ),
        PropertySchema::Other => None,
    }
}

/// A property has to be given.
pub open spec fn is_required(required: Option<Vec<String>>, name: Seq<char>) -> bool {
    match required {
        Some(names) => text::texts(names@).contains(name),
        None => false,
    }
}

/// The field of a property.
pub open spec fn field_of(
    schema: ElicitationSchema,
    name: Seq<char>,
    property: PropertySchema,
) -> FieldView {
    FieldView {
        custom_id: name,
        label: text::ellipsized(
            match title_of(property) {
                Some(title) => title,
                None => name,
            },
            FIELD_LABEL_LIMIT as nat,
        ),
        required: is_required(schema.required, name),
        input: input_of(property)->0,
    }
}

/// A form that Discord can show: with one to five fields, each of a kind that a
/// modal has.
pub open spec fn can_show(schema: ElicitationSchema) -> bool {
    &&& 0 < schema.properties@.len() <= MODAL_FIELDS_LIMIT
    &&& forall|i: int|
        0 <= i < schema.properties@.len() ==> input_of((#[trigger] schema.properties@[i]).1) is Some
}

/// The fields of a form.
pub open spec fn fields_of(schema: ElicitationSchema) -> Seq<FieldView> {
    schema.properties@.map_values(
        |entry: (String, PropertySchema)| field_of(schema, entry.0@, entry.1),
    )
}

/// The title of a form.
pub open spec fn form_title(schema: ElicitationSchema) -> Seq<char> {
    text::ellipsized(
        match schema.title {
            Some(title) => title@,
            None => "agent input"@,
        },
        MODAL_TITLE_LIMIT as nat,
    )
}

/// Extracts select-menu options from a string schema.
pub fn string_options(
    enum_values: &Option<Vec<String>>,
    one_of: &Option<Vec<(String, String)>>,
) -> (options: Option<Vec<(String, String)>>)
    ensures
        match (options, limited_to(*enum_values, *one_of)) {
            (Some(list), Some(expected)) => text::keyed_views(list@) == expected,
            (None, None) => true,
            _ => false,
        },
{
    let mut options: Vec<(String, String)> = Vec::new();
    if let Some(values) = enum_values {
        let mut i: usize = 0;
        while i < values.len()
            invariant
                i <= values@.len(),
                options@.len() == i,
                forall|j: int|
                    0 <= j < i ==> (#[trigger] options@[j]).0@ == values@[j]@ && options@[j].1@
                        == values@[j]@,
            decreases values@.len() - i,
        {
            options.push((text::copy(values[i].as_str()), text::copy(values[i].as_str())));
            i += 1;
        }
        assert(text::keyed_views(options@) =~= text::texts(values@).map_values(
            |value: Seq<char>| (value, value),
        ));
        return Some(options);
    }
    match one_of {
        Some(titled) => {
            let mut i: usize = 0;
            while i < titled.len()
                invariant
                    i <= titled@.len(),
                    options@.len() == i,
                    forall|j: int|
                        0 <= j < i ==> (#[trigger] options@[j]).0@ == titled@[j].0@
                            && options@[j].1@ == titled@[j].1@,
                decreases titled@.len() - i,
            {
                options.push((text::copy(titled[i].0.as_str()), text::copy(titled[i].1.as_str())));
                i += 1;
            }
            assert(text::keyed_views(options@) =~= text::keyed_views(titled@));
            Some(options)
        },
        None => None,
    }
}

fn field_input(property: &PropertySchema) -> (input: Option<FieldInput>)
    ensures
        match (input, input_of(*property)) {
            (Some(found), Some(expected)) => found@ == expected,
            (None, None) => true,
            _ => false,
        },
{
    match property {
        PropertySchema::Text { default, enum_values, one_of, .. } => Some(
            match string_options(enum_values, one_of) {
                Some(options) => FieldInput::Select { options, default: text::copy_opt(default) },
                None => FieldInput::Text {
                    placeholder: Placeholder::Free,
                    default: text::copy_opt(default),
                },
            },
        ),
        PropertySchema::Integer { default, .. } => Some(
            FieldInput::Text {
                placeholder: Placeholder::Integer,
                default: match default {
                    Some(value) => Some(numbers::format_i64(*value)),
                    None => None,
                },
            },
        ),
        PropertySchema::Number { default, .. } => Some(
            FieldInput::Text { placeholder: Placeholder::Number, default: text::copy_opt(default) },
        ),
        PropertySchema::Boolean { default, .. } => {
            let mut options: Vec<(String, String)> = Vec::new();
            options.push((text::copy("true"), text::copy("true")));
            options.push((text::copy("false"), text::copy("false")));
            assert(text::keyed_views(options@) =~= seq![("true"@, "true"@), ("false"@, "false"@)]);
            Some(
                FieldInput::Select {
                    options,
                    default: match default {
                        Some(value) => Some(
                            if *value {
                                text::copy("true")
                            } else {
                                text::copy("false")
                            },
                        ),
                        None => None,
                    },
                },
            )
        },
        PropertySchema::Other => None,
    }
}

fn find_required(required: &Option<Vec<String>>, name: &str) -> (result: bool)
    ensures
        result == is_required(*required, name@),
{
    match required {
        Some(names) => {
            let ghost all = text::texts(names@);
            let mut i: usize = 0;
            while i < names.len()
                invariant
                    i <= names@.len(),
                    *required == Some(*names),
                    all == text::texts(names@),
                    forall|j: int| 0 <= j < i ==> (#[trigger] all[j]) != name@,
                decreases names@.len() - i,
            {
                assert(all[i as int] == names@[i as int]@);
                if text::same(names[i].as_str(), name) {
                    return true;
                }
                i += 1;
            }
            false
        },
        None => false,
    }
}

fn field_label(name: &str, property: &PropertySchema) -> (label: String)
    ensures
        label@ == text::ellipsized(
            match title_of(*property) {
                Some(title) => title,
                None => name@,
            },
            FIELD_LABEL_LIMIT as nat,
        ),
{
    let title = match property {
        PropertySchema::Text { title, .. } => title,
        PropertySchema::Integer { title, .. } => title,
        PropertySchema::Number { title, .. } => title,
        PropertySchema::Boolean { title, .. } => title,
        PropertySchema::Other => &None,
    };
    match title {
        Some(title) => text::truncate_end(title.as_str(), FIELD_LABEL_LIMIT),
        None => text::truncate_end(name, FIELD_LABEL_LIMIT),
    }
}

/// Maps a restricted JSON schema onto Discord modal components, returning `None`
/// when the schema cannot be rendered faithfully.
pub fn modal_spec(schema: &ElicitationSchema) -> (spec: Option<ModalSpec>)
    ensures
        match spec {
            Some(shown) => can_show(*schema) && shown.title@ == form_title(*schema) && field_views(
                shown.fields@,
            ) == fields_of(*schema),
            None => !can_show(*schema),
        },
{
    let properties = &schema.properties;
    if properties.len() == 0 || properties.len() > MODAL_FIELDS_LIMIT {
        return None;
    }
    let mut fields: Vec<ModalField> = Vec::new();
    let mut i: usize = 0;
    while i < properties.len()
        invariant
            i <= properties@.len(),
            properties@ == schema.properties@,
            fields@.len() == i,
            forall|j: int| 0 <= j < i ==> input_of((#[trigger] properties@[j]).1) is Some,
            forall|j: int|
                0 <= j < i ==> (#[trigger] fields@[j])@ == field_of(
                    *schema,
                    properties@[j].0@,
                    properties@[j].1,
                ),
        decreases properties@.len() - i,
    {
        let name = properties[i].0.as_str();
        let property = &properties[i].1;
        match field_input(property) {
            Some(input) => {
                fields.push(
                    ModalField {
                        custom_id: text::copy(name),
                        label: field_label(name, property),
                        required: find_required(&schema.required, name),
                        input,
                    },
                );
            },
            None => {
                assert(input_of(schema.properties@[i as int].1) is None);
                return None;
            },
        }
        i += 1;
    }
    assert(field_views(fields@) =~= fields_of(*schema));
    let title = match &schema.title {
        Some(title) => text::truncate_end(title.as_str(), MODAL_TITLE_LIMIT),
        None => text::truncate_end("agent input", MODAL_TITLE_LIMIT),
    };
    Some(ModalSpec { title, fields })
}

/// What Discord shows of a form fits: its title, its number of fields and their
/// labels.
pub proof fn a_shown_form_fits_discord(schema: ElicitationSchema)
    requires
        can_show(schema),
    ensures
        form_title(schema).len() <= MODAL_TITLE_LIMIT,
        fields_of(schema).len() <= MODAL_FIELDS_LIMIT,
        forall|i: int|
            0 <= i < fields_of(schema).len() ==> (#[trigger] fields_of(schema)[i]).label.len()
                <= FIELD_LABEL_LIMIT,
{
}

/// How a text input hints at what it expects.
pub open spec fn hint_of(placeholder: Placeholder) -> Option<Seq<char>> {
    match placeholder {
        Placeholder::Free => None,
        Placeholder::Integer => Some("integer"@),
        Placeholder::Number => Some("number"@),
    }
}

/// What is shown for a field.
pub open spec fn component_of(field: FieldView) -> InputView {
    match field.input {
        FieldInputView::Text(placeholder, default) => InputView::Text(
            TextView {
                custom_id: field.custom_id,
                label: field.label,
                placeholder: hint_of(placeholder),
                value: default,
                paragraph: false,
                max_length: None,
                required: field.required,
            },
        ),
        FieldInputView::Select(options, default) => InputView::Select(
            field.custom_id,
            field.label,
            None,
            options.map_values(
                |option: (Seq<char>, Seq<char>)|
                    OptionView {
                        label: option.0,
                        value: option.1,
                        default: default == Some(option.1),
                    },
            ),
        ),
    }
}

fn build_component(field: &ModalField) -> (component: ModalInput)
    ensures
        component@ == component_of(field@),
{
    match &field.input {
        FieldInput::Text { placeholder, default } => ModalInput::Text {
            custom_id: text::copy(field.custom_id.as_str()),
            label: text::copy(field.label.as_str()),
            placeholder: match placeholder {
                Placeholder::Free => None,
                Placeholder::Integer => Some(text::copy("integer")),
                Placeholder::Number => Some(text::copy("number")),
            },
            value: text::copy_opt(default),
            paragraph: false,
            max_length: None,
            required: field.required,
        },
        FieldInput::Select { options, default } => {
            let ghost all = text::keyed_views(options@);
            let mut shown: Vec<SelectOption> = Vec::new();
            let mut i: usize = 0;
            while i < options.len()
                invariant
                    i <= options@.len(),
                    all == text::keyed_views(options@),
                    shown@.len() == i,
                    forall|j: int|
                        0 <= j < i ==> (#[trigger] shown@[j])@ == (OptionView {
                            label: all[j].0,
                            value: all[j].1,
                            default: text::opt_text(*default) == Some(all[j].1),
                        }),
                decreases options@.len() - i,
            {
                let value = options[i].1.as_str();
                assert(all[i as int] == (options@[i as int].0@, options@[i as int].1@));
                let selected = match default {
                    Some(initial) => text::same(initial.as_str(), value),
                    None => false,
                };
                shown.push(
                    SelectOption {
                        label: text::copy(options[i].0.as_str()),
                        value: text::copy(value),
                        default: selected,
                    },
                );
                i += 1;
            }
            assert(modal::option_views(shown@) =~= all.map_values(
                |option: (Seq<char>, Seq<char>)|
                    OptionView {
                        label: option.0,
                        value: option.1,
                        default: text::opt_text(*default) == Some(option.1),
                    },
            ));
            ModalInput::Select {
                custom_id: text::copy(field.custom_id.as_str()),
                label: text::copy(field.label.as_str()),
                placeholder: None,
                options: shown,
            }
        },
    }
}

/// Builds Discord modal components from a validated modal specification.
pub fn build_modal(modal_id: &str, spec: &ModalSpec) -> (built: Modal)
    ensures
        built.custom_id@ == modal_id@,
        built.title@ == spec.title@,
        modal::input_views(built.components@) == field_views(spec.fields@).map_values(
            |field: FieldView| component_of(field),
        ),
{
    let mut components: Vec<ModalInput> = Vec::new();
    let mut i: usize = 0;
    while i < spec.fields.len()
        invariant
            i <= spec.fields@.len(),
            components@.len() == i,
            forall|j: int|
                0 <= j < i ==> (#[trigger] components@[j])@ == component_of(spec.fields@[j]@),
        decreases spec.fields@.len() - i,
    {
        components.push(build_component(&spec.fields[i]));
        i += 1;
    }
    assert(modal::input_views(components@) =~= field_views(spec.fields@).map_values(
        |field: FieldView| component_of(field),
    ));
    Modal { custom_id: text::copy(modal_id), title: text::copy(spec.title.as_str()), components }
}

/// The value that a submitted component gives for an identifier, if any.
pub open spec fn gives(component: Submitted, id: Seq<char>) -> Option<Seq<char>> {
    match component {
        Submitted::Text { custom_id, value } if custom_id@ == id => Some(value@),
        Submitted::Select { custom_id, values } if custom_id@ == id && values@.len() > 0 => Some(
            values@[0]@,
        ),
        _ => None,
    }
}

/// The value that was submitted for an identifier: what the last component with
/// a value for it gives.
pub open spec fn given(components: Seq<Submitted>, id: Seq<char>) -> Option<Seq<char>>
    decreases components.len(),
{
    if components.len() == 0 {
        None
    } else {
        match gives(components.last(), id) {
            Some(value) => Some(value),
            None => given(components.drop_last(), id),
        }
    }
}

/// Extracts a submitted modal field value by schema property name.
pub fn parse_modal(components: &Vec<Submitted>, id: &str) -> (value: Option<String>)
    ensures
        text::opt_text(value) == given(components@, id@),
{
    let mut i: usize = components.len();
    assert(components@.take(i as int) =~= components@);
    while i > 0
        invariant
            i <= components@.len(),
            given(components@, id@) == given(components@.take(i as int), id@),
        decreases i,
    {
        let ghost head = components@.take(i as int);
        assert(head.drop_last() =~= components@.take(i - 1));
        match &components[i - 1] {
            Submitted::Text { custom_id, value } => {
                if text::same(custom_id.as_str(), id) {
                    return Some(text::copy(value.as_str()));
                }
            },
            Submitted::Select { custom_id, values } => {
                if text::same(custom_id.as_str(), id) && values.len() > 0 {
                    return Some(text::copy(values[0].as_str()));
                }
            },
            Submitted::Other => {},
        }
        i -= 1;
    }
    None
}

/// A value that is handed to the agent.
#[derive(Clone, Debug, PartialEq, Eq)]
pub enum ContentValue {
    /// A text.
    Text(String),
    /// An integer.
    Integer(i64),
    /// A number, as it was typed.
    Number(String),
}

/// The content of a value that is handed to the agent.
pub ghost enum ContentView {
    Text(Seq<char>),
    Integer(int),
    Number(Seq<char>),
}

impl View for ContentValue {
    type V = ContentView;

    open spec fn view(&self) -> ContentView {
        match self {
            ContentValue::Text(value) => ContentView::Text(value@),
            ContentValue::Integer(value) => ContentView::Integer(*value as int),
            ContentValue::Number(value) => ContentView::Number(value@),
        }
    }
}

/// What a submitted value comes to: a value for the agent, or what was expected.
/// `numeric` tells whether the value is a number.
pub open spec fn content_of(input: FieldInputView, value: Seq<char>, numeric: bool) -> Result<
    ContentView,
    Seq<char>,
> {
    match input {
        FieldInputView::Text(Placeholder::Integer, _) => match numbers::signed_in(value) {
            Some(n) => Ok(ContentView::Integer(n)),
            None => Err("an integer"@),
        },
        FieldInputView::Text(Placeholder::Number, _) => if numeric {
            Ok(ContentView::Number(value))
        } else {
            Err("a number"@)
        },
        _ => Ok(ContentView::Text(value)),
    }
}

/// What the submitted values of the first `count` fields come to: the values by
/// field, without those left blank, or the label of the first field with a wrong
/// value and what it expected.
pub open spec fn accepted(
    fields: Seq<FieldView>,
    components: Seq<Submitted>,
    numeric: Seq<bool>,
    count: int,
) -> Result<Seq<(Seq<char>, ContentView)>, (Seq<char>, Seq<char>)>
    decreases count,
{
    if count <= 0 {
        Ok(Seq::empty())
    } else {
        match accepted(fields, components, numeric, count - 1) {
            Err(problem) => Err(problem),
            Ok(content) => {
                let field = fields[count - 1];
                match given(components, field.custom_id) {
                    Some(value) if !text::is_blank(value) => match content_of(
                        field.input,
                        value,
                        numeric[count - 1],
                    ) {
                        Ok(item) => Ok(content.push((field.custom_id, item))),
                        Err(expected) => Err((field.label, expected)),
                    },
                    _ => Ok(content),
                }
            },
        }
    }
}

/// The content of values by field.
pub open spec fn content_views(content: Seq<(String, ContentValue)>) -> Seq<
    (Seq<char>, ContentView),
> {
    content.map_values(|item: (String, ContentValue)| (item.0@, item.1@))
}

/// How an elicitation is answered.
#[derive(Clone, Debug, PartialEq, Eq)]
pub enum Response {
    /// The user accepted, with these values.
    Accept(Vec<(String, ContentValue)>),
    /// The user declined.
    Decline,
    /// The elicitation could not be carried out.
    Cancel,
}

/// The content of an answer.
pub ghost enum ResponseView {
    Accept(Seq<(Seq<char>, ContentView)>),
    Decline,
    Cancel,
}

impl View for Response {
    type V = ResponseView;

    open spec fn view(&self) -> ResponseView {
        match self {
            Response::Accept(content) => ResponseView::Accept(content_views(content@)),
            Response::Decline => ResponseView::Decline,
            Response::Cancel => ResponseView::Cancel,
        }
    }
}

/// The end of an elicitation: what its message is replaced by, if it is, and the
/// answer to the agent.
pub struct Ending {
    /// New content of the message.
    pub edit: Option<String>,
    /// Answer to the agent.
    pub response: Response,
}

/// The content of an end.
pub open spec fn ending_view(ending: Ending) -> (Option<Seq<char>>, ResponseView) {
    (text::opt_text(ending.edit), ending.response@)
}

fn content_value(input: &FieldInput, value: String, numeric: bool) -> (result: Result<
    ContentValue,
    &'static str,
>)
    ensures
        match (result, content_of(input@, value@, numeric)) {
            (Ok(item), Ok(expected)) => item@ == expected,
            (Err(shown), Err(expected)) => shown@ == expected,
            _ => false,
        },
{
    match input {
        FieldInput::Select { .. } => Ok(ContentValue::Text(value)),
        FieldInput::Text { placeholder, .. } => match placeholder {
            Placeholder::Integer => match numbers::parse_i64(value.as_str()) {
                Some(parsed) => Ok(ContentValue::Integer(parsed)),
                None => Err("an integer"),
            },
            Placeholder::Number => if numeric {
                Ok(ContentValue::Number(value))
            } else {
                Err("a number")
            },
            Placeholder::Free => Ok(ContentValue::Text(value)),
        },
    }
}

/// How a submitted modal ends an elicitation.
pub open spec fn submitted_end(
    fields: Seq<FieldView>,
    components: Seq<Submitted>,
    numeric: Seq<bool>,
) -> (Option<Seq<char>>, ResponseView) {
    match accepted(fields, components, numeric, fields.len() as int) {
        Ok(content) => (Some(FOOTER@ + "submitted"@), ResponseView::Accept(content)),
        Err((label, expected)) => (
            Some(FOOTER@ + "cancelled: `"@ + label + "` must be "@ + expected),
            ResponseView::Cancel,
        ),
    }
}

proof fn lemma_rejected(
    fields: Seq<FieldView>,
    components: Seq<Submitted>,
    numeric: Seq<bool>,
    count: int,
    all: int,
)
    requires
        0 <= count <= all,
        accepted(fields, components, numeric, count) is Err,
    ensures
        accepted(fields, components, numeric, all) == accepted(fields, components, numeric, count),
    decreases all - count,
{
    if count < all {
        lemma_rejected(fields, components, numeric, count, all - 1);
    }
}

/// Validates submitted modal values and accepts the elicitation. `numeric` tells
/// for each field whether its submitted value is a number.
pub fn accept_modal(spec: &ModalSpec, components: &Vec<Submitted>, numeric: &Vec<bool>) -> (ending:
    Ending)
    requires
        numeric@.len() == spec.fields@.len(),
    ensures
        ending_view(ending) == submitted_end(field_views(spec.fields@), components@, numeric@),
{
    let ghost fields = field_views(spec.fields@);
    let mut content: Vec<(String, ContentValue)> = Vec::new();
    let mut i: usize = 0;
    assert(content_views(content@) =~= Seq::empty());
    while i < spec.fields.len()
        invariant
            i <= spec.fields@.len(),
            fields == field_views(spec.fields@),
            fields.len() == spec.fields@.len(),
            numeric@.len() == spec.fields@.len(),
            accepted(fields, components@, numeric@, i as int) == Ok::<
                Seq<(Seq<char>, ContentView)>,
                (Seq<char>, Seq<char>),
            >(content_views(content@)),
        decreases spec.fields@.len() - i,
    {
        let field = &spec.fields[i];
        let ghost before = content_views(content@);
        assert(fields[i as int] == field@);
        if let Some(value) = parse_modal(components, field.custom_id.as_str()) {
            if !text::blank(value.as_str()) {
                match content_value(&field.input, value, numeric[i]) {
                    Ok(item) => {
                        let ghost added = (field.custom_id@, item@);
                        content.push((text::copy(field.custom_id.as_str()), item));
                        assert(content_views(content@) =~= before.push(added));
                    },
                    Err(expected) => {
                        proof {
                            lemma_rejected(
                                fields,
                                components@,
                                numeric@,
                                i + 1,
                                fields.len() as int,
                            );
                        }
                        let edit = text::join5(
                            FOOTER,
                            "cancelled: `",
                            field.label.as_str(),
                            "` must be ",
                            expected,
                        );
                        return Ending { edit: Some(edit), response: Response::Cancel };
                    },
                }
            }
        }
        i += 1;
    }
    Ending {
        edit: Some(text::join2(FOOTER, "submitted")),
        response: Response::Accept(content),
    }
}

/// How an elicitation is presented.
pub enum Mode {
    /// A form.
    Form(ElicitationSchema),
    /// A web page.
    Url(String),
    /// A mode that is not known.
    Other,
}

/// What a button does and how it looks.
#[derive(Clone, Copy, Debug, PartialEq, Eq, Structural)]
pub enum ElicitButtonKind {
    /// Opens a page.
    Link,
    /// The main action.
    Primary,
    /// Consent.
    Success,
    /// A refusal.
    Danger,
}

/// One button of an elicitation message.
pub struct ElicitButton {
    /// Identifier that Discord hands back, or the page that the button opens.
    pub target: String,
    /// What the button does and how it looks.
    pub kind: ElicitButtonKind,
    /// Visible label.
    pub label: &'static str,
}

/// The content of a button.
pub ghost struct ElicitButtonView {
    pub target: Seq<char>,
    pub kind: ElicitButtonKind,
    pub label: Seq<char>,
}

/// The content of buttons.
pub open spec fn elicit_buttons(buttons: Seq<ElicitButton>) -> Seq<ElicitButtonView> {
    buttons.map_values(
        |button: ElicitButton|
            ElicitButtonView { target: button.target@, kind: button.kind, label: button.label@ },
    )
}

/// The buttons below a form's message.
pub open spec fn form_buttons(nonce: u64) -> Seq<ElicitButtonView> {
    seq![
        ElicitButtonView {
            target: component_id(nonce, "form"@),
            kind: ElicitButtonKind::Primary,
            label: "Fill form"@,
        },
        ElicitButtonView {
            target: component_id(nonce, "decline"@),
            kind: ElicitButtonKind::Danger,
            label: "Decline"@,
        },
    ]
}

/// The buttons below a page's message.
pub open spec fn page_buttons(url: Seq<char>, nonce: u64) -> Seq<ElicitButtonView> {
    seq![
        ElicitButtonView { target: url, kind: ElicitButtonKind::Link, label: "Open URL"@ },
        ElicitButtonView {
            target: component_id(nonce, "consent"@),
            kind: ElicitButtonKind::Success,
            label: "I opened it"@,
        },
        ElicitButtonView {
            target: component_id(nonce, "decline"@),
            kind: ElicitButtonKind::Danger,
            label: "Decline"@,
        },
    ]
}

/// The first step of an elicitation.
pub enum Presentation {
    /// Post these messages, and decline.
    Refuse(Vec<String>),
    /// Decline without a message.
    Decline,
    /// Post this message with these buttons.
    Ask {
        /// Content of the message.
        content: String,
        /// Buttons below it.
        buttons: Vec<ElicitButton>,
        /// The form behind the buttons, if any.
        form: Option<ModalSpec>,
    },
}

/// The identifier of a component of an elicitation.
pub open spec fn component_id(nonce: u64, part: Seq<char>) -> Seq<char> {
    "agentcord:elicit:"@ + numbers::decimal(nonce as nat) + ":"@ + part
}

/// Makes the identifier of a component of an elicitation.
pub fn make_id(nonce: u64, part: &str) -> (id: String)
    ensures
        id@ == component_id(nonce, part@),
{
    text::join4("agentcord:elicit:", numbers::format_u64(nonce).as_str(), ":", part)
}

/// The message that introduces an elicitation.
pub open spec fn intro(agent_name: Seq<char>, message: Seq<char>) -> Seq<char> {
    "📋 **"@ + text::without2(agent_name, '@', '`') + " needs input** — "@ + message
}

/// Why a form cannot be shown.
pub open spec fn refusal(schema: ElicitationSchema) -> Seq<char> {
    if schema.properties@.len() > MODAL_FIELDS_LIMIT {
        "the form has "@ + numbers::decimal(schema.properties@.len())
            + " fields, but Discord modals support at most 5"@
    } else {
        "the form contains field types agentcord cannot render"@
    }
}

/// The message about a form that cannot be shown.
pub open spec fn refused_form(agent_name: Seq<char>, message: Seq<char>, schema: ElicitationSchema) -> Seq<
    char,
> {
    intro(agent_name, message) + "\ncannot present this form: "@ + refusal(schema)
        + "\n```json\n"@ + json::json_pretty(json::json_of(schema.raw)) + "\n```"@
}

/// The message about a page that is not shown.
pub open spec fn refused_page(agent_name: Seq<char>) -> Seq<char> {
    text::without2(agent_name, '@', '`')
        + " requested an elicitation at a non-HTTPS URL, which agentcord declines"@
}

fn intro_text(agent_name: &str, message: &str) -> (content: String)
    ensures
        content@ == intro(agent_name@, message@),
{
    let name = text::remove2(agent_name, '@', '`');
    text::join4("📋 **", name.as_str(), " needs input** — ", message)
}

/// Reports why an unsupported form schema was declined.
pub fn reject_schema(agent_name: &str, message: &str, schema: &ElicitationSchema) -> (chunks: Vec<
    String,
>)
    ensures
        text::texts(chunks@) == split::split_of(
            refused_form(agent_name@, message@, *schema),
            MESSAGE_LIMIT as nat,
        ),
{
    let reason = if schema.properties.len() > MODAL_FIELDS_LIMIT {
        text::join3(
            "the form has ",
            numbers::format_usize(schema.properties.len()).as_str(),
            " fields, but Discord modals support at most 5",
        )
    } else {
        text::copy("the form contains field types agentcord cannot render")
    };
    let pretty = match json::write_pretty(&schema.raw) {
        Ok(pretty) => pretty,
        Err(_) => String::new(),
    };
    let head = text::join3(
        intro_text(agent_name, message).as_str(),
        "\ncannot present this form: ",
        reason.as_str(),
    );
    let content = text::join4(head.as_str(), "\n```json\n", pretty.as_str(), "\n```");
    split::split_message(content.as_str(), MESSAGE_LIMIT)
}

/// Whether a step presents a form: as a button that opens it, or as the form
/// itself where Discord cannot show it.
pub open spec fn presents_form(
    step: Presentation,
    agent_name: Seq<char>,
    message: Seq<char>,
    schema: ElicitationSchema,
    nonce: u64,
) -> bool {
    if can_show(schema) {
        step matches Presentation::Ask { content, buttons, form: Some(spec) } && content@
            == intro(agent_name, message) && elicit_buttons(buttons@) == form_buttons(
            nonce,
        ) && spec.title@ == form_title(schema) && field_views(spec.fields@) == fields_of(
            schema,
        )
    } else {
        step matches Presentation::Refuse(chunks) && text::texts(chunks@) == split::split_of(
            refused_form(agent_name, message, schema),
            MESSAGE_LIMIT as nat,
        )
    }
}

/// Presents a supported elicitation schema as a Discord modal behind a button.
pub fn present_form(agent_name: &str, message: &str, schema: &ElicitationSchema, nonce: u64) -> (step:
    Presentation)
    ensures
        presents_form(step, agent_name@, message@, *schema, nonce),
{
    match modal_spec(schema) {
        Some(spec) => {
            let mut buttons: Vec<ElicitButton> = Vec::new();
            buttons.push(
                ElicitButton {
                    target: make_id(nonce, "form"),
                    kind: ElicitButtonKind::Primary,
                    label: "Fill form",
                },
            );
            buttons.push(
                ElicitButton {
                    target: make_id(nonce, "decline"),
                    kind: ElicitButtonKind::Danger,
                    label: "Decline",
                },
            );
            assert(elicit_buttons(buttons@) =~= form_buttons(nonce));
            Presentation::Ask { content: intro_text(agent_name, message), buttons, form: Some(spec) }
        },
        None => Presentation::Refuse(reject_schema(agent_name, message, schema)),
    }
}

/// The message that presents a page.
pub open spec fn page_message(agent_name: Seq<char>, message: Seq<char>, url: Seq<char>) -> Seq<
    char,
> {
    intro(
        agent_name,
        message + "\nURL: "@ + url + "\nOnly consent if you recognize this address."@,
    )
}

/// Whether a step presents a page: as a link with its consent, which only a secure
/// address gets.
pub open spec fn presents_page(
    step: Presentation,
    agent_name: Seq<char>,
    message: Seq<char>,
    url: Seq<char>,
    nonce: u64,
) -> bool {
    if text::starts_with(url, "https://"@) {
        step matches Presentation::Ask { content, buttons, form: None } && content@
            == page_message(agent_name, message, url) && elicit_buttons(buttons@) == page_buttons(url, nonce)
    } else {
        step matches Presentation::Refuse(chunks) && text::texts(chunks@) == seq![
            refused_page(agent_name),
        ]
    }
}

/// Presents a secure URL elicitation; a page that is not secure is declined.
pub fn present_url(agent_name: &str, message: &str, url: &str, nonce: u64) -> (step: Presentation)
    ensures
        presents_page(step, agent_name@, message@, url@, nonce),
{
    if !text::starts(url, "https://") {
        let name = text::remove2(agent_name, '@', '`');
        let mut chunks: Vec<String> = Vec::new();
        chunks.push(
            text::join2(
                name.as_str(),
                " requested an elicitation at a non-HTTPS URL, which agentcord declines",
            ),
        );
        assert(text::texts(chunks@) =~= seq![refused_page(agent_name@)]);
        return Presentation::Refuse(chunks);
    }
    let question = text::join4(
        message,
        "\nURL: ",
        url,
        "\nOnly consent if you recognize this address.",
    );
    let mut buttons: Vec<ElicitButton> = Vec::new();
    buttons.push(
        ElicitButton {
            target: text::copy(url),
            kind: ElicitButtonKind::Link,
            label: "Open URL",
        },
    );
    buttons.push(
        ElicitButton {
            target: make_id(nonce, "consent"),
            kind: ElicitButtonKind::Success,
            label: "I opened it",
        },
    );
    buttons.push(
        ElicitButton {
            target: make_id(nonce, "decline"),
            kind: ElicitButtonKind::Danger,
            label: "Decline",
        },
    );
    assert(elicit_buttons(buttons@) =~= page_buttons(url@, nonce));
    Presentation::Ask {
        content: intro_text(agent_name, question.as_str()),
        buttons,
        form: None,
    }
}

/// The agent's message as it is shown.
pub open spec fn shown_message(message: Seq<char>) -> Seq<char> {
    text::ellipsized(message, REQUEST_LIMIT as nat)
}

/// Presents an elicitation request to the allowed user. A request that belongs to
/// no session has no thread to surface in, and an unknown mode must not be
/// rendered as a known one: both are declined.
pub fn handle(
    request_scoped: bool,
    agent_name: &str,
    message: &str,
    mode: &Mode,
    nonce: u64,
) -> (step: Presentation)
    ensures
        if request_scoped {
            step is Decline
        } else {
            match *mode {
                Mode::Form(schema) => presents_form(
                    step,
                    agent_name@,
                    shown_message(message@),
                    schema,
                    nonce,
                ),
                Mode::Url(url) => presents_page(
                    step,
                    agent_name@,
                    shown_message(message@),
                    url@,
                    nonce,
                ),
                Mode::Other => step is Decline,
            }
        },
{
    if request_scoped {
        return Presentation::Decline;
    }
    let shown = text::truncate_end(message, REQUEST_LIMIT);
    match mode {
        Mode::Form(schema) => present_form(agent_name, shown.as_str(), schema, nonce),
        Mode::Url(url) => present_url(agent_name, shown.as_str(), url.as_str(), nonce),
        Mode::Other => Presentation::Decline,
    }
}

/// What a pressed button leads to.
pub enum Press {
    /// Tell the user that they may not answer, and go on waiting.
    Unauthorized,
    /// Show the form.
    ShowModal(Modal),
    /// Replace the message and answer the agent.
    End(Ending),
}

/// The notice to a user who may not answer.
pub const UNAUTHORIZED: &'static str = "you are not allowed to answer this request";

/// No two elicitations share an identifier, and neither do two parts of one.
pub proof fn component_ids_are_unique(
    nonce: u64,
    part: Seq<char>,
    other_nonce: u64,
    other_part: Seq<char>,
)
    requires
        component_id(nonce, part) == component_id(other_nonce, other_part),
    ensures
        nonce == other_nonce,
        part == other_part,
{
    reveal_strlit(":");
    let prefix = "agentcord:elicit:"@;
    let own = numbers::decimal(nonce as nat);
    let other = numbers::decimal(other_nonce as nat);
    numbers::lemma_decimal_digits(nonce as nat);
    numbers::lemma_decimal_digits(other_nonce as nat);
    let own_rest = own + ":"@ + part;
    let other_rest = other + ":"@ + other_part;
    assert(component_id(nonce, part).skip(prefix.len() as int) =~= own_rest);
    assert(component_id(other_nonce, other_part).skip(prefix.len() as int) =~= other_rest);
    assert(own_rest[own.len() as int] == ':');
    assert(other_rest[other.len() as int] == ':');
    if own.len() < other.len() {
        assert(numbers::is_digit(other[own.len() as int]));
        assert(other_rest[own.len() as int] == other[own.len() as int]);
    } else if other.len() < own.len() {
        assert(numbers::is_digit(own[other.len() as int]));
        assert(own_rest[other.len() as int] == own[other.len() as int]);
    }
    assert(own =~= own_rest.take(own.len() as int));
    assert(other =~= other_rest.take(other.len() as int));
    numbers::decimal_is_injective(nonce as nat, other_nonce as nat);
    assert(part =~= own_rest.skip(own.len() as int + 1));
    assert(other_part =~= other_rest.skip(other.len() as int + 1));
}

/// Waits for the next component interaction from the allowed user, answering
/// everyone else with a notice; decides what a pressed button leads to.
pub fn allowed_interaction(
    user: UserId,
    allowed_user: UserId,
    custom_id: &str,
    nonce: u64,
    form: &Option<ModalSpec>,
) -> (press: Press)
    ensures
        if user != allowed_user {
            press is Unauthorized
        } else {
            match *form {
                Some(spec) => if custom_id@ == component_id(nonce, "decline"@) {
                    press matches Press::End(ending) && ending_view(ending) == (
                        Some(FOOTER@ + "declined by the user"@),
                        ResponseView::Decline,
                    )
                } else {
                    press matches Press::ShowModal(shown) && shown.custom_id@ == component_id(
                        nonce,
                        "modal"@,
                    ) && shown.title@ == spec.title@ && modal::input_views(shown.components@)
                        == field_views(spec.fields@).map_values(
                        |field: FieldView| component_of(field),
                    )
                },
                None => press matches Press::End(ending) && ending_view(ending)
                    == if custom_id@ == component_id(nonce, "consent"@) {
                    (Some(FOOTER@ + "consented"@), ResponseView::Accept(Seq::empty()))
                } else {
                    (Some(FOOTER@ + "declined by the user"@), ResponseView::Decline)
                },
            }
        },
{
    if !session::allowed(user, allowed_user) {
        return Press::Unauthorized;
    }
    match form {
        Some(spec) => {
            if text::same(custom_id, make_id(nonce, "decline").as_str()) {
                Press::End(
                    Ending {
                        edit: Some(text::join2(FOOTER, "declined by the user")),
                        response: Response::Decline,
                    },
                )
            } else {
                Press::ShowModal(build_modal(make_id(nonce, "modal").as_str(), spec))
            }
        },
        None => {
            if text::same(custom_id, make_id(nonce, "consent").as_str()) {
                let content: Vec<(String, ContentValue)> = Vec::new();
                assert(content_views(content@) =~= Seq::empty());
                Press::End(
                    Ending {
                        edit: Some(text::join2(FOOTER, "consented")),
                        response: Response::Accept(content),
                    },
                )
            } else {
                Press::End(
                    Ending {
                        edit: Some(text::join2(FOOTER, "declined by the user")),
                        response: Response::Decline,
                    },
                )
            }
        },
    }
}

/// What else can end an elicitation.
#[derive(Clone, Copy, Debug, PartialEq, Eq, Structural)]
pub enum Interruption {
    /// The message could not be posted.
    NotPosted,
    /// No button was pressed in time.
    TimedOut,
    /// The form could not be shown.
    NotShown,
    /// The form was not submitted in time.
    Dismissed,
}

/// Ends an elicitation that was interrupted.
pub fn interrupted(interruption: Interruption) -> (ending: Ending)
    ensures
        ending_view(ending) == match interruption {
            Interruption::NotPosted => (None::<Seq<char>>, ResponseView::Cancel),
            Interruption::TimedOut => (
                Some(FOOTER@ + "timed out and was declined"@),
                ResponseView::Decline,
            ),
            Interruption::NotShown => (None, ResponseView::Cancel),
            Interruption::Dismissed => (
                Some(FOOTER@ + "dismissed by the user"@),
                ResponseView::Cancel,
            ),
        },
{
    match interruption {
        Interruption::NotPosted => Ending { edit: None, response: Response::Cancel },
        Interruption::TimedOut => Ending {
            edit: Some(text::join2(FOOTER, "timed out and was declined")),
            response: Response::Decline,
        },
        Interruption::NotShown => Ending { edit: None, response: Response::Cancel },
        Interruption::Dismissed => Ending {
            edit: Some(text::join2(FOOTER, "dismissed by the user")),
            response: Response::Cancel,
        },
    }
}

/// The response sent when an elicitation cannot be surfaced to the user.
pub fn declined_response() -> (response: Response)
    ensures
        response@ is Decline,
{
    Response::Decline
}

/// Accepted values belong to fields of the form, none of them blank, in the order
/// of the fields.
pub proof fn accepted_values_belong_to_the_form(
    fields: Seq<FieldView>,
    components: Seq<Submitted>,
    numeric: Seq<bool>,
    count: int,
)
    requires
        0 <= count <= fields.len(),
    ensures
        accepted(fields, components, numeric, count) matches Ok(content) ==> forall|k: int|
            0 <= k < content.len() ==> exists|i: int|
                0 <= i < count && (#[trigger] fields[i]).custom_id == (#[trigger] content[k]).0 && (
                given(components, fields[i].custom_id) matches Some(value) && !text::is_blank(
                    value,
                ) && content_of(fields[i].input, value, numeric[i]) == Ok::<
                    ContentView,
                    Seq<char>,
                >(content[k].1)),
    decreases count,
{
    if count > 0 {
        accepted_values_belong_to_the_form(fields, components, numeric, count - 1);
        if let Ok(content) = accepted(fields, components, numeric, count) {
            let before = accepted(fields, components, numeric, count - 1)->Ok_0;
            assert forall|k: int| 0 <= k < content.len() implies exists|i: int|
                0 <= i < count && (#[trigger] fields[i]).custom_id == (#[trigger] content[k]).0 && (
                given(components, fields[i].custom_id) matches Some(value) && !text::is_blank(
                    value,
                ) && content_of(fields[i].input, value, numeric[i]) == Ok::<
                    ContentView,
                    Seq<char>,
                >(content[k].1)) by {
                if k < before.len() {
                    assert(content[k] == before[k]);
                } else {
                    assert(fields[count - 1].custom_id == content[k].0);
                }
            }
        }
    }
}

} // verus!
