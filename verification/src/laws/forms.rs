//! Laws of elicitation forms.

use vstd::prelude::*;

use crate::elicitation;
use crate::elicitation::{
    ContentView, ElicitationSchema, FieldInputView, FieldView, Placeholder, Presentation,
    PropertySchema, ResponseView,
};
use crate::laws::tools;
use crate::modal::{InputView, Submitted};
use crate::numbers;
use crate::text;

verus! {

/// The component was submitted for an identifier with a value: a text input with
/// its text, or a select menu with its first selected value.
pub open spec fn submits(component: Submitted, id: Seq<char>, value: Seq<char>) -> bool {
    match component {
        Submitted::Text { custom_id, value: typed } => custom_id@ == id && typed@ == value,
        Submitted::Select { custom_id, values } => custom_id@ == id && values@.len() > 0
            && values@[0]@ == value,
        Submitted::Other => false,
    }
}

/// The component at a position is the last that was submitted for an identifier
/// with a value, and this is the value.
pub open spec fn submits_last(
    components: Seq<Submitted>,
    at: int,
    id: Seq<char>,
    value: Seq<char>,
) -> bool {
    &&& 0 <= at < components.len()
    &&& submits(components[at], id, value)
    &&& forall|later: int, other: Seq<char>|
        at < later < components.len() ==> !#[trigger] submits(components[later], id, other)
}

/// Nothing was submitted for an identifier.
pub open spec fn submits_nothing(components: Seq<Submitted>, id: Seq<char>) -> bool {
    forall|k: int, value: Seq<char>|
        0 <= k < components.len() ==> !#[trigger] submits(components[k], id, value)
}

/// What was submitted last for an identifier is what is read for it, from a text
/// input as from a select menu, and nothing is read only where nothing was
/// submitted.
pub proof fn a_submitted_value_is_read(components: Seq<Submitted>, id: Seq<char>)
    ensures
        forall|at: int, value: Seq<char>|
            #[trigger] submits_last(components, at, id, value) ==> elicitation::given(
                components,
                id,
            ) == Some(value),
        elicitation::given(components, id) matches Some(value) ==> exists|at: int|
            #[trigger] submits_last(components, at, id, value),
        elicitation::given(components, id) is None <==> submits_nothing(components, id),
    decreases components.len(),
{
    if components.len() > 0 {
        let before = components.drop_last();
        let last = components.len() - 1;
        a_submitted_value_is_read(before, id);
        let found = elicitation::gives(components.last(), id);
        assert(forall|value: Seq<char>|
            found == Some(value) <==> #[trigger] submits(components[last], id, value));
        assert(forall|k: int| 0 <= k < last ==> before[k] == #[trigger] components[k]);
        assert forall|at: int, value: Seq<char>|
            #[trigger] submits_last(components, at, id, value) implies elicitation::given(
            components,
            id,
        ) == Some(value) by {
            if at < last {
                if found is Some {
                    assert(submits(components[last], id, found->0));
                }
                assert forall|later: int, other: Seq<char>|
                    at < later < before.len() implies !#[trigger] submits(
                    before[later],
                    id,
                    other,
                ) by {
                    assert(!submits(components[later], id, other));
                }
                assert(submits_last(before, at, id, value));
            }
        }
        if let Some(value) = elicitation::given(components, id) {
            if found is Some {
                assert(submits_last(components, last, id, value));
            } else {
                let at = choose|at: int| #[trigger] submits_last(before, at, id, value);
                assert forall|later: int, other: Seq<char>|
                    at < later < components.len() implies !#[trigger] submits(
                    components[later],
                    id,
                    other,
                ) by {
                    if later < last {
                        assert(!submits(before[later], id, other));
                    }
                }
                assert(components[at] == before[at]);
                assert(submits_last(components, at, id, value));
            }
        }
        if elicitation::given(components, id) is None {
            assert forall|k: int, value: Seq<char>| 0 <= k < components.len() implies !#[trigger] submits(
                components[k],
                id,
                value,
            ) by {
                if k < last {
                    assert(!submits(before[k], id, value));
                }
            }
        }
        if submits_nothing(components, id) {
            if found is Some {
                assert(submits(components[last], id, found->0));
            }
            assert forall|k: int, value: Seq<char>| 0 <= k < before.len() implies !#[trigger] submits(
                before[k],
                id,
                value,
            ) by {
                assert(!submits(components[k], id, value));
            }
        }
    }
}

/// A value for the agent says what was submitted for a field: an integer field
/// gives the integer, a number field the number as it was typed, and any other
/// field the text.
pub open spec fn says(item: ContentView, field: FieldView, value: Seq<char>) -> bool {
    match field.input {
        FieldInputView::Text(Placeholder::Integer, _) => item matches ContentView::Integer(n)
            && numbers::signed_in(value) == Some(n),
        FieldInputView::Text(Placeholder::Number, _) => item == ContentView::Number(value),
        FieldInputView::Text(Placeholder::Free, _) => item == ContentView::Text(value),
        FieldInputView::Select(_, _) => item == ContentView::Text(value),
    }
}

/// Among the values by field is one under a name that says what was submitted.
pub open spec fn holds_value(
    content: Seq<(Seq<char>, ContentView)>,
    field: FieldView,
    value: Seq<char>,
) -> bool {
    exists|k: int|
        0 <= k < content.len() && (#[trigger] content[k]).0 == field.custom_id && says(
            content[k].1,
            field,
            value,
        )
}

/// For every field whose component was submitted with a value that is not blank, by
/// a text input or by a select menu, an accepted form holds an entry under the name
/// of that field with that value.
pub proof fn every_submitted_value_is_accepted(
    fields: Seq<FieldView>,
    components: Seq<Submitted>,
    numeric: Seq<bool>,
    count: int,
    index: int,
    at: int,
    value: Seq<char>,
)
    requires
        0 <= index < count <= fields.len(),
        submits_last(components, at, fields[index].custom_id, value),
        !text::is_blank(value),
    ensures
        elicitation::accepted(fields, components, numeric, count) matches Ok(content)
            ==> holds_value(content, fields[index], value),
    decreases count,
{
    a_submitted_value_is_read(components, fields[index].custom_id);
    if let Ok(content) = elicitation::accepted(fields, components, numeric, count) {
        if index == count - 1 {
            let last = content.len() - 1;
            assert(content[last].0 == fields[index].custom_id);
            assert(says(content[last].1, fields[index], value));
        } else {
            every_submitted_value_is_accepted(
                fields,
                components,
                numeric,
                count - 1,
                index,
                at,
                value,
            );
            let before = elicitation::accepted(fields, components, numeric, count - 1)->Ok_0;
            let k = choose|k: int|
                0 <= k < before.len() && (#[trigger] before[k]).0 == fields[index].custom_id
                    && says(before[k].1, fields[index], value);
            assert(content[k] == before[k]);
        }
    }
}

/// The same of a whole form: it ends with an answer that holds every submitted
/// value.
pub proof fn an_accepted_form_holds_every_submitted_value(
    fields: Seq<FieldView>,
    components: Seq<Submitted>,
    numeric: Seq<bool>,
    index: int,
    at: int,
    value: Seq<char>,
)
    requires
        0 <= index < fields.len(),
        submits_last(components, at, fields[index].custom_id, value),
        !text::is_blank(value),
    ensures
        elicitation::submitted_end(
            fields,
            components,
            numeric,
        ).1 matches ResponseView::Accept(content) ==> holds_value(content, fields[index], value),
{
    every_submitted_value_is_accepted(
        fields,
        components,
        numeric,
        fields.len() as int,
        index,
        at,
        value,
    );
}

/// The field rejects what was submitted for it: it asks for an integer or a number,
/// and the value, which is not blank, is none.
pub open spec fn rejects(
    field: FieldView,
    components: Seq<Submitted>,
    numeric: bool,
) -> bool {
    exists|at: int, value: Seq<char>|
        #[trigger] submits_last(components, at, field.custom_id, value) && !text::is_blank(value)
            && match field.input {
            FieldInputView::Text(Placeholder::Integer, _) => numbers::signed_in(value) is None,
            FieldInputView::Text(Placeholder::Number, _) => !numeric,
            _ => false,
        }
}

proof fn lemma_rejects(field: FieldView, components: Seq<Submitted>, numeric: bool)
    ensures
        rejects(field, components, numeric) <==> match elicitation::given(
            components,
            field.custom_id,
        ) {
            Some(value) => !text::is_blank(value) && elicitation::content_of(
                field.input,
                value,
                numeric,
            ) is Err,
            None => false,
        },
{
    a_submitted_value_is_read(components, field.custom_id);
    if let Some(value) = elicitation::given(components, field.custom_id) {
        let at = choose|at: int| #[trigger] submits_last(components, at, field.custom_id, value);
        assert(submits_last(components, at, field.custom_id, value));
    }
}

/// A form is accepted exactly where no field rejects what was submitted for it, and
/// cancelled otherwise.
pub proof fn a_form_is_accepted_unless_a_field_rejects(
    fields: Seq<FieldView>,
    components: Seq<Submitted>,
    numeric: Seq<bool>,
    count: int,
)
    requires
        0 <= count <= fields.len(),
    ensures
        elicitation::accepted(fields, components, numeric, count) is Ok <==> forall|i: int|
            0 <= i < count ==> !rejects(#[trigger] fields[i], components, numeric[i]),
        count == fields.len() ==> (elicitation::submitted_end(
            fields,
            components,
            numeric,
        ).1 is Accept <==> elicitation::accepted(fields, components, numeric, count) is Ok),
        count == fields.len() ==> (elicitation::submitted_end(
            fields,
            components,
            numeric,
        ).1 is Cancel <==> elicitation::accepted(fields, components, numeric, count) is Err),
    decreases count,
{
    if count > 0 {
        a_form_is_accepted_unless_a_field_rejects(fields, components, numeric, count - 1);
        lemma_rejects(fields[count - 1], components, numeric[count - 1]);
        let before = elicitation::accepted(fields, components, numeric, count - 1);
        if before is Err {
            let i = choose|i: int|
                0 <= i < count - 1 && rejects(#[trigger] fields[i], components, numeric[i]);
            assert(rejects(fields[i], components, numeric[i]));
        }
    }
}

/// An input asks for a property: a limited text and a truth value by a menu of their
/// values, everything else by a text input, each with the initial value first.
pub open spec fn asks_for(input: FieldInputView, property: PropertySchema) -> bool {
    match property {
        PropertySchema::Text { default, enum_values: Some(values), .. } => {
            input matches FieldInputView::Select(options, initial) && {
                &&& initial == text::opt_text(default)
                &&& options.len() == values@.len()
                &&& forall|i: int|
                    0 <= i < options.len() ==> #[trigger] options[i] == (values@[i]@, values@[i]@)
            }
        },
        PropertySchema::Text { default, enum_values: None, one_of: Some(titled), .. } => {
            input matches FieldInputView::Select(options, initial) && {
                &&& initial == text::opt_text(default)
                &&& options.len() == titled@.len()
                &&& forall|i: int|
                    0 <= i < options.len() ==> #[trigger] options[i] == (
                        titled@[i].0@,
                        titled@[i].1@,
                    )
            }
        },
        PropertySchema::Text { default, enum_values: None, one_of: None, .. } => input
            == FieldInputView::Text(Placeholder::Free, text::opt_text(default)),
        PropertySchema::Integer { default, .. } => {
            input matches FieldInputView::Text(Placeholder::Integer, initial) && match default {
                Some(n) => initial matches Some(shown) && shown == numbers::signed_decimal(
                    n as int,
                ),
                None => initial is None,
            }
        },
        PropertySchema::Number { default, .. } => input == FieldInputView::Text(
            Placeholder::Number,
            text::opt_text(default),
        ),
        PropertySchema::Boolean { default, .. } => {
            input matches FieldInputView::Select(options, initial) && {
                &&& options == seq![("true"@, "true"@), ("false"@, "false"@)]
                &&& match default {
                    Some(value) => initial == Some(
                        if value {
                            "true"@
                        } else {
                            "false"@
                        },
                    ),
                    None => initial is None,
                }
            }
        },
        PropertySchema::Other => false,
    }
}

/// A form that Discord can show has one to five properties, all of known kinds, and
/// asks for each of them in order: under its name, by a fitting input, and as
/// required exactly where the form says so.
pub proof fn a_form_asks_for_every_property(schema: ElicitationSchema)
    ensures
        elicitation::can_show(schema) <==> 1 <= schema.properties@.len() <= 5 && (forall|i: int|
            0 <= i < schema.properties@.len() ==> !((#[trigger] schema.properties@[i]).1 is Other)),
        elicitation::can_show(schema) ==> {
            let fields = elicitation::fields_of(schema);
            &&& fields.len() == schema.properties@.len()
            &&& forall|i: int|
                0 <= i < fields.len() ==> {
                    let (name, property) = schema.properties@[i];
                    &&& (#[trigger] fields[i]).custom_id == name@
                    &&& fields[i].required <==> (schema.required matches Some(names) && exists|k: int|
                        0 <= k < names@.len() && (#[trigger] names@[k])@ == name@)
                    &&& asks_for(fields[i].input, property)
                }
        },
{
    assert forall|i: int| 0 <= i < schema.properties@.len() implies (elicitation::input_of(
        (#[trigger] schema.properties@[i]).1,
    ) is Some <==> !(schema.properties@[i].1 is Other)) by {
    }
    if elicitation::can_show(schema) {
        let fields = elicitation::fields_of(schema);
        assert forall|i: int| 0 <= i < fields.len() implies {
            let (name, property) = schema.properties@[i];
            &&& (#[trigger] fields[i]).custom_id == name@
            &&& fields[i].required <==> (schema.required matches Some(names) && exists|k: int|
                0 <= k < names@.len() && (#[trigger] names@[k])@ == name@)
            &&& asks_for(fields[i].input, property)
        } by {
            let (name, property) = schema.properties@[i];
            assert(fields[i] == elicitation::field_of(schema, name@, property));
            if let Some(names) = schema.required {
                let all = text::texts(names@);
                if all.contains(name@) {
                    let k = choose|k: int| 0 <= k < all.len() && all[k] == name@;
                    assert(names@[k]@ == name@);
                }
                if exists|k: int| 0 <= k < names@.len() && (#[trigger] names@[k])@ == name@ {
                    let k = choose|k: int| 0 <= k < names@.len() && (#[trigger] names@[k])@ == name@;
                    assert(all[k] == name@);
                }
            }
            assert(elicitation::input_of(schema.properties@[i].1) is Some);
            lemma_asks_for(property);
        }
    }
}

proof fn lemma_asks_for(property: PropertySchema)
    requires
        elicitation::input_of(property) is Some,
    ensures
        asks_for(elicitation::input_of(property)->0, property),
{
    if let PropertySchema::Text { default, enum_values, one_of, .. } = property {
        if let Some(values) = enum_values {
            let shown = text::texts(values@).map_values(|value: Seq<char>| (value, value));
            assert(elicitation::limited_to(enum_values, one_of) == Some(shown));
            assert forall|i: int| 0 <= i < shown.len() implies #[trigger] shown[i] == (
                values@[i]@,
                values@[i]@,
            ) by {
            }
        }
    }
}

/// The label of a field is the title of its property, or its name where it has no
/// title, as far as Discord permits.
pub proof fn a_field_is_labelled_by_its_title(
    schema: ElicitationSchema,
    name: Seq<char>,
    property: PropertySchema,
)
    ensures
        ({
            let title = match property {
                PropertySchema::Text { title: Some(title), .. } => title@,
                PropertySchema::Integer { title: Some(title), .. } => title@,
                PropertySchema::Number { title: Some(title), .. } => title@,
                PropertySchema::Boolean { title: Some(title), .. } => title@,
                _ => name,
            };
            let label = elicitation::field_of(schema, name, property).label;
            &&& title.len() <= 45 ==> label == title
            &&& title.len() > 45 ==> label == title.take(44).push('…')
        }),
{
}

/// A field is shown as one component under its name, and a menu offers each of its
/// options, with the initial one selected.
pub proof fn a_field_is_shown_under_its_name(field: FieldView)
    ensures
        match (field.input, elicitation::component_of(field)) {
            (FieldInputView::Text(placeholder, initial), InputView::Text(shown)) => {
                &&& shown.custom_id == field.custom_id
                &&& shown.label == field.label
                &&& shown.required == field.required
                &&& shown.value == initial
                &&& shown.placeholder is None <==> placeholder == Placeholder::Free
            },
            (
                FieldInputView::Select(options, initial),
                InputView::Select(id, label, _, shown),
            ) => {
                &&& id == field.custom_id
                &&& label == field.label
                &&& shown.len() == options.len()
                &&& forall|i: int|
                    0 <= i < shown.len() ==> (#[trigger] shown[i]).label == options[i].0
                        && shown[i].value == options[i].1 && (shown[i].default <==> initial
                        == Some(options[i].1))
            },
            _ => false,
        },
{
}

/// Only a page with a secure address is asked about: its message names the address
/// and its first button opens it.
pub proof fn only_a_secure_page_is_shown(
    step: Presentation,
    agent_name: Seq<char>,
    message: Seq<char>,
    url: Seq<char>,
    nonce: u64,
)
    requires
        elicitation::presents_page(step, agent_name, message, url, nonce),
    ensures
        step is Ask <==> text::starts_with(url, "https://"@),
        step is Ask || step is Refuse,
        step matches Presentation::Ask { content, buttons, form } ==> {
            &&& form is None
            &&& text::contains(content@, url)
            &&& text::contains(content@, message)
            &&& buttons@.len() == 3
            &&& buttons@[0].kind == elicitation::ElicitButtonKind::Link
            &&& buttons@[0].target@ == url
        },
{
    if let Presentation::Ask { content, buttons, form } = step {
        let views = elicitation::elicit_buttons(buttons@);
        assert(views.len() == 3);
        assert(views[0].target == url);
        let name = text::without2(agent_name, '@', '`');
        let before = "📋 **"@ + name + " needs input** — "@;
        let warning = "\nOnly consent if you recognize this address."@;
        tools::lemma_contains(before, message, "\nURL: "@ + url + warning);
        assert(content@ =~= before + message + ("\nURL: "@ + url + warning));
        tools::lemma_contains(before + message + "\nURL: "@, url, warning);
        assert(content@ =~= before + message + "\nURL: "@ + url + warning);
    }
}

/// A form is asked about exactly where Discord can show it: with the message of the
/// agent, and with a field for each property.
pub proof fn a_form_is_shown_where_it_can_be(
    step: Presentation,
    agent_name: Seq<char>,
    message: Seq<char>,
    schema: ElicitationSchema,
    nonce: u64,
)
    requires
        elicitation::presents_form(step, agent_name, message, schema, nonce),
    ensures
        step is Ask <==> elicitation::can_show(schema),
        step is Ask || step is Refuse,
        step matches Presentation::Ask { content, buttons, form } ==> {
            &&& text::contains(content@, message)
            &&& buttons@.len() == 2
            &&& buttons@[0].target@ == elicitation::component_id(nonce, "form"@)
            &&& buttons@[1].target@ == elicitation::component_id(nonce, "decline"@)
            &&& form matches Some(spec) && elicitation::field_views(spec.fields@)
                == elicitation::fields_of(schema)
        },
{
    if let Presentation::Ask { content, buttons, form } = step {
        let views = elicitation::elicit_buttons(buttons@);
        assert(views.len() == 2);
        assert(views[0].target == elicitation::component_id(nonce, "form"@));
        assert(views[1].target == elicitation::component_id(nonce, "decline"@));
        let name = text::without2(agent_name, '@', '`');
        let before = "📋 **"@ + name + " needs input** — "@;
        tools::lemma_contains(before, message, Seq::<char>::empty());
        assert(content@ =~= before + message + Seq::<char>::empty());
    }
}

/// A form that cannot be shown is refused for its number of fields where it has more
/// than five, and for their types where it has not.
pub proof fn a_refused_form_tells_why(schema: ElicitationSchema)
    ensures
        schema.properties@.len() > 5 ==> elicitation::refusal(schema) == "the form has "@
            + numbers::decimal(schema.properties@.len())
            + " fields, but Discord modals support at most 5"@,
        schema.properties@.len() <= 5 ==> elicitation::refusal(schema)
            == "the form contains field types agentcord cannot render"@,
{
}

} // verus!
