//! Forms and links that agents ask the user for.

use agentcord::elicitation::{
    accept_modal, allowed_interaction, build_modal, declined_response, handle, interrupted,
    modal_spec, present_form, present_url, ContentValue, ElicitButton, ElicitButtonKind,
    ElicitationSchema, Interruption, Mode, Presentation, Press, PropertySchema, Response,
};
use agentcord::ids::UserId;
use agentcord::modal::{ModalInput, Submitted};
use serde_json::Value;

fn schema(properties: Vec<(String, PropertySchema)>) -> ElicitationSchema {
    ElicitationSchema {
        title: Some("Details".to_owned()),
        properties,
        required: Some(vec!["name".to_owned()]),
        raw: Value::Null,
    }
}

fn text(title: &str) -> PropertySchema {
    PropertySchema::Text {
        title: Some(title.to_owned()),
        default: None,
        enum_values: None,
        one_of: None,
    }
}

fn form() -> ElicitationSchema {
    schema(vec![
        ("name".to_owned(), text("Name")),
        (
            "age".to_owned(),
            PropertySchema::Integer {
                title: None,
                default: Some(7),
            },
        ),
        (
            "color".to_owned(),
            PropertySchema::Text {
                title: None,
                default: None,
                enum_values: Some(vec!["red".to_owned(), "blue".to_owned()]),
                one_of: None,
            },
        ),
    ])
}

fn typed(custom_id: &str, value: &str) -> Submitted {
    Submitted::Text {
        custom_id: custom_id.to_owned(),
        value: value.to_owned(),
    }
}

#[test]
fn a_form_becomes_a_modal() {
    let spec = modal_spec(&form()).expect("the form fits a modal");
    assert_eq!(spec.title, "Details");
    assert_eq!(spec.fields.len(), 3);
    assert!(spec.fields[0].required);
    assert!(!spec.fields[1].required);
    let modal = build_modal("m", &spec);
    assert_eq!(modal.components.len(), 3);
    assert!(matches!(&modal.components[2], ModalInput::Select { options, .. } if options.len() == 2));
    let unsupported = schema(vec![("x".to_owned(), PropertySchema::Other)]);
    assert!(modal_spec(&unsupported).is_none());
    let many: Vec<(String, PropertySchema)> = (0..6)
        .map(|index| (format!("f{index}"), text("Field")))
        .collect();
    assert!(modal_spec(&schema(many)).is_none());
}

#[test]
fn a_submitted_form_is_accepted() {
    let spec = modal_spec(&form()).unwrap();
    let numeric = vec![false, true, false];
    let submitted = vec![
        typed(&spec.fields[0].custom_id, "Ann"),
        typed(&spec.fields[1].custom_id, "8"),
        Submitted::Select {
            custom_id: spec.fields[2].custom_id.clone(),
            values: vec!["red".to_owned()],
        },
    ];
    let ending = accept_modal(&spec, &submitted, &numeric);
    let Response::Accept(content) = ending.response else {
        panic!("the form is complete");
    };
    assert!(content.contains(&("name".to_owned(), ContentValue::Text("Ann".to_owned()))));
    assert!(content.contains(&("age".to_owned(), ContentValue::Integer(8))));
    let invalid = vec![
        typed(&spec.fields[0].custom_id, "Ann"),
        typed(&spec.fields[1].custom_id, "many"),
    ];
    let ending = accept_modal(&spec, &invalid, &numeric);
    assert!(!matches!(ending.response, Response::Accept(_)));
}

#[test]
fn requests_are_presented() {
    let shown = |buttons: Vec<ElicitButton>| -> Vec<(String, ElicitButtonKind, &'static str)> {
        buttons
            .into_iter()
            .map(|button| (button.target, button.kind, button.label))
            .collect()
    };
    let id = |part: &str| format!("agentcord:elicit:1:{part}");
    let Presentation::Ask {
        buttons,
        form: Some(_),
        ..
    } = present_form("agent", "please", &form(), 1)
    else {
        panic!("a form is presented");
    };
    assert_eq!(
        shown(buttons),
        vec![
            (id("form"), ElicitButtonKind::Primary, "Fill form"),
            (id("decline"), ElicitButtonKind::Danger, "Decline"),
        ]
    );
    let unsupported = schema(vec![("x".to_owned(), PropertySchema::Other)]);
    assert!(matches!(
        present_form("agent", "please", &unsupported, 1),
        Presentation::Refuse(_)
    ));
    let Presentation::Ask { buttons, form, .. } =
        present_url("agent", "please", "https://example.org", 1)
    else {
        panic!("a link is presented");
    };
    assert!(form.is_none());
    assert_eq!(
        shown(buttons),
        vec![
            (
                "https://example.org".to_owned(),
                ElicitButtonKind::Link,
                "Open URL"
            ),
            (id("consent"), ElicitButtonKind::Success, "I opened it"),
            (id("decline"), ElicitButtonKind::Danger, "Decline"),
        ]
    );
    assert!(matches!(
        handle(true, "agent", "please", &Mode::Other, 1),
        Presentation::Decline
    ));
    assert_eq!(declined_response(), Response::Decline);
}

#[test]
fn only_the_allowed_user_presses() {
    let spec = modal_spec(&form());
    assert!(matches!(
        allowed_interaction(UserId(1), UserId(2), "x", 1, &spec),
        Press::Unauthorized
    ));
    assert!(matches!(
        allowed_interaction(UserId(2), UserId(2), "x", 1, &spec),
        Press::ShowModal(_)
    ));
    assert!(matches!(
        allowed_interaction(UserId(2), UserId(2), "x", 1, &None),
        Press::End(_)
    ));
    assert_eq!(interrupted(Interruption::NotPosted).response, Response::Cancel);
    assert_eq!(interrupted(Interruption::TimedOut).response, Response::Decline);
}
