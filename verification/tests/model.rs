//! Model selectors and session options.

use agentcord::acp::model::ModelSpec;
use agentcord::acp::options::{
    category_values, default_model, model_changes, select_value, AcpError, ModelRun,
    SessionConfigKind, SessionConfigOption, SessionConfigOptionCategory, SessionConfigSelect,
    SessionConfigSelectGroup, SessionConfigSelectOption, SessionConfigSelectOptions,
};
use agentcord::commands::model::{combinations, model, resolve_value, status, summary, Changed};
use agentcord::session::to_kebab;
use agentcord::ModelSpecError;

fn choice(value: &str, name: &str) -> SessionConfigSelectOption {
    SessionConfigSelectOption {
        value: value.to_owned(),
        name: name.to_owned(),
    }
}

fn select(
    id: &str,
    name: &str,
    current: &str,
    options: Vec<SessionConfigSelectOption>,
    category: SessionConfigOptionCategory,
) -> SessionConfigOption {
    SessionConfigOption {
        id: id.to_owned(),
        name: name.to_owned(),
        category: Some(category),
        kind: SessionConfigKind::Select(SessionConfigSelect {
            current_value: current.to_owned(),
            options: SessionConfigSelectOptions::Ungrouped(options),
        }),
    }
}

/// A model without a provider.
fn sonnet() -> String {
    format!("{}-4", to_kebab("ClaudeSonnet"))
}

fn model_and_reasoning() -> Vec<SessionConfigOption> {
    vec![
        select(
            "model",
            "Model",
            "openai/gpt-4o",
            vec![choice("openai/gpt-4o", "GPT-4o")],
            SessionConfigOptionCategory::Model,
        ),
        select(
            "reasoning",
            "Reasoning",
            "high",
            vec![choice("high", "High")],
            SessionConfigOptionCategory::ThoughtLevel,
        ),
    ]
}

/// Parses and canonicalizes a provider-qualified model selector.
#[test]
fn parses_model_spec() {
    let spec = ModelSpec::parse("openai/gpt-4o:high").unwrap();
    assert_eq!(spec.model_value(), "openai/gpt-4o");
    assert_eq!(spec.canonical(), "openai/gpt-4o:high");
    let parsed = "openai/gpt-4o:high".parse::<ModelSpec>().unwrap();
    assert_eq!(parsed, spec);

    let spec = ModelSpec::parse(&sonnet()).unwrap();
    assert_eq!(spec.model_value(), sonnet());
    assert_eq!(spec.canonical(), sonnet());
}

/// Rejects model selectors with empty, repeated, or whitespace components.
#[test]
fn rejects_malformed_model_spec() {
    assert!(matches!(
        ":high".parse::<ModelSpec>(),
        Err(ModelSpecError::EmptyPart { .. })
    ));
    assert!(matches!(
        "openai/gpt-4o:".parse::<ModelSpec>(),
        Err(ModelSpecError::EmptyPart { .. })
    ));
    assert!(matches!(
        "openai/:high".parse::<ModelSpec>(),
        Err(ModelSpecError::EmptyPart { .. })
    ));
    assert!("openai/gpt/4o:high".parse::<ModelSpec>().is_ok());
    assert!(matches!(
        "openai/gpt-4o:high:extra".parse::<ModelSpec>(),
        Err(ModelSpecError::ExtraSeparator { .. })
    ));
    assert!(matches!(
        "openai/gpt 4o:high".parse::<ModelSpec>(),
        Err(ModelSpecError::Whitespace { .. })
    ));
}

/// Resolves model and reasoning values against ACP selectors.
#[test]
fn resolves_model_changes_from_categories() {
    let spec = ModelSpec::parse("openai/gpt-4o:high").unwrap();
    let changes = model_changes(&model_and_reasoning(), &spec).unwrap();
    assert_eq!(changes.len(), 2);
    assert_eq!(changes[0], ("model".to_owned(), "openai/gpt-4o".to_owned()));
    assert_eq!(changes[1], ("reasoning".to_owned(), "high".to_owned()));
}

/// Resolves a model when the agent does not expose reasoning levels.
#[test]
fn resolves_model_only_change() {
    let options = vec![select(
        "model",
        "Model",
        &sonnet(),
        vec![choice(&sonnet(), "Sonnet 4")],
        SessionConfigOptionCategory::Model,
    )];
    let spec = ModelSpec::parse(&sonnet()).unwrap();
    let changes = model_changes(&options, &spec).unwrap();
    assert_eq!(changes.len(), 1);
}

/// Reads the agent-selected model and reasoning defaults.
#[test]
fn reads_default_model_from_categories() {
    assert_eq!(
        default_model(&model_and_reasoning()).as_deref(),
        Some("openai/gpt-4o:high")
    );
}

/// Flattens grouped ACP values for model autocomplete and selection.
#[test]
fn flattens_grouped_select_options() {
    let options = vec![SessionConfigOption {
        id: "model".to_owned(),
        name: "Model".to_owned(),
        category: Some(SessionConfigOptionCategory::Model),
        kind: SessionConfigKind::Select(SessionConfigSelect {
            current_value: "openai/gpt-4o".to_owned(),
            options: SessionConfigSelectOptions::Grouped(vec![SessionConfigSelectGroup {
                group: "openai".to_owned(),
                name: "OpenAI".to_owned(),
                options: vec![choice("openai/gpt-4o", "GPT-4o")],
            }]),
        }),
    }];
    assert_eq!(
        category_values(&options, &SessionConfigOptionCategory::Model, &["model"]),
        Some(vec!["openai/gpt-4o".to_owned()])
    );
}

/// Includes an ACP model when no reasoning selector is advertised.
#[test]
fn combinations_support_model_only_agents() {
    let options = vec![select(
        "model",
        "Model",
        &sonnet(),
        vec![choice(&sonnet(), "Sonnet 4")],
        SessionConfigOptionCategory::Model,
    )];
    assert_eq!(combinations(&options), vec![sonnet()]);
}

#[test]
fn combinations_pair_models_with_reasoning_levels() {
    assert_eq!(
        combinations(&model_and_reasoning()),
        vec!["openai/gpt-4o:high"]
    );
}

#[test]
fn an_unknown_value_is_not_selected() {
    let options = model_and_reasoning();
    assert!(matches!(
        select_value(&options[0], "other", "model"),
        Err(AcpError::InvalidRequest(_))
    ));
    let spec = ModelSpec::parse("other:high").unwrap();
    assert!(model_changes(&options, &spec).is_err());
}

#[test]
fn a_model_run_asks_for_each_change_in_turn() {
    let options = model_and_reasoning();
    let spec = ModelSpec::parse("openai/gpt-4o:high").unwrap();
    let mut run = ModelRun::start(&options, &spec).unwrap();
    assert_eq!(
        run.next(&options).unwrap(),
        Some(("model".to_owned(), "openai/gpt-4o".to_owned()))
    );
    run.answered();
    assert_eq!(
        run.next(&options).unwrap(),
        Some(("reasoning".to_owned(), "high".to_owned()))
    );
    run.answered();
    assert_eq!(run.next(&options).unwrap(), None);
}

#[test]
fn a_typed_value_is_resolved_by_id_or_name() {
    let options = model_and_reasoning();
    let category = SessionConfigOptionCategory::Model;
    let (id, _, label) =
        resolve_value(Some(&options), &category, "model", "openai/gpt-4o").unwrap();
    assert_eq!((id.as_str(), label.as_str()), ("model", "GPT-4o"));
    let (_, _, label) = resolve_value(Some(&options), &category, "model", "gpt-4O").unwrap();
    assert_eq!(label, "GPT-4o");
    assert_eq!(
        resolve_value(Some(&options), &category, "model", "nothing")
            .unwrap_err()
            .message(),
        "unknown model `nothing`; pick one of the suggestions"
    );
    assert_eq!(
        resolve_value(None, &category, "model", "gpt-4o")
            .unwrap_err()
            .message(),
        "the ACP session is not running, so its options are unknown"
    );
}

#[test]
fn the_model_command_changes_what_is_asked_for() {
    let options = model_and_reasoning();
    assert!(model(Some(&options), None, None).unwrap().is_none());
    let changes = model(Some(&options), Some(" gpt-4o "), Some("high"))
        .unwrap()
        .unwrap();
    assert_eq!(changes.len(), 2);
    assert_eq!((changes[0].name, changes[0].id.as_str()), ("model", "model"));
    assert_eq!(
        (changes[1].name, changes[1].id.as_str()),
        ("thought level", "reasoning")
    );
    assert!(model(Some(&options), Some("  "), None)
        .unwrap()
        .unwrap()
        .is_empty());
    assert!(model(Some(&options), Some("nothing"), None).is_err());
}

#[test]
fn changes_are_summarized() {
    let changes = vec![
        Changed {
            name: "model",
            label: "GPT-4o".to_owned(),
        },
        Changed {
            name: "thought level",
            label: "High".to_owned(),
        },
    ];
    assert_eq!(
        summary(&changes),
        "model set to **GPT-4o** · thought level set to **High**"
    );
    assert_eq!(
        status(true, Some("GPT-4o"), None),
        "model: **GPT-4o** · thinking: **not exposed**"
    );
}
