//! Agent-advertised session configuration options.

use vstd::prelude::*;

use crate::acp::model::{ModelSpec, SpecView};
use crate::seqs;
use crate::text;

verus! {

/// An error of the ACP connection.
#[derive(Clone, Debug, PartialEq, Eq)]
pub enum AcpError {
    /// The request cannot be carried out.
    InvalidRequest(String),
    /// The connection or the agent failed.
    Internal(String),
    /// The agent answered with an error that is shown as this text.
    Agent(String),
}

/// The content of an ACP error.
pub ghost enum AcpErrorView {
    InvalidRequest(Seq<char>),
    Internal(Seq<char>),
    Agent(Seq<char>),
}

impl View for AcpError {
    type V = AcpErrorView;

    open spec fn view(&self) -> AcpErrorView {
        match self {
            AcpError::InvalidRequest(data) => AcpErrorView::InvalidRequest(data@),
            AcpError::Internal(data) => AcpErrorView::Internal(data@),
            AcpError::Agent(shown) => AcpErrorView::Agent(shown@),
        }
    }
}

/// Semantic category of a configuration option.
#[derive(Clone, Debug, PartialEq, Eq)]
pub enum SessionConfigOptionCategory {
    /// Session mode.
    Mode,
    /// Model.
    Model,
    /// Reasoning level.
    ThoughtLevel,
    /// A category of another name.
    Other(String),
}

/// The content of a category.
pub ghost enum CategoryView {
    Mode,
    Model,
    ThoughtLevel,
    Other(Seq<char>),
}

impl View for SessionConfigOptionCategory {
    type V = CategoryView;

    open spec fn view(&self) -> CategoryView {
        match self {
            SessionConfigOptionCategory::Mode => CategoryView::Mode,
            SessionConfigOptionCategory::Model => CategoryView::Model,
            SessionConfigOptionCategory::ThoughtLevel => CategoryView::ThoughtLevel,
            SessionConfigOptionCategory::Other(name) => CategoryView::Other(name@),
        }
    }
}

/// One selectable value.
#[derive(Clone, Debug, PartialEq, Eq)]
pub struct SessionConfigSelectOption {
    /// Value sent to the agent.
    pub value: String,
    /// Human-readable name.
    pub name: String,
}

/// A named group of selectable values.
#[derive(Clone, Debug, PartialEq, Eq)]
pub struct SessionConfigSelectGroup {
    /// Identifies the group.
    pub group: String,
    /// Human-readable name.
    pub name: String,
    /// Values of the group.
    pub options: Vec<SessionConfigSelectOption>,
}

/// The selectable values of an option.
#[derive(Clone, Debug, PartialEq, Eq)]
pub enum SessionConfigSelectOptions {
    /// A flat list.
    Ungrouped(Vec<SessionConfigSelectOption>),
    /// A list of groups.
    Grouped(Vec<SessionConfigSelectGroup>),
    /// A form without selectable values.
    Other,
}

/// A selection.
#[derive(Clone, Debug, PartialEq, Eq)]
pub struct SessionConfigSelect {
    /// Selected value.
    pub current_value: String,
    /// Selectable values.
    pub options: SessionConfigSelectOptions,
}

/// What an option holds.
#[derive(Clone, Debug, PartialEq, Eq)]
pub enum SessionConfigKind {
    /// One of several values.
    Select(SessionConfigSelect),
    /// A switch.
    Boolean {
        /// Position of the switch.
        current_value: bool,
    },
    /// A form that cannot be set.
    Other,
}

/// One agent-advertised configuration option.
#[derive(Clone, Debug, PartialEq, Eq)]
pub struct SessionConfigOption {
    /// Identifies the option.
    pub id: String,
    /// Human-readable name.
    pub name: String,
    /// Semantic category, where the agent gives one.
    pub category: Option<SessionConfigOptionCategory>,
    /// Current and possible values.
    pub kind: SessionConfigKind,
}

/// Values with their names.
pub open spec fn choices(options: Seq<SessionConfigSelectOption>) -> Seq<(Seq<char>, Seq<char>)> {
    options.map_values(|option: SessionConfigSelectOption| (option.value@, option.name@))
}

/// All values of a selection with their names, groups one after the other.
pub open spec fn all_choices(select: SessionConfigSelect) -> Seq<(Seq<char>, Seq<char>)> {
    match select.options {
        SessionConfigSelectOptions::Ungrouped(options) => choices(options@),
        SessionConfigSelectOptions::Grouped(groups) => seqs::flattened(
            groups@.map_values(|group: SessionConfigSelectGroup| choices(group.options@)),
        ),
        SessionConfigSelectOptions::Other => Seq::empty(),
    }
}

fn copy_choice(option: &SessionConfigSelectOption) -> (copied: SessionConfigSelectOption)
    ensures
        (copied.value@, copied.name@) == (option.value@, option.name@),
{
    SessionConfigSelectOption {
        value: text::copy(option.value.as_str()),
        name: text::copy(option.name.as_str()),
    }
}

fn append_choices(
    output: &mut Vec<SessionConfigSelectOption>,
    options: &Vec<SessionConfigSelectOption>,
)
    ensures
        choices(final(output)@) == choices(old(output)@) + choices(options@),
{
    let ghost start = choices(output@);
    let ghost all = choices(options@);
    let mut i: usize = 0;
    assert(start + all.take(0) =~= start);
    while i < options.len()
        invariant
            i <= options@.len(),
            all == choices(options@),
            choices(output@) == start + all.take(i as int),
        decreases options@.len() - i,
    {
        let ghost before = choices(output@);
        let copied = copy_choice(&options[i]);
        output.push(copied);
        proof {
            assert(choices(output@) =~= before.push(all[i as int]));
            assert(all.take(i + 1) =~= all.take(i as int).push(all[i as int]));
            assert(start + all.take(i as int).push(all[i as int]) =~= (start + all.take(
                i as int,
            )).push(all[i as int]));
        }
        i += 1;
    }
    assert(all.take(i as int) =~= all);
}

/// Flattens grouped and ungrouped ACP select values into one list.
pub fn select_options(select: &SessionConfigSelect) -> (options: Vec<SessionConfigSelectOption>)
    ensures
        choices(options@) == all_choices(*select),
{
    let mut output: Vec<SessionConfigSelectOption> = Vec::new();
    assert(choices(output@) =~= Seq::<(Seq<char>, Seq<char>)>::empty());
    match &select.options {
        SessionConfigSelectOptions::Ungrouped(options) => {
            append_choices(&mut output, options);
            assert(Seq::<(Seq<char>, Seq<char>)>::empty() + choices(options@) =~= choices(
                options@,
            ));
        },
        SessionConfigSelectOptions::Grouped(groups) => {
            let ghost lists = groups@.map_values(
                |group: SessionConfigSelectGroup| choices(group.options@),
            );
            let mut i: usize = 0;
            assert(lists.take(0) =~= Seq::<Seq<(Seq<char>, Seq<char>)>>::empty());
            while i < groups.len()
                invariant
                    i <= groups@.len(),
                    lists == groups@.map_values(
                        |group: SessionConfigSelectGroup| choices(group.options@),
                    ),
                    choices(output@) == seqs::flattened(lists.take(i as int)),
                decreases groups@.len() - i,
            {
                append_choices(&mut output, &groups[i].options);
                proof {
                    assert(lists.take(i + 1).drop_last() =~= lists.take(i as int));
                }
                i += 1;
            }
            assert(lists.take(i as int) =~= lists);
        },
        SessionConfigSelectOptions::Other => {},
    }
    output
}

/// Compares two categories.
pub fn same_category(
    left: &SessionConfigOptionCategory,
    right: &SessionConfigOptionCategory,
) -> (equal: bool)
    ensures
        equal == (left@ == right@),
{
    match (left, right) {
        (SessionConfigOptionCategory::Mode, SessionConfigOptionCategory::Mode) => true,
        (SessionConfigOptionCategory::Model, SessionConfigOptionCategory::Model) => true,
        (
            SessionConfigOptionCategory::ThoughtLevel,
            SessionConfigOptionCategory::ThoughtLevel,
        ) => true,
        (SessionConfigOptionCategory::Other(a), SessionConfigOptionCategory::Other(b)) => text::same(
            a.as_str(),
            b.as_str(),
        ),
        _ => false,
    }
}

/// The contents of a list of aliases.
pub open spec fn aliases_of(aliases: Seq<&str>) -> Seq<Seq<char>> {
    aliases.map_values(|alias: &str| alias@)
}

/// The option belongs to a category.
pub open spec fn in_category(option: SessionConfigOption, category: CategoryView) -> bool {
    option.category matches Some(own) && own@ == category
}

/// The option has an alias as its identifier or name, whatever the case.
pub open spec fn is_named(option: SessionConfigOption, aliases: Seq<Seq<char>>) -> bool {
    exists|i: int|
        0 <= i < aliases.len() && (text::ascii_lowered(option.id@) == text::ascii_lowered(
            #[trigger] aliases[i],
        ) || text::ascii_lowered(option.name@) == text::ascii_lowered(aliases[i]))
}

/// Options in a category.
pub open spec fn categorized(category: CategoryView) -> spec_fn(SessionConfigOption) -> bool {
    |option: SessionConfigOption| in_category(option, category)
}

/// Options with an alias.
pub open spec fn aliased(aliases: Seq<Seq<char>>) -> spec_fn(SessionConfigOption) -> bool {
    |option: SessionConfigOption| is_named(option, aliases)
}

/// The option for a category: the first in the category, else the first with an
/// alias, else none, which is told by the number of options.
pub open spec fn option_for(
    options: Seq<SessionConfigOption>,
    category: CategoryView,
    aliases: Seq<Seq<char>>,
) -> int {
    let own = seqs::first_where(options, categorized(category));
    if own < options.len() {
        own
    } else {
        seqs::first_where(options, aliased(aliases))
    }
}

fn has_alias(option: &SessionConfigOption, aliases: &[&str]) -> (result: bool)
    ensures
        result == is_named(*option, aliases_of(aliases@)),
{
    let mut i: usize = 0;
    while i < aliases.len()
        invariant
            i <= aliases@.len(),
            forall|j: int|
                0 <= j < i ==> !(text::ascii_lowered(option.id@) == text::ascii_lowered(
                    #[trigger] aliases_of(aliases@)[j],
                ) || text::ascii_lowered(option.name@) == text::ascii_lowered(
                    aliases_of(aliases@)[j],
                )),
        decreases aliases@.len() - i,
    {
        let alias = aliases[i];
        assert(aliases_of(aliases@)[i as int] == alias@);
        if text::same_ignoring_case(option.id.as_str(), alias) || text::same_ignoring_case(
            option.name.as_str(),
            alias,
        ) {
            return true;
        }
        i += 1;
    }
    false
}

fn of_category(option: &SessionConfigOption, category: &SessionConfigOptionCategory) -> (result: bool)
    ensures
        result == in_category(*option, category@),
{
    match &option.category {
        Some(own) => same_category(own, category),
        None => false,
    }
}

/// Finds a semantic configuration category, with compatibility aliases for
/// agents that predate ACP's category fields.
pub fn find_config_option(
    options: &Vec<SessionConfigOption>,
    category: &SessionConfigOptionCategory,
    aliases: &[&str],
) -> (found: Option<usize>)
    ensures
        match found {
            Some(at) => at < options@.len() && at == option_for(
                options@,
                category@,
                aliases_of(aliases@),
            ),
            None => option_for(options@, category@, aliases_of(aliases@)) == options@.len(),
        },
{
    let ghost own = categorized(category@);
    let ghost named = aliased(aliases_of(aliases@));
    let mut i: usize = 0;
    while i < options.len()
        invariant
            i <= options@.len(),
            own == categorized(category@),
            forall|j: int| 0 <= j < i ==> !own(#[trigger] options@[j]),
        decreases options@.len() - i,
    {
        if of_category(&options[i], category) {
            proof {
                seqs::lemma_first_where_is(options@, own, i as int);
            }
            return Some(i);
        }
        i += 1;
    }
    proof {
        seqs::lemma_first_where_is(options@, own, i as int);
    }
    let mut k: usize = 0;
    while k < options.len()
        invariant
            k <= options@.len(),
            own == categorized(category@),
            seqs::first_where(options@, own) == options@.len(),
            named == aliased(aliases_of(aliases@)),
            forall|j: int| 0 <= j < k ==> !named(#[trigger] options@[j]),
        decreases options@.len() - k,
    {
        if has_alias(&options[k], aliases) {
            proof {
                seqs::lemma_first_where_is(options@, named, k as int);
            }
            return Some(k);
        }
        k += 1;
    }
    proof {
        seqs::lemma_first_where_is(options@, named, k as int);
    }
    None
}

/// The selection that an option for a category holds, where it holds one.
pub open spec fn selection_for(
    options: Seq<SessionConfigOption>,
    category: CategoryView,
    aliases: Seq<Seq<char>>,
) -> Option<SessionConfigSelect> {
    let at = option_for(options, category, aliases);
    if at < options.len() {
        match options[at].kind {
            SessionConfigKind::Select(select) => Some(select),
            _ => None,
        }
    } else {
        None
    }
}

/// The values of choices.
pub open spec fn values_of(choices: Seq<(Seq<char>, Seq<char>)>) -> Seq<Seq<char>> {
    choices.map_values(|choice: (Seq<char>, Seq<char>)| choice.0)
}

/// Returns selectable values for a semantic configuration category.
pub fn category_values(
    options: &Vec<SessionConfigOption>,
    category: &SessionConfigOptionCategory,
    aliases: &[&str],
) -> (values: Option<Vec<String>>)
    ensures
        match (values, selection_for(options@, category@, aliases_of(aliases@))) {
            (Some(list), Some(select)) => text::texts(list@) == values_of(all_choices(select)),
            (None, None) => true,
            _ => false,
        },
{
    let at = match find_config_option(options, category, aliases) {
        Some(at) => at,
        None => {
            return None;
        },
    };
    match &options[at].kind {
        SessionConfigKind::Select(select) => {
            let candidates = select_options(select);
            let ghost all = values_of(choices(candidates@));
            let mut values: Vec<String> = Vec::new();
            let mut i: usize = 0;
            assert(text::texts(values@) =~= all.take(0));
            while i < candidates.len()
                invariant
                    i <= candidates@.len(),
                    all == values_of(choices(candidates@)),
                    text::texts(values@) == all.take(i as int),
                decreases candidates@.len() - i,
            {
                let ghost before = text::texts(values@);
                values.push(text::copy(candidates[i].value.as_str()));
                proof {
                    assert(text::texts(values@) =~= before.push(all[i as int]));
                    assert(all.take(i + 1) =~= all.take(i as int).push(all[i as int]));
                }
                i += 1;
            }
            assert(all.take(i as int) =~= all);
            Some(values)
        },
        _ => None,
    }
}

/// Returns the current selectable value for a semantic configuration category.
pub fn category_current_value(
    options: &Vec<SessionConfigOption>,
    category: &SessionConfigOptionCategory,
    aliases: &[&str],
) -> (value: Option<String>)
    ensures
        match (value, selection_for(options@, category@, aliases_of(aliases@))) {
            (Some(current), Some(select)) => current@ == select.current_value@,
            (None, None) => true,
            _ => false,
        },
{
    match find_config_option(options, category, aliases) {
        Some(at) => match &options[at].kind {
            SessionConfigKind::Select(select) => Some(text::copy(select.current_value.as_str())),
            _ => None,
        },
        None => None,
    }
}

/// The aliases of the model option.
pub open spec fn model_aliases() -> Seq<Seq<char>> {
    seq!["model"@]
}

/// The aliases of the reasoning option.
pub open spec fn reasoning_aliases() -> Seq<Seq<char>> {
    seq!["reasoning"@, "thought_level"@, "thinking"@]
}

/// The model selection of a session.
pub open spec fn model_selection(options: Seq<SessionConfigOption>) -> Option<SessionConfigSelect> {
    selection_for(options, CategoryView::Model, model_aliases())
}

/// The reasoning selection of a session.
pub open spec fn reasoning_selection(options: Seq<SessionConfigOption>) -> Option<
    SessionConfigSelect,
> {
    selection_for(options, CategoryView::ThoughtLevel, reasoning_aliases())
}

/// The model that a session currently uses, with its reasoning level.
pub open spec fn current_model(options: Seq<SessionConfigOption>) -> Option<Seq<char>> {
    match model_selection(options) {
        None => None,
        Some(model) => match reasoning_selection(options) {
            Some(reasoning) => if reasoning.current_value@.len() > 0 {
                Some(model.current_value@ + ":"@ + reasoning.current_value@)
            } else {
                Some(model.current_value@)
            },
            None => Some(model.current_value@),
        },
    }
}

fn model_option(options: &Vec<SessionConfigOption>) -> (found: Option<usize>)
    ensures
        match found {
            Some(at) => at < options@.len() && at == option_for(
                options@,
                CategoryView::Model,
                model_aliases(),
            ),
            None => option_for(options@, CategoryView::Model, model_aliases()) == options@.len(),
        },
{
    let aliases: [&str; 1] = ["model"];
    proof {
        assert(aliases_of(aliases@) =~= model_aliases());
    }
    find_config_option(options, &SessionConfigOptionCategory::Model, &aliases)
}

fn reasoning_option(options: &Vec<SessionConfigOption>) -> (found: Option<usize>)
    ensures
        match found {
            Some(at) => at < options@.len() && at == option_for(
                options@,
                CategoryView::ThoughtLevel,
                reasoning_aliases(),
            ),
            None => option_for(options@, CategoryView::ThoughtLevel, reasoning_aliases())
                == options@.len(),
        },
{
    let aliases: [&str; 3] = ["reasoning", "thought_level", "thinking"];
    proof {
        assert(aliases_of(aliases@) =~= reasoning_aliases());
    }
    find_config_option(options, &SessionConfigOptionCategory::ThoughtLevel, &aliases)
}

/// Returns the model currently selected by an ACP session.
pub fn default_model(options: &Vec<SessionConfigOption>) -> (model: Option<String>)
    ensures
        text::opt_text(model) == current_model(options@),
{
    let model = match model_option(options) {
        Some(at) => match &options[at].kind {
            SessionConfigKind::Select(select) => text::copy(select.current_value.as_str()),
            _ => {
                return None;
            },
        },
        None => {
            return None;
        },
    };
    if let Some(at) = reasoning_option(options) {
        if let SessionConfigKind::Select(select) = &options[at].kind {
            if !select.current_value.as_str().is_empty() {
                return Some(text::join3(model.as_str(), ":", select.current_value.as_str()));
            }
        }
    }
    Some(model)
}

/// Choices with a value.
pub open spec fn with_value(input: Seq<char>) -> spec_fn((Seq<char>, Seq<char>)) -> bool {
    |choice: (Seq<char>, Seq<char>)| choice.0 == input
}

/// Choices with a name, whatever the case.
pub open spec fn with_name(input: Seq<char>) -> spec_fn((Seq<char>, Seq<char>)) -> bool {
    |choice: (Seq<char>, Seq<char>)| text::lowercase(choice.1) == text::lowercase(input)
}

/// The choice that a user value stands for: the one with that value, else the
/// one with that name whatever the case, else none, told by the number of
/// choices.
pub open spec fn choice_for(choices: Seq<(Seq<char>, Seq<char>)>, input: Seq<char>) -> int {
    let exact = seqs::first_where(choices, with_value(input));
    if exact < choices.len() {
        exact
    } else {
        seqs::first_where(choices, with_name(input))
    }
}

/// The value that an option takes for a user value.
pub open spec fn value_for(
    option: SessionConfigOption,
    input: Seq<char>,
    label: Seq<char>,
) -> Result<Seq<char>, AcpErrorView> {
    match option.kind {
        SessionConfigKind::Select(select) => {
            let at = choice_for(all_choices(select), input);
            if at < all_choices(select).len() {
                let (value, _) = all_choices(select)[at];
                Ok(value)
            } else {
                Err(AcpErrorView::InvalidRequest("unknown "@ + label + " `"@ + input + "`"@))
            }
        },
        _ => Err(
            AcpErrorView::InvalidRequest("agent's "@ + label + " option is not selectable"@),
        ),
    }
}

fn find_choice(candidates: &Vec<SessionConfigSelectOption>, input: &str) -> (at: usize)
    ensures
        at <= candidates@.len(),
        at == choice_for(choices(candidates@), input@),
{
    let ghost all = choices(candidates@);
    let ghost exact = with_value(input@);
    let ghost named = with_name(input@);
    let mut i: usize = 0;
    while i < candidates.len()
        invariant
            i <= candidates@.len(),
            all == choices(candidates@),
            exact == with_value(input@),
            forall|j: int| 0 <= j < i ==> !exact(#[trigger] all[j]),
        decreases candidates@.len() - i,
    {
        assert(all[i as int] == (candidates@[i as int].value@, candidates@[i as int].name@));
        if text::same(candidates[i].value.as_str(), input) {
            proof {
                seqs::lemma_first_where_is(all, exact, i as int);
            }
            return i;
        }
        i += 1;
    }
    proof {
        seqs::lemma_first_where_is(all, exact, i as int);
    }
    let needle = text::to_lowercase(input);
    let mut k: usize = 0;
    while k < candidates.len()
        invariant
            k <= candidates@.len(),
            all == choices(candidates@),
            exact == with_value(input@),
            seqs::first_where(all, exact) == all.len(),
            needle@ == text::lowercase(input@),
            named == with_name(input@),
            forall|j: int| 0 <= j < k ==> !named(#[trigger] all[j]),
        decreases candidates@.len() - k,
    {
        assert(all[k as int] == (candidates@[k as int].value@, candidates@[k as int].name@));
        let lowered = text::to_lowercase(candidates[k].name.as_str());
        if text::same(lowered.as_str(), needle.as_str()) {
            proof {
                seqs::lemma_first_where_is(all, named, k as int);
            }
            return k;
        }
        k += 1;
    }
    proof {
        seqs::lemma_first_where_is(all, named, k as int);
    }
    k
}

/// Resolves one user value against an ACP select option.
pub fn select_value(option: &SessionConfigOption, input: &str, label: &str) -> (result: Result<
    String,
    AcpError,
>)
    ensures
        match (result, value_for(*option, input@, label@)) {
            (Ok(value), Ok(expected)) => value@ == expected,
            (Err(error), Err(expected)) => error@ == expected,
            _ => false,
        },
{
    match &option.kind {
        SessionConfigKind::Select(select) => {
            let candidates = select_options(select);
            let at = find_choice(&candidates, input);
            if at < candidates.len() {
                assert(choices(candidates@)[at as int] == (
                    candidates@[at as int].value@,
                    candidates@[at as int].name@,
                ));
                Ok(text::copy(candidates[at].value.as_str()))
            } else {
                Err(AcpError::InvalidRequest(text::join5("unknown ", label, " `", input, "`")))
            }
        },
        _ => Err(
            AcpError::InvalidRequest(
                text::join3("agent's ", label, " option is not selectable"),
            ),
        ),
    }
}

/// The configuration changes that a model selector stands for: the model first,
/// then the reasoning level where it names one.
pub open spec fn changes_for(options: Seq<SessionConfigOption>, model: SpecView) -> Result<
    Seq<(Seq<char>, Seq<char>)>,
    AcpErrorView,
> {
    let model_at = option_for(options, CategoryView::Model, model_aliases());
    let reasoning_at = option_for(options, CategoryView::ThoughtLevel, reasoning_aliases());
    if model_at >= options.len() {
        Err(AcpErrorView::InvalidRequest("agent does not expose a model option"@))
    } else {
        match value_for(options[model_at], model.model_value(), "model"@) {
            Err(error) => Err(error),
            Ok(value) => {
                let first = seq![(options[model_at].id@, value)];
                if model.reasoning.len() == 0 {
                    Ok(first)
                } else if reasoning_at >= options.len() {
                    Err(
                        AcpErrorView::InvalidRequest(
                            "agent does not expose a reasoning option"@,
                        ),
                    )
                } else {
                    match value_for(options[reasoning_at], model.reasoning, "reasoning"@) {
                        Err(error) => Err(error),
                        Ok(level) => Ok(first.push((options[reasoning_at].id@, level))),
                    }
                }
            },
        }
    }
}

/// The contents of a list of changes.
pub open spec fn change_views(changes: Seq<(String, String)>) -> Seq<(Seq<char>, Seq<char>)> {
    changes.map_values(|change: (String, String)| (change.0@, change.1@))
}

/// Resolves the ACP configuration changes represented by one model spec.
pub fn model_changes(options: &Vec<SessionConfigOption>, model: &ModelSpec) -> (result: Result<
    Vec<(String, String)>,
    AcpError,
>)
    ensures
        match (result, changes_for(options@, model@)) {
            (Ok(changes), Ok(expected)) => change_views(changes@) == expected,
            (Err(error), Err(expected)) => error@ == expected,
            _ => false,
        },
{
    let at = match model_option(options) {
        Some(at) => at,
        None => {
            return Err(
                AcpError::InvalidRequest(text::copy("agent does not expose a model option")),
            );
        },
    };
    let value = match select_value(&options[at], model.model_value().as_str(), "model") {
        Ok(value) => value,
        Err(error) => {
            return Err(error);
        },
    };
    let mut changes: Vec<(String, String)> = Vec::new();
    let ghost first = (options@[at as int].id@, value@);
    changes.push((text::copy(options[at].id.as_str()), value));
    assert(change_views(changes@) =~= seq![first]);
    if !model.reasoning.as_str().is_empty() {
        let level_at = match reasoning_option(options) {
            Some(level_at) => level_at,
            None => {
                return Err(
                    AcpError::InvalidRequest(
                        text::copy("agent does not expose a reasoning option"),
                    ),
                );
            },
        };
        let level = match select_value(&options[level_at], model.reasoning.as_str(), "reasoning") {
            Ok(level) => level,
            Err(error) => {
                return Err(error);
            },
        };
        let ghost second = (options@[level_at as int].id@, level@);
        changes.push((text::copy(options[level_at].id.as_str()), level));
        assert(change_views(changes@) =~= seq![first].push(second));
    }
    Ok(changes)
}

/// Selecting a model sets options of the session to values that they offer, and
/// to nothing else.
pub proof fn changes_name_offered_values(options: Seq<SessionConfigOption>, model: SpecView)
    ensures
        changes_for(options, model) matches Ok(changes) ==> forall|i: int|
            0 <= i < changes.len() ==> exists|at: int|
                0 <= at < options.len() && (#[trigger] options[at]).id@ == (
                #[trigger] changes[i]).0 && (options[at].kind matches SessionConfigKind::Select(
                    select,
                ) && values_of(all_choices(select)).contains(changes[i].1)),
{
    if let Ok(changes) = changes_for(options, model) {
        let model_at = option_for(options, CategoryView::Model, model_aliases());
        let reasoning_at = option_for(options, CategoryView::ThoughtLevel, reasoning_aliases());
        lemma_option_for(options, CategoryView::Model, model_aliases());
        lemma_option_for(options, CategoryView::ThoughtLevel, reasoning_aliases());
        lemma_value_offered(options[model_at], model.model_value(), "model"@);
        if model.reasoning.len() > 0 {
            lemma_value_offered(options[reasoning_at], model.reasoning, "reasoning"@);
        }
        assert forall|i: int| 0 <= i < changes.len() implies exists|at: int|
            0 <= at < options.len() && (#[trigger] options[at]).id@ == (#[trigger] changes[i]).0
                && (options[at].kind matches SessionConfigKind::Select(select) && values_of(
                all_choices(select),
            ).contains(changes[i].1)) by {
            if i == 0 {
                assert(options[model_at].id@ == changes[i].0);
            } else {
                assert(options[reasoning_at].id@ == changes[i].0);
            }
        }
    }
}

proof fn lemma_option_for(
    options: Seq<SessionConfigOption>,
    category: CategoryView,
    aliases: Seq<Seq<char>>,
)
    ensures
        0 <= option_for(options, category, aliases) <= options.len(),
{
    seqs::lemma_first_where(options, categorized(category));
    seqs::lemma_first_where(options, aliased(aliases));
}

proof fn lemma_value_offered(option: SessionConfigOption, input: Seq<char>, label: Seq<char>)
    ensures
        value_for(option, input, label) matches Ok(value) ==> (
        option.kind matches SessionConfigKind::Select(select) && values_of(
            all_choices(select),
        ).contains(value)),
{
    if let SessionConfigKind::Select(select) = option.kind {
        let all = all_choices(select);
        seqs::lemma_first_where(all, with_value(input));
        seqs::lemma_first_where(all, with_name(input));
        let at = choice_for(all, input);
        if at < all.len() {
            assert(values_of(all)[at] == all[at].0);
        }
    }
}

/// A model selection in progress: one configuration request per change.
pub struct ModelRun {
    model: ModelSpec,
    count: usize,
    index: usize,
}

/// How far a model selection has come.
pub ghost struct ModelRunView {
    pub model: SpecView,
    pub count: nat,
    pub index: nat,
}

impl View for ModelRun {
    type V = ModelRunView;

    closed spec fn view(&self) -> ModelRunView {
        ModelRunView { model: self.model@, count: self.count as nat, index: self.index as nat }
    }
}

/// The next request of a model selection.
pub open spec fn next_change(run: ModelRunView, options: Seq<SessionConfigOption>) -> Result<
    Option<(Seq<char>, Seq<char>)>,
    AcpErrorView,
> {
    if run.index >= run.count {
        Ok(None)
    } else {
        match changes_for(options, run.model) {
            Err(error) => Err(error),
            Ok(changes) => if run.index < changes.len() {
                Ok(Some(changes[run.index as int]))
            } else {
                Err(AcpErrorView::Internal("model configuration did not produce enough options"@))
            },
        }
    }
}

impl ModelRun {
    /// Starts selecting a model: as many requests as the current options call
    /// for.
    pub fn start(options: &Vec<SessionConfigOption>, model: &ModelSpec) -> (result: Result<
        ModelRun,
        AcpError,
    >)
        ensures
            match (result, changes_for(options@, model@)) {
                (Ok(run), Ok(changes)) => run@ == (ModelRunView {
                    model: model@,
                    count: changes.len(),
                    index: 0,
                }),
                (Err(error), Err(expected)) => error@ == expected,
                _ => false,
            },
    {
        match model_changes(options, model) {
            Ok(changes) => {
                assert(change_views(changes@).len() == changes@.len());
                Ok(ModelRun { model: model.copy(), count: changes.len(), index: 0 })
            },
            Err(error) => Err(error),
        }
    }

    /// Returns the next request, resolved against the options that the previous
    /// one answered with, or nothing once all are sent.
    pub fn next(&self, options: &Vec<SessionConfigOption>) -> (result: Result<
        Option<(String, String)>,
        AcpError,
    >)
        ensures
            match (result, next_change(self@, options@)) {
                (Ok(Some((id, value))), Ok(Some(expected))) => (id@, value@) == expected,
                (Ok(None), Ok(None)) => true,
                (Err(error), Err(expected)) => error@ == expected,
                _ => false,
            },
    {
        if self.index >= self.count {
            return Ok(None);
        }
        match model_changes(options, &self.model) {
            Ok(changes) => if self.index < changes.len() {
                let change = &changes[self.index];
                assert(change_views(changes@)[self.index as int] == (change.0@, change.1@));
                Ok(Some((text::copy(change.0.as_str()), text::copy(change.1.as_str()))))
            } else {
                Err(
                    AcpError::Internal(
                        text::copy("model configuration did not produce enough options"),
                    ),
                )
            },
            Err(error) => Err(error),
        }
    }

    /// Records that the current request was answered.
    pub fn answered(&mut self)
        requires
            old(self)@.index < old(self)@.count,
        ensures
            final(self)@ == (ModelRunView { index: old(self)@.index + 1, ..old(self)@ }),
    {
        self.index = self.index + 1;
    }
}

} // verus!
