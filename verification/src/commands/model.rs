//! Viewing and setting the model and thinking level of a session.

use vstd::prelude::*;

use crate::acp::model;
use crate::acp::options;
use crate::acp::options::{
    CategoryView, SessionConfigKind, SessionConfigOption, SessionConfigOptionCategory,
};
use crate::commands::choices;
use crate::error::{BotError, BotResult};
use crate::seqs;
use crate::text;

verus! {

/// A text that is a model selector.
pub open spec fn is_selector() -> spec_fn(Seq<char>) -> bool {
    |value: Seq<char>| model::spec_read(value) is Read
}

/// A model with each reasoning level, or alone where there are none.
pub open spec fn levels_of(model: Seq<char>, levels: Seq<Seq<char>>) -> Seq<Seq<char>> {
    if levels.len() == 0 {
        seq![model]
    } else {
        levels.map_values(|level: Seq<char>| model + ":"@ + level)
    }
}

/// The selectable reasoning levels of a session.
pub open spec fn levels(session_options: Seq<SessionConfigOption>) -> Seq<Seq<char>> {
    match options::reasoning_selection(session_options) {
        Some(select) => options::values_of(options::all_choices(select)),
        None => Seq::empty(),
    }
}

/// The model selectors of a session, models first.
pub open spec fn combinations_of(session_options: Seq<SessionConfigOption>) -> Seq<Seq<char>> {
    match options::model_selection(session_options) {
        Some(select) => seqs::all_where(
            seqs::flattened(
                options::values_of(options::all_choices(select)).map_values(
                    |model: Seq<char>| levels_of(model, levels(session_options)),
                ),
            ),
            is_selector(),
        ),
        None => Seq::empty(),
    }
}

proof fn lemma_all_where_add(left: Seq<Seq<char>>, right: Seq<Seq<char>>, wanted: spec_fn(
    Seq<char>,
) -> bool)
    ensures
        seqs::all_where(left + right, wanted) == seqs::all_where(left, wanted) + seqs::all_where(
            right,
            wanted,
        ),
    decreases right.len(),
{
    if right.len() == 0 {
        assert(left + right =~= left);
        assert(seqs::all_where(left, wanted) + right =~= seqs::all_where(left, wanted));
    } else {
        lemma_all_where_add(left, right.drop_last(), wanted);
        assert((left + right).drop_last() =~= left + right.drop_last());
        assert((left + right).last() == right.last());
        assert(seqs::all_where(left + right, wanted) =~= seqs::all_where(left, wanted)
            + seqs::all_where(right, wanted));
    }
}

fn push_selector(output: &mut Vec<String>, value: String)
    ensures
        text::texts(final(output)@) == if is_selector()(value@) {
            text::texts(old(output)@).push(value@)
        } else {
            text::texts(old(output)@)
        },
{
    let ghost before = text::texts(output@);
    if model::parse_model_spec(value.as_str()).is_ok() {
        let ghost added = value@;
        output.push(value);
        assert(text::texts(output@) =~= before.push(added));
    }
}

/// Builds canonical model strings from ACP model and optional reasoning
/// selectors.
pub fn combinations(session_options: &Vec<SessionConfigOption>) -> (values: Vec<String>)
    ensures
        text::texts(values@) == combinations_of(session_options@),
{
    let mut output: Vec<String> = Vec::new();
    assert(text::texts(output@) =~= Seq::<Seq<char>>::empty());
    let models = options::category_values(
        session_options,
        &SessionConfigOptionCategory::Model,
        &["model"],
    );
    let reasoning = options::category_values(
        session_options,
        &SessionConfigOptionCategory::ThoughtLevel,
        &["reasoning", "thought_level", "thinking"],
    );
    proof {
        assert(options::aliases_of(["model"]@) =~= options::model_aliases());
        assert(options::aliases_of(["reasoning", "thought_level", "thinking"]@)
            =~= options::reasoning_aliases());
    }
    let models = match models {
        Some(models) => models,
        None => {
            return output;
        },
    };
    let reasoning = match reasoning {
        Some(values) => values,
        None => Vec::new(),
    };
    let ghost all = text::texts(models@);
    let ghost own = levels(session_options@);
    let ghost wanted = is_selector();
    let ghost lists = all.map_values(|model: Seq<char>| levels_of(model, own));
    assert(text::texts(reasoning@) =~= own);
    let mut i: usize = 0;
    assert(lists.take(0) =~= Seq::<Seq<Seq<char>>>::empty());
    assert(seqs::flattened(lists.take(0)) =~= Seq::<Seq<char>>::empty());
    while i < models.len()
        invariant
            i <= models@.len(),
            all == text::texts(models@),
            own == text::texts(reasoning@),
            wanted == is_selector(),
            lists == all.map_values(|model: Seq<char>| levels_of(model, own)),
            text::texts(output@) == seqs::all_where(
                seqs::flattened(lists.take(i as int)),
                wanted,
            ),
        decreases models@.len() - i,
    {
        let ghost before = text::texts(output@);
        let ghost list = lists[i as int];
        let name = models[i].as_str();
        if reasoning.len() == 0 {
            push_selector(&mut output, text::copy(name));
            proof {
                assert(own.len() == 0);
                assert(list =~= seq![name@]);
                assert(list.drop_last() =~= Seq::<Seq<char>>::empty());
                assert(seqs::all_where(list.drop_last(), wanted) =~= Seq::<Seq<char>>::empty());
                assert(list.last() == name@);
                assert(text::texts(output@) =~= before + seqs::all_where(list, wanted));
            }
        } else {
            let mut k: usize = 0;
            assert(list.take(0) =~= Seq::<Seq<char>>::empty());
            assert(before + seqs::all_where(list.take(0), wanted) =~= before);
            while k < reasoning.len()
                invariant
                    k <= reasoning@.len(),
                    own == text::texts(reasoning@),
                    wanted == is_selector(),
                    list == own.map_values(|level: Seq<char>| name@ + ":"@ + level),
                    text::texts(output@) == before + seqs::all_where(list.take(k as int), wanted),
                decreases reasoning@.len() - k,
            {
                let ghost so_far = seqs::all_where(list.take(k as int), wanted);
                let value = text::join3(name, ":", reasoning[k].as_str());
                proof {
                    assert(own[k as int] == reasoning@[k as int]@);
                    assert(list[k as int] == value@);
                    assert(list.take(k + 1).drop_last() =~= list.take(k as int));
                    assert((before + so_far).push(value@) =~= before + so_far.push(value@));
                }
                push_selector(&mut output, value);
                k += 1;
            }
            assert(list.take(k as int) =~= list);
        }
        proof {
            assert(lists.take(i + 1).drop_last() =~= lists.take(i as int));
            lemma_all_where_add(seqs::flattened(lists.take(i as int)), list, wanted);
        }
        i += 1;
    }
    assert(lists.take(i as int) =~= lists);
    output
}

/// A value for a configuration option.
#[derive(Clone, Debug, PartialEq, Eq)]
pub enum OptionValue {
    /// One of the values of a selection.
    ValueId(String),
    /// The position of a switch.
    Boolean(bool),
}

/// The content of a value for a configuration option.
pub ghost enum OptionValueView {
    ValueId(Seq<char>),
    Boolean(bool),
}

impl View for OptionValue {
    type V = OptionValueView;

    open spec fn view(&self) -> OptionValueView {
        match self {
            OptionValue::ValueId(value) => OptionValueView::ValueId(value@),
            OptionValue::Boolean(value) => OptionValueView::Boolean(*value),
        }
    }
}

/// Values with an identifier.
pub open spec fn valued(input: Seq<char>) -> spec_fn((Seq<char>, Seq<char>)) -> bool {
    |choice: (Seq<char>, Seq<char>)| choice.0 == input
}

/// Values with a name, without regard to case.
pub open spec fn called(needle: Seq<char>) -> spec_fn((Seq<char>, Seq<char>)) -> bool {
    |choice: (Seq<char>, Seq<char>)| text::lowercase(choice.1) == needle
}

/// The choice that an input means: the first with the value, or else the first
/// with the name. The number of choices where there is none.
pub open spec fn meant(all: Seq<(Seq<char>, Seq<char>)>, input: Seq<char>, name: Seq<char>) -> int {
    let at = seqs::first_where(all, valued(input));
    if at < all.len() {
        at
    } else {
        seqs::first_where(all, called(text::lowercase(name)))
    }
}

/// What setting a category to an input comes to: the option, its value and the
/// value's label, or why there is none.
pub open spec fn resolved(
    session_options: Option<Seq<SessionConfigOption>>,
    category: CategoryView,
    label: Seq<char>,
    input: Seq<char>,
) -> Result<(Seq<char>, OptionValueView, Seq<char>), Seq<char>> {
    match session_options {
        None => Err("the ACP session is not running, so its options are unknown"@),
        Some(all) => {
            let at = seqs::first_where(all, options::categorized(category));
            if at >= all.len() {
                Err("this agent does not expose a "@ + label + " option"@)
            } else {
                match all[at].kind {
                    SessionConfigKind::Select(select) => {
                        let candidates = options::all_choices(select);
                        let chosen = meant(candidates, input, input);
                        if chosen < candidates.len() {
                            Ok(
                                (
                                    all[at].id@,
                                    OptionValueView::ValueId(candidates[chosen].0),
                                    candidates[chosen].1,
                                ),
                            )
                        } else {
                            Err(
                                "unknown "@ + label + " `"@ + input
                                    + "`; pick one of the suggestions"@,
                            )
                        }
                    },
                    SessionConfigKind::Boolean { .. } => {
                        let needle = text::lowercase(input);
                        if needle == "true"@ || needle == "on"@ || needle == "yes"@ {
                            Ok((all[at].id@, OptionValueView::Boolean(true), "on"@))
                        } else if needle == "false"@ || needle == "off"@ || needle == "no"@ {
                            Ok((all[at].id@, OptionValueView::Boolean(false), "off"@))
                        } else {
                            Err("this option is a toggle; use `true` or `false`"@)
                        }
                    },
                    SessionConfigKind::Other => Err(
                        "this agent's "@ + label + " option is not selectable"@,
                    ),
                }
            }
        },
    }
}

/// Finds the choice that an input means.
pub fn find_meant(values: &Vec<(String, String)>, input: &str, name: &str) -> (found: Option<usize>)
    ensures
        match found {
            Some(at) => at < values@.len() && at == meant(
                text::keyed_views(values@),
                input@,
                name@,
            ),
            None => meant(text::keyed_views(values@), input@, name@) == values@.len(),
        },
{
    let ghost all = text::keyed_views(values@);
    let needle = text::to_lowercase(name);
    let mut at: usize = 0;
    while at < values.len()
        invariant
            at <= values@.len(),
            all == text::keyed_views(values@),
            all.len() == values@.len(),
            needle@ == text::lowercase(name@),
            forall|j: int| 0 <= j < at ==> !valued(input@)(#[trigger] all[j]),
        decreases values@.len() - at,
    {
        assert(all[at as int] == (values@[at as int].0@, values@[at as int].1@));
        if text::same(values[at].0.as_str(), input) {
            proof {
                seqs::lemma_first_where_is(all, valued(input@), at as int);
            }
            return Some(at);
        }
        at += 1;
    }
    proof {
        seqs::lemma_first_where_is(all, valued(input@), at as int);
    }
    let mut at: usize = 0;
    while at < values.len()
        invariant
            at <= values@.len(),
            all == text::keyed_views(values@),
            all.len() == values@.len(),
            needle@ == text::lowercase(name@),
            seqs::first_where(all, valued(input@)) == all.len(),
            forall|j: int| 0 <= j < at ==> !called(needle@)(#[trigger] all[j]),
        decreases values@.len() - at,
    {
        assert(all[at as int] == (values@[at as int].0@, values@[at as int].1@));
        if text::same(
            text::to_lowercase(values[at].1.as_str()).as_str(),
            needle.as_str(),
        ) {
            proof {
                seqs::lemma_first_where_is(all, called(needle@), at as int);
            }
            return Some(at);
        }
        at += 1;
    }
    proof {
        seqs::lemma_first_where_is(all, called(needle@), at as int);
    }
    None
}

/// Resolves a typed value against the first option of a configuration category,
/// accepting either a value id or a human-readable option name.
pub fn resolve_value(
    session_options: Option<&Vec<SessionConfigOption>>,
    category: &SessionConfigOptionCategory,
    category_label: &str,
    input: &str,
) -> (result: BotResult<(String, OptionValue, String)>)
    ensures
        match (
            result,
            resolved(
                match session_options {
                    Some(all) => Some(all@),
                    None => None,
                },
                category@,
                category_label@,
                input@,
            ),
        ) {
            (Ok((id, value, label)), Ok(expected)) => (id@, value@, label@) == expected,
            (Err(BotError::Other(shown)), Err(expected)) => shown@ == expected,
            _ => false,
        },
{
    let all = match session_options {
        Some(all) => all,
        None => {
            return Err(
                BotError::Other(
                    text::copy("the ACP session is not running, so its options are unknown"),
                ),
            );
        },
    };
    let at = match choices::option_of_category(all, category) {
        Some(at) => at,
        None => {
            return Err(
                BotError::Other(
                    text::join3("this agent does not expose a ", category_label, " option"),
                ),
            );
        },
    };
    let id = text::copy(all[at].id.as_str());
    match &all[at].kind {
        SessionConfigKind::Select(select) => {
            let candidates = options::select_options(select);
            let mut values: Vec<(String, String)> = Vec::new();
            let mut i: usize = 0;
            while i < candidates.len()
                invariant
                    i <= candidates@.len(),
                    values@.len() == i,
                    forall|j: int|
                        0 <= j < i ==> (#[trigger] values@[j]).0@ == candidates@[j].value@
                            && values@[j].1@ == candidates@[j].name@,
                decreases candidates@.len() - i,
            {
                values.push(
                    (
                        text::copy(candidates[i].value.as_str()),
                        text::copy(candidates[i].name.as_str()),
                    ),
                );
                i += 1;
            }
            assert(text::keyed_views(values@) =~= options::choices(candidates@));
            match find_meant(&values, input, input) {
                Some(chosen) => {
                    assert(text::keyed_views(values@)[chosen as int] == (
                        values@[chosen as int].0@,
                        values@[chosen as int].1@,
                    ));
                    Ok(
                        (
                            id,
                            OptionValue::ValueId(text::copy(values[chosen].0.as_str())),
                            text::copy(values[chosen].1.as_str()),
                        ),
                    )
                },
                None => Err(
                    BotError::Other(
                        text::join5(
                            "unknown ",
                            category_label,
                            " `",
                            input,
                            "`; pick one of the suggestions",
                        ),
                    ),
                ),
            }
        },
        SessionConfigKind::Boolean { .. } => {
            let needle = text::to_lowercase(input);
            let word = needle.as_str();
            if text::same(word, "true") || text::same(word, "on") || text::same(word, "yes") {
                Ok((id, OptionValue::Boolean(true), text::copy("on")))
            } else if text::same(word, "false") || text::same(word, "off") || text::same(
                word,
                "no",
            ) {
                Ok((id, OptionValue::Boolean(false), text::copy("off")))
            } else {
                Err(
                    BotError::Other(
                        text::copy("this option is a toggle; use `true` or `false`"),
                    ),
                )
            }
        },
        SessionConfigKind::Other => Err(
            BotError::Other(
                text::join3("this agent's ", category_label, " option is not selectable"),
            ),
        ),
    }
}

/// A resolved value is one that the option offers.
pub proof fn a_resolved_value_is_offered(
    all: Seq<SessionConfigOption>,
    category: CategoryView,
    label: Seq<char>,
    input: Seq<char>,
)
    ensures
        resolved(Some(all), category, label, input) matches Ok((id, value, shown)) ==> exists|
            at: int,
        |
            0 <= at < all.len() && (#[trigger] all[at]).id@ == id && match value {
                OptionValueView::ValueId(chosen) => (
                all[at].kind matches SessionConfigKind::Select(select) && options::all_choices(
                    select,
                ).contains((chosen, shown))),
                OptionValueView::Boolean(_) => all[at].kind is Boolean,
            },
{
    if let Ok((id, value, shown)) = resolved(Some(all), category, label, input) {
        let at = seqs::first_where(all, options::categorized(category));
        seqs::lemma_first_where(all, options::categorized(category));
        assert(all[at].id@ == id);
        if let SessionConfigKind::Select(select) = all[at].kind {
            let candidates = options::all_choices(select);
            seqs::lemma_first_where(candidates, valued(input));
            seqs::lemma_first_where(candidates, called(text::lowercase(input)));
            let chosen = meant(candidates, input, input);
            assert(candidates[chosen] == (candidates[chosen].0, candidates[chosen].1));
        }
    }
}

/// One setting that was changed, with its name and the label of its value.
#[derive(Debug)]
pub struct Changed {
    /// What was set.
    pub name: &'static str,
    /// Label of the new value.
    pub label: String,
}

/// What is said of one changed setting.
pub open spec fn changed_text(name: Seq<char>, label: Seq<char>) -> Seq<char> {
    name + " set to **"@ + label + "**"@
}

/// What is said of changed settings.
pub open spec fn summary_of(changes: Seq<Changed>) -> Seq<char>
    decreases changes.len(),
{
    if changes.len() == 0 {
        Seq::empty()
    } else if changes.len() == 1 {
        changed_text(changes[0].name@, changes[0].label@)
    } else {
        summary_of(changes.drop_last()) + " · "@ + changed_text(
            changes.last().name@,
            changes.last().label@,
        )
    }
}

/// Tells the user what was changed.
pub fn summary(changes: &Vec<Changed>) -> (shown: String)
    ensures
        shown@ == summary_of(changes@),
{
    let mut shown = String::new();
    let mut i: usize = 0;
    assert(summary_of(changes@.take(0)) =~= Seq::<char>::empty());
    while i < changes.len()
        invariant
            i <= changes@.len(),
            shown@ == summary_of(changes@.take(i as int)),
        decreases changes@.len() - i,
    {
        let entry = text::join4(changes[i].name, " set to **", changes[i].label.as_str(), "**");
        assert(changes@.take(i + 1).drop_last() =~= changes@.take(i as int));
        if i > 0 {
            shown.append(" · ");
        }
        shown.append(entry.as_str());
        i += 1;
        assert(shown@ =~= summary_of(changes@.take(i as int)));
    }
    assert(changes@.take(i as int) =~= changes@);
    shown
}

/// Tells the user which model a session uses, where it runs.
pub fn status(running: bool, model: Option<&str>, thinking: Option<&str>) -> (shown: String)
    ensures
        shown@ == if running {
            "model: **"@ + match model {
                Some(label) => label@,
                None => "not exposed"@,
            } + "** · thinking: **"@ + match thinking {
                Some(label) => label@,
                None => "not exposed"@,
            } + "**"@
        } else {
            "this session is not running, so its current model is unknown"@
        },
{
    if !running {
        return text::copy("this session is not running, so its current model is unknown");
    }
    text::join5(
        "model: **",
        match model {
            Some(label) => label,
            None => "not exposed",
        },
        "** · thinking: **",
        match thinking {
            Some(label) => label,
            None => "not exposed",
        },
        "**",
    )
}

/// What a typed argument asks for: its text without surrounding space, unless that
/// is all there is.
pub open spec fn asked(argument: Option<Seq<char>>) -> Option<Seq<char>> {
    match argument {
        Some(typed) => if text::is_blank(typed) {
            None
        } else {
            Some(text::trimmed(typed))
        },
        None => None,
    }
}

fn read_argument(argument: Option<&str>) -> (typed: Option<String>)
    ensures
        text::opt_text(typed) == asked(text::opt_str(argument)),
{
    match argument {
        Some(typed) => if text::blank(typed) {
            None
        } else {
            Some(text::trim(typed))
        },
        None => None,
    }
}

/// A setting that is to be changed.
#[derive(Debug)]
pub struct Change {
    /// What is set.
    pub name: &'static str,
    /// Option to set.
    pub id: String,
    /// Its new value.
    pub value: OptionValue,
    /// Label of the new value.
    pub label: String,
}

/// The content of changes.
pub open spec fn change_views(changes: Seq<Change>) -> Seq<
    (Seq<char>, Seq<char>, OptionValueView, Seq<char>),
> {
    changes.map_values(|change: Change| (change.name@, change.id@, change.value@, change.label@))
}

/// The changes that the model command makes: of the model, then of the thought
/// level, each where it is asked for; or why one cannot be made.
pub open spec fn asked_changes(
    session_options: Option<Seq<SessionConfigOption>>,
    model: Option<Seq<char>>,
    thinking: Option<Seq<char>>,
) -> Result<Seq<(Seq<char>, Seq<char>, OptionValueView, Seq<char>)>, Seq<char>> {
    let first = match asked(model) {
        Some(input) => match resolved(session_options, CategoryView::Model, "model"@, input) {
            Ok((id, value, label)) => Ok(seq![("model"@, id, value, label)]),
            Err(reason) => Err(reason),
        },
        None => Ok(Seq::empty()),
    };
    match (first, asked(thinking)) {
        (Ok(before), Some(input)) => match resolved(
            session_options,
            CategoryView::ThoughtLevel,
            "thinking"@,
            input,
        ) {
            Ok((id, value, label)) => Ok(before.push(("thought level"@, id, value, label))),
            Err(reason) => Err(reason),
        },
        (first, _) => first,
    }
}

/// Finds the changes that the model command makes to a session's model and
/// thinking level; `None` where neither is given, and the current ones are shown.
pub fn model(
    session_options: Option<&Vec<SessionConfigOption>>,
    typed: Option<&str>,
    thinking: Option<&str>,
) -> (result: BotResult<Option<Vec<Change>>>)
    ensures
        match result {
            Ok(None) => typed is None && thinking is None,
            Ok(Some(changes)) => (typed is Some || thinking is Some) && asked_changes(
                match session_options {
                    Some(all) => Some(all@),
                    None => None,
                },
                text::opt_str(typed),
                text::opt_str(thinking),
            ) == Ok::<Seq<(Seq<char>, Seq<char>, OptionValueView, Seq<char>)>, Seq<char>>(
                change_views(changes@),
            ),
            Err(error) => (typed is Some || thinking is Some) && match asked_changes(
                match session_options {
                    Some(all) => Some(all@),
                    None => None,
                },
                text::opt_str(typed),
                text::opt_str(thinking),
            ) {
                Err(reason) => error.is_other(reason),
                Ok(_) => false,
            },
        },
{
    if typed.is_none() && thinking.is_none() {
        return Ok(None);
    }
    let mut changes: Vec<Change> = Vec::new();
    assert(change_views(changes@) =~= Seq::empty());
    if let Some(input) = read_argument(typed) {
        match resolve_value(
            session_options,
            &SessionConfigOptionCategory::Model,
            "model",
            input.as_str(),
        ) {
            Ok((id, value, label)) => {
                let ghost added = ("model"@, id@, value@, label@);
                changes.push(Change { name: "model", id, value, label });
                assert(change_views(changes@) =~= seq![added]);
            },
            Err(error) => return Err(error),
        }
    }
    let ghost before = change_views(changes@);
    if let Some(input) = read_argument(thinking) {
        match resolve_value(
            session_options,
            &SessionConfigOptionCategory::ThoughtLevel,
            "thinking",
            input.as_str(),
        ) {
            Ok((id, value, label)) => {
                let ghost added = ("thought level"@, id@, value@, label@);
                changes.push(Change { name: "thought level", id, value, label });
                assert(change_views(changes@) =~= before.push(added));
            },
            Err(error) => return Err(error),
        }
    }
    Ok(Some(changes))
}

} // verus!
