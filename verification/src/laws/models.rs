//! Laws of selecting models and reasoning levels.

use vstd::prelude::*;

use crate::acp::model;
use crate::acp::model::{SpecRead, SpecView};
use crate::acp::options;
use crate::acp::options::{
    AcpErrorView, CategoryView, SessionConfigKind, SessionConfigOption, SessionConfigSelect,
    SessionConfigSelectOption, SessionConfigSelectOptions,
};
use crate::commands::model as command;
use crate::commands::model::OptionValueView;
use crate::seqs;
use crate::text;

verus! {

/// A list of choices holds a value under a name.
pub open spec fn lists(
    choices: Seq<SessionConfigSelectOption>,
    value: Seq<char>,
    name: Seq<char>,
) -> bool {
    exists|i: int|
        0 <= i < choices.len() && (#[trigger] choices[i]).value@ == value && choices[i].name@
            == name
}

/// A selection offers a value under a name, in one of its groups or outside any.
pub open spec fn offers(
    select: SessionConfigSelect,
    value: Seq<char>,
    name: Seq<char>,
) -> bool {
    match select.options {
        SessionConfigSelectOptions::Ungrouped(choices) => lists(choices@, value, name),
        SessionConfigSelectOptions::Grouped(groups) => exists|g: int|
            0 <= g < groups@.len() && lists((#[trigger] groups@[g]).options@, value, name),
        SessionConfigSelectOptions::Other => false,
    }
}

/// A selection offers a value under any name.
pub open spec fn offers_value(select: SessionConfigSelect, value: Seq<char>) -> bool {
    exists|name: Seq<char>| #[trigger] offers(select, value, name)
}

/// A selection offers a value under a name that is equal to the input whatever the
/// case.
pub open spec fn offers_as(
    select: SessionConfigSelect,
    value: Seq<char>,
    input: Seq<char>,
) -> bool {
    exists|name: Seq<char>|
        #[trigger] offers(select, value, name) && text::lowercase(name) == text::lowercase(input)
}

proof fn lemma_choices(
    choices: Seq<SessionConfigSelectOption>,
    value: Seq<char>,
    name: Seq<char>,
)
    ensures
        options::choices(choices).contains((value, name)) <==> lists(choices, value, name),
{
    let all = options::choices(choices);
    if all.contains((value, name)) {
        let i = choose|i: int| 0 <= i < all.len() && all[i] == (value, name);
        assert(choices[i].value@ == value && choices[i].name@ == name);
    }
    if lists(choices, value, name) {
        let i = choose|i: int|
            0 <= i < choices.len() && (#[trigger] choices[i]).value@ == value && choices[i].name@
                == name;
        assert(all[i] == (value, name));
    }
}

/// The choices of a selection are the values it offers with their names.
pub proof fn all_choices_are_offered(
    select: SessionConfigSelect,
    value: Seq<char>,
    name: Seq<char>,
)
    ensures
        options::all_choices(select).contains((value, name)) <==> offers(select, value, name),
{
    match select.options {
        SessionConfigSelectOptions::Ungrouped(choices) => lemma_choices(choices@, value, name),
        SessionConfigSelectOptions::Grouped(groups) => {
            let lists_of = groups@.map_values(
                |group: options::SessionConfigSelectGroup| options::choices(group.options@),
            );
            crate::laws::permissions::lemma_flattened_holds(lists_of, (value, name));
            if options::all_choices(select).contains((value, name)) {
                let (r, c) = choose|r: int, c: int|
                    0 <= r < lists_of.len() && 0 <= c < lists_of[r].len()
                        && #[trigger] lists_of[r][c] == (value, name);
                lemma_choices(groups@[r].options@, value, name);
                assert(options::choices(groups@[r].options@)[c] == (value, name));
                assert(lists(groups@[r].options@, value, name));
            }
            if offers(select, value, name) {
                let g = choose|g: int|
                    0 <= g < groups@.len() && lists((#[trigger] groups@[g]).options@, value, name);
                lemma_choices(groups@[g].options@, value, name);
                let inner = options::choices(groups@[g].options@);
                let c = choose|c: int| 0 <= c < inner.len() && inner[c] == (value, name);
                assert(lists_of[g][c] == (value, name));
            }
        },
        SessionConfigSelectOptions::Other => {},
    }
}

/// Where an option offers a value equal to the input, the value it takes is the
/// input. Otherwise the value it takes belongs to an offered choice whose name
/// equals the input whatever the case. It takes one wherever there is such a choice.
pub proof fn an_input_selects_what_it_names(
    option: SessionConfigOption,
    input: Seq<char>,
    label: Seq<char>,
)
    ensures
        match option.kind {
            SessionConfigKind::Select(select) => {
                &&& offers_value(select, input) ==> options::value_for(option, input, label) == Ok::<
                    Seq<char>,
                    AcpErrorView,
                >(input)
                &&& !offers_value(select, input) ==> (options::value_for(
                    option,
                    input,
                    label,
                ) matches Ok(value) ==> offers_as(select, value, input))
                &&& options::value_for(option, input, label) is Ok <==> offers_value(select, input)
                    || exists|value: Seq<char>| #[trigger] offers_as(select, value, input)
            },
            _ => options::value_for(option, input, label) is Err,
        },
{
    if let SessionConfigKind::Select(select) = option.kind {
        let all = options::all_choices(select);
        let exact = options::with_value(input);
        let named = options::with_name(input);
        seqs::lemma_first_where(all, exact);
        seqs::lemma_first_where(all, named);
        let at = options::choice_for(all, input);
        if offers_value(select, input) {
            let name = choose|name: Seq<char>| #[trigger] offers(select, input, name);
            all_choices_are_offered(select, input, name);
            let k = choose|k: int| 0 <= k < all.len() && all[k] == (input, name);
            assert(exact(all[k]));
            assert(exact(all[at]));
        } else {
            if seqs::first_where(all, exact) < all.len() {
                let hit = all[seqs::first_where(all, exact)];
                all_choices_are_offered(select, hit.0, hit.1);
                assert(all.contains((hit.0, hit.1)));
                assert(offers(select, input, hit.1));
            }
            if at < all.len() {
                let hit = all[at];
                all_choices_are_offered(select, hit.0, hit.1);
                assert(all.contains((hit.0, hit.1)));
                assert(offers(select, hit.0, hit.1));
                assert(offers_as(select, hit.0, input));
            }
            if exists|value: Seq<char>| #[trigger] offers_as(select, value, input) {
                let value = choose|value: Seq<char>| #[trigger] offers_as(select, value, input);
                let name = choose|name: Seq<char>|
                    #[trigger] offers(select, value, name) && text::lowercase(name)
                        == text::lowercase(input);
                all_choices_are_offered(select, value, name);
                let k = choose|k: int| 0 <= k < all.len() && all[k] == (value, name);
                assert(named(all[k]));
            }
        }
    }
}

/// An option has one of some words as its identifier or name, whatever the case.
pub open spec fn goes_by(option: SessionConfigOption, words: Seq<Seq<char>>) -> bool {
    exists|k: int|
        0 <= k < words.len() && (text::ascii_lowered(option.id@) == text::ascii_lowered(
            #[trigger] words[k],
        ) || text::ascii_lowered(option.name@) == text::ascii_lowered(words[k]))
}

/// An option says that it is of a category.
pub open spec fn says_it_is(option: SessionConfigOption, category: CategoryView) -> bool {
    option.category is Some && option.category->0@ == category
}

/// The option for a category is the first that says that it is of it. Only where none
/// does, it is the first that goes by one of the words for the category.
pub proof fn the_option_of_a_category_comes_first(
    all: Seq<SessionConfigOption>,
    category: CategoryView,
    words: Seq<Seq<char>>,
)
    ensures
        ({
            let at = options::option_for(all, category, words);
            &&& 0 <= at <= all.len()
            &&& at < all.len() ==> says_it_is(all[at], category) && (forall|i: int|
                0 <= i < at ==> !says_it_is(#[trigger] all[i], category)) || (forall|i: int|
                0 <= i < all.len() ==> !says_it_is(#[trigger] all[i], category)) && goes_by(
                all[at],
                words,
            ) && (forall|i: int| 0 <= i < at ==> !goes_by(#[trigger] all[i], words))
            &&& at == all.len() ==> forall|i: int|
                0 <= i < all.len() ==> !says_it_is(#[trigger] all[i], category) && !goes_by(
                    all[i],
                    words,
                )
        }),
{
    let own = options::categorized(category);
    let named = options::aliased(words);
    seqs::lemma_first_where(all, own);
    seqs::lemma_first_where(all, named);
    assert forall|option: SessionConfigOption| #[trigger] own(option) == says_it_is(
        option,
        category,
    ) by {
    }
    assert forall|option: SessionConfigOption| #[trigger] named(option) == goes_by(
        option,
        words,
    ) by {
    }
}

/// A model option goes by its own name, and a reasoning option by any of three.
pub proof fn the_words_for_models_and_reasoning()
    ensures
        options::model_aliases() == seq!["model"@],
        options::reasoning_aliases() == seq!["reasoning"@, "thought_level"@, "thinking"@],
{
}

/// What a selector stands for: the value of the model first, then, where it names a
/// reasoning level, the value of that level, each for the option of its category. It
/// stands for nothing where the session does not offer one of them.
pub proof fn a_selector_sets_model_and_level(all: Seq<SessionConfigOption>, wanted: SpecView)
    ensures
        ({
            let model_at = options::option_for(all, CategoryView::Model, seq!["model"@]);
            let level_at = options::option_for(
                all,
                CategoryView::ThoughtLevel,
                seq!["reasoning"@, "thought_level"@, "thinking"@],
            );
            let named = if wanted.provider.len() == 0 {
                wanted.model
            } else {
                wanted.provider + "/"@ + wanted.model
            };
            match options::changes_for(all, wanted) {
                Ok(changes) => {
                    &&& changes.len() == if wanted.reasoning.len() == 0 {
                        1nat
                    } else {
                        2nat
                    }
                    &&& model_at < all.len() && changes[0].0 == all[model_at].id@
                    &&& options::value_for(all[model_at], named, "model"@) == Ok::<
                        Seq<char>,
                        AcpErrorView,
                    >(changes[0].1)
                    &&& wanted.reasoning.len() > 0 ==> level_at < all.len() && changes[1].0
                        == all[level_at].id@ && options::value_for(
                        all[level_at],
                        wanted.reasoning,
                        "reasoning"@,
                    ) == Ok::<Seq<char>, AcpErrorView>(changes[1].1)
                },
                Err(_) => model_at >= all.len() || options::value_for(
                    all[model_at],
                    named,
                    "model"@,
                ) is Err || (wanted.reasoning.len() > 0 && (level_at >= all.len()
                    || options::value_for(all[level_at], wanted.reasoning, "reasoning"@) is Err)),
            }
        }),
{
    let model_at = options::option_for(all, CategoryView::Model, seq!["model"@]);
    the_option_of_a_category_comes_first(all, CategoryView::Model, seq!["model"@]);
    the_option_of_a_category_comes_first(
        all,
        CategoryView::ThoughtLevel,
        seq!["reasoning"@, "thought_level"@, "thinking"@],
    );
    if model_at < all.len() {
        let value = options::value_for(all[model_at], wanted.model_value(), "model"@);
    }
}

/// Selecting what a session currently uses reads back: its model and, where it has
/// one, its reasoning level.
pub proof fn the_current_model_names_model_and_level(all: Seq<SessionConfigOption>)
    ensures
        match (options::model_selection(all), options::current_model(all)) {
            (None, None) => true,
            (Some(model), Some(current)) => match options::reasoning_selection(all) {
                Some(reasoning) if reasoning.current_value@.len() > 0 => current
                    == model.current_value@ + seq![':'] + reasoning.current_value@,
                _ => current == model.current_value@,
            },
            _ => false,
        },
{
    reveal_strlit(":");
    assert(":"@ =~= seq![':']);
}

/// A text reads as a selector exactly where it is, but for the space around it, what
/// a well-formed selector is written as; with two colons it never does.
pub proof fn a_selector_reads_where_it_is_written(raw: Seq<char>)
    ensures
        model::spec_read(raw) is Read <==> exists|spec: SpecView|
            #[trigger] spec.well_formed() && spec.canonical() == text::trimmed(raw),
        (exists|i: int, j: int|
            0 <= i < j < text::trimmed(raw).len() && #[trigger] text::trimmed(raw)[i] == ':'
                && #[trigger] text::trimmed(raw)[j] == ':') <==> model::spec_read(raw)
            == SpecRead::ExtraSeparator(text::trimmed(raw)),
{
    let input = text::trimmed(raw);
    model::a_read_selector_is_well_formed(raw);
    model::a_read_selector_keeps_its_text(raw);
    if exists|spec: SpecView| #[trigger] spec.well_formed() && spec.canonical() == input {
        let spec = choose|spec: SpecView| #[trigger] spec.well_formed() && spec.canonical()
            == input;
        model::a_canonical_selector_reads_back(spec);
        crate::laws::texts::trimming_takes_away_outer_space(raw);
    }
    text::lemma_first_at(input, ':', 0);
    let colon = text::first_at(input, ':', 0);
    if exists|i: int, j: int|
        0 <= i < j < input.len() && #[trigger] input[i] == ':' && #[trigger] input[j] == ':' {
        let (i, j) = choose|i: int, j: int|
            0 <= i < j < input.len() && #[trigger] input[i] == ':' && #[trigger] input[j] == ':';
        assert(colon <= i);
        let reasoning = input.skip(colon + 1);
        assert(reasoning[j - colon - 1] == ':');
    }
    if model::spec_read(raw) is ExtraSeparator {
        let reasoning = input.skip(colon + 1);
        let k = choose|k: int| 0 <= k < reasoning.len() && reasoning[k] == ':';
        assert(input[colon] == ':' && input[colon + 1 + k] == ':');
    }
}

/// A typed value is resolved against the first option of the category: to the value
/// itself where it is offered, else to one that is offered under that name whatever
/// the case, and a switch to its position. It is resolved wherever there is such a
/// value, and never without a running session.
pub proof fn a_typed_value_is_what_it_names(
    session: Option<Seq<SessionConfigOption>>,
    category: CategoryView,
    label: Seq<char>,
    input: Seq<char>,
)
    ensures
        match command::resolved(session, category, label, input) {
            Ok((id, value, shown)) => session is Some && exists|at: int|
                #![trigger session->0[at]]
                0 <= at < session->0.len() && says_it_is(session->0[at], category) && (forall|
                    i: int,
                |
                    0 <= i < at ==> !says_it_is(#[trigger] session->0[i], category))
                    && session->0[at].id@ == id && match (session->0[at].kind, value) {
                    (SessionConfigKind::Select(select), OptionValueView::ValueId(chosen)) => {
                        &&& offers(select, chosen, shown)
                        &&& offers_value(select, input) ==> chosen == input
                        &&& !offers_value(select, input) ==> text::lowercase(shown)
                            == text::lowercase(input)
                    },
                    (SessionConfigKind::Boolean { .. }, OptionValueView::Boolean(on)) => {
                        let word = text::lowercase(input);
                        on <==> word == "true"@ || word == "on"@ || word == "yes"@
                    },
                    _ => false,
                },
            Err(_) => match session {
                None => true,
                Some(all) => forall|at: int|
                    0 <= at < all.len() && says_it_is(#[trigger] all[at], category) && (forall|
                        i: int,
                    |
                        0 <= i < at ==> !says_it_is(#[trigger] all[i], category)) ==> match all[at].kind {
                        SessionConfigKind::Select(select) => !offers_value(select, input) && (forall|
                            value: Seq<char>,
                        | !#[trigger] offers_as(select, value, input)),
                        SessionConfigKind::Boolean { .. } => {
                            let word = text::lowercase(input);
                            word != "true"@ && word != "false"@ && word != "on"@ && word != "off"@
                                && word != "yes"@ && word != "no"@
                        },
                        SessionConfigKind::Other => true,
                    },
            },
        },
{
    if let Some(all) = session {
        let own = options::categorized(category);
        seqs::lemma_first_where(all, own);
        assert forall|option: SessionConfigOption| #[trigger] own(option) == says_it_is(
            option,
            category,
        ) by {
        }
        let at = seqs::first_where(all, own);
        if at < all.len() {
            assert(says_it_is(all[at], category));
            if let SessionConfigKind::Select(select) = all[at].kind {
                lemma_meant(select, input);
            }
            reveal_strlit("true");
            reveal_strlit("on");
            reveal_strlit("yes");
            reveal_strlit("false");
            reveal_strlit("off");
            reveal_strlit("no");
            assert("true"@.len() == 4 && "on"@.len() == 2 && "yes"@.len() == 3 && "false"@.len()
                == 5 && "off"@.len() == 3 && "no"@.len() == 2);
            assert("on"@[0] == 'o' && "no"@[0] == 'n' && "yes"@[0] == 'y' && "off"@[0] == 'o');
        }
    }
}

/// What is meant by a typed value among the choices of a selection.
proof fn lemma_meant(select: SessionConfigSelect, input: Seq<char>)
    ensures
        ({
            let all = options::all_choices(select);
            let at = command::meant(all, input, input);
            &&& 0 <= at <= all.len()
            &&& at < all.len() ==> {
                &&& offers(select, all[at].0, all[at].1)
                &&& offers_value(select, input) ==> all[at].0 == input
                &&& !offers_value(select, input) ==> text::lowercase(all[at].1)
                    == text::lowercase(input)
            }
            &&& at == all.len() ==> !offers_value(select, input) && (forall|value: Seq<char>|
                !#[trigger] offers_as(select, value, input))
        }),
{
    let all = options::all_choices(select);
    let exact = command::valued(input);
    let named = command::called(text::lowercase(input));
    seqs::lemma_first_where(all, exact);
    seqs::lemma_first_where(all, named);
    let at = command::meant(all, input, input);
    if at < all.len() {
        all_choices_are_offered(select, all[at].0, all[at].1);
        assert(all.contains((all[at].0, all[at].1)));
    }
    if offers_value(select, input) {
        let name = choose|name: Seq<char>| #[trigger] offers(select, input, name);
        all_choices_are_offered(select, input, name);
        let k = choose|k: int| 0 <= k < all.len() && all[k] == (input, name);
        assert(exact(all[k]));
    } else {
        let first = seqs::first_where(all, exact);
        if first < all.len() {
            all_choices_are_offered(select, all[first].0, all[first].1);
            assert(all.contains((all[first].0, all[first].1)));
            assert(offers(select, input, all[first].1));
        }
    }
    assert forall|value: Seq<char>| at == all.len() implies !#[trigger] offers_as(
        select,
        value,
        input,
    ) by {
        if offers_as(select, value, input) {
            let name = choose|name: Seq<char>|
                #[trigger] offers(select, value, name) && text::lowercase(name)
                    == text::lowercase(input);
            all_choices_are_offered(select, value, name);
            let k = choose|k: int| 0 <= k < all.len() && all[k] == (value, name);
            assert(named(all[k]));
        }
    }
}

/// Nothing is changed for what was left blank, the model is changed before the
/// reasoning level, and nothing is changed at all where one of them is not offered.
pub proof fn what_is_asked_is_changed(
    session: Option<Seq<SessionConfigOption>>,
    model: Option<Seq<char>>,
    thinking: Option<Seq<char>>,
)
    ensures
        ({
            let first = model is Some && !text::is_blank(model->0);
            let second = thinking is Some && !text::is_blank(thinking->0);
            let for_model = command::resolved(
                session,
                CategoryView::Model,
                "model"@,
                text::trimmed(model->0),
            );
            let for_level = command::resolved(
                session,
                CategoryView::ThoughtLevel,
                "thinking"@,
                text::trimmed(thinking->0),
            );
            match command::asked_changes(session, model, thinking) {
                Ok(changes) => {
                    &&& changes.len() == (if first {
                        1int
                    } else {
                        0int
                    }) + (if second {
                        1int
                    } else {
                        0int
                    })
                    &&& first ==> for_model is Ok && (changes[0].1, changes[0].2, changes[0].3)
                        == for_model->Ok_0
                    &&& second ==> for_level is Ok && (
                        changes.last().1,
                        changes.last().2,
                        changes.last().3,
                    ) == for_level->Ok_0
                },
                Err(_) => first && for_model is Err || second && for_level is Err,
            }
        }),
{
}

/// The choices of a selection stand in the order in which it lists them: those of a
/// group behind those of all groups before it.
pub proof fn choices_stand_in_order(select: SessionConfigSelect, g: int, i: int)
    ensures
        match select.options {
            SessionConfigSelectOptions::Ungrouped(list) => options::all_choices(select).len()
                == list@.len() && (0 <= i < list@.len() ==> options::all_choices(select)[i] == (
                list@[i].value@,
                list@[i].name@,
            )),
            SessionConfigSelectOptions::Grouped(groups) => {
                let lists = groups@.map_values(
                    |group: options::SessionConfigSelectGroup| group.options@,
                );
                0 <= g < groups@.len() && 0 <= i < groups@[g].options@.len()
                    ==> options::all_choices(select)[crate::laws::permissions::offset(lists, g) + i]
                    == (groups@[g].options@[i].value@, groups@[g].options@[i].name@)
            },
            SessionConfigSelectOptions::Other => options::all_choices(select).len() == 0,
        },
{
    if let SessionConfigSelectOptions::Grouped(groups) = select.options {
        let lists = groups@.map_values(|group: options::SessionConfigSelectGroup| group.options@);
        let shown = groups@.map_values(
            |group: options::SessionConfigSelectGroup| options::choices(group.options@),
        );
        if 0 <= g < groups@.len() && 0 <= i < groups@[g].options@.len() {
            crate::laws::permissions::lemma_flattened_at(shown, g, i);
            lemma_same_offset(groups@, g);
        }
    }
}

proof fn lemma_same_offset(groups: Seq<options::SessionConfigSelectGroup>, count: int)
    requires
        0 <= count <= groups.len(),
    ensures
        crate::laws::permissions::offset(
            groups.map_values(|group: options::SessionConfigSelectGroup| group.options@),
            count,
        ) == crate::laws::permissions::offset(
            groups.map_values(
                |group: options::SessionConfigSelectGroup| options::choices(group.options@),
            ),
            count,
        ),
    decreases count,
{
    if count > 0 {
        lemma_same_offset(groups, count - 1);
    }
}

/// A session lets a category be selected exactly where the option for it is a selection.
pub proof fn a_selection_is_that_of_its_option(
    all: Seq<SessionConfigOption>,
    category: CategoryView,
    words: Seq<Seq<char>>,
)
    ensures
        ({
            let at = options::option_for(all, category, words);
            match options::selection_for(all, category, words) {
                Some(select) => at < all.len() && all[at].kind == SessionConfigKind::Select(select),
                None => at >= all.len() || !(all[at].kind is Select),
            }
        }),
        options::model_selection(all) == options::selection_for(
            all,
            CategoryView::Model,
            seq!["model"@],
        ),
        options::reasoning_selection(all) == options::selection_for(
            all,
            CategoryView::ThoughtLevel,
            seq!["reasoning"@, "thought_level"@, "thinking"@],
        ),
{
}

/// A selector is written as its provider, a slash, its model, a colon and its reasoning
/// level, without the separator of a part that it lacks, and reads back as these parts.
pub proof fn a_selector_is_written_part_by_part(
    provider: Seq<char>,
    name: Seq<char>,
    level: Seq<char>,
)
    requires
        name.len() > 0,
        is_word(provider) && is_word(name) && is_word(level),
        !provider.contains('/'),
        provider.len() == 0 ==> !name.contains('/'),
    ensures
        ({
            let spec = SpecView { provider, model: name, reasoning: level };
            let written = (if provider.len() > 0 {
                provider.push('/') + name
            } else {
                name
            }) + (if level.len() > 0 {
                seq![':'] + level
            } else {
                Seq::empty()
            });
            spec.canonical() == written && model::spec_read(written) == SpecRead::Read(spec)
        }),
{
    let spec = SpecView { provider, model: name, reasoning: level };
    reveal_strlit("/");
    reveal_strlit(":");
    let written = (if provider.len() > 0 {
        provider.push('/') + name
    } else {
        name
    }) + (if level.len() > 0 {
        seq![':'] + level
    } else {
        Seq::empty()
    });
    lemma_word(provider);
    lemma_word(name);
    lemma_word(level);
    assert(spec.canonical() =~= written);
    model::a_canonical_selector_reads_back(spec);
}

/// A text without space and without a colon.
pub open spec fn is_word(s: Seq<char>) -> bool {
    forall|i: int| 0 <= i < s.len() ==> !text::is_space(#[trigger] s[i]) && s[i] != ':'
}

proof fn lemma_word(s: Seq<char>)
    requires
        is_word(s),
    ensures
        !model::has_space(s),
        !s.contains(':'),
{
}

/// A slash before the colon with nothing before it, or nothing between it and the
/// colon or the end.
pub open spec fn has_gap(input: Seq<char>) -> bool {
    exists|k: int|
        0 <= k < input.len() && #[trigger] input[k] == '/' && (forall|i: int|
            0 <= i < k ==> input[i] != '/' && input[i] != ':') && (k == 0 || k + 1 == input.len()
            || input[k + 1] == ':')
}

/// A selector with at most one colon lacks a part exactly where it is empty, begins or
/// ends with the colon, or has nothing on one side of the first slash; one that lacks
/// none is refused exactly where there is space in it.
pub proof fn a_refused_selector_lacks_a_part_or_holds_space(raw: Seq<char>)
    requires
        !(model::spec_read(raw) is ExtraSeparator),
    ensures
        ({
            let input = text::trimmed(raw);
            let lacking = input.len() == 0 || input[0] == ':' || input.last() == ':' || has_gap(
                input,
            );
            &&& model::spec_read(raw) == SpecRead::EmptyPart(input) <==> lacking
            &&& model::spec_read(raw) == SpecRead::Whitespace(input) <==> !lacking
                && model::has_space(input)
        }),
{
    let input = text::trimmed(raw);
    text::lemma_first_at(input, ':', 0);
    let colon = text::first_at(input, ':', 0);
    let value = input.take(colon);
    text::lemma_first_at(value, '/', 0);
    let slash = text::first_at(value, '/', 0);
    let reasoning = if colon < input.len() {
        input.skip(colon + 1)
    } else {
        Seq::empty()
    };
    let provider = if slash < value.len() {
        value.take(slash)
    } else {
        Seq::empty()
    };
    let name = if slash < value.len() {
        value.skip(slash + 1)
    } else {
        value
    };
    assert(forall|i: int| 0 <= i < colon ==> value[i] == input[i]);
    if slash < value.len() && (provider.len() == 0 || name.len() == 0) {
        assert(input[slash] == '/');
        assert forall|i: int| 0 <= i < slash implies input[i] != '/' && input[i] != ':' by {
            assert(value[i] != '/');
        }
        assert(has_gap(input));
    }
    if has_gap(input) {
        let k = choose|k: int|
            0 <= k < input.len() && #[trigger] input[k] == '/' && (forall|i: int|
                0 <= i < k ==> input[i] != '/' && input[i] != ':') && (k == 0 || k + 1
                == input.len() || input[k + 1] == ':');
        if colon < k {
            assert(input[colon] == ':');
        }
        assert(k < colon);
        assert(value[k] == '/');
        if slash < k {
            assert(value[slash] == input[slash]);
        }
        assert(slash == k);
    }
    if model::has_space(input) {
        let i = choose|i: int| 0 <= i < input.len() && text::is_space(#[trigger] input[i]);
        if i > colon {
            assert(reasoning[i - colon - 1] == input[i]);
        } else if i < colon && slash >= value.len() {
            assert(name[i] == input[i]);
        } else if i < slash {
            assert(provider[i] == input[i]);
        } else if slash < i && i < colon {
            assert(name[i - slash - 1] == input[i]);
        }
    }
    if model::has_space(provider) {
        let i = choose|i: int| 0 <= i < provider.len() && text::is_space(#[trigger] provider[i]);
        assert(input[i] == provider[i]);
    }
    if model::has_space(name) {
        let i = choose|i: int| 0 <= i < name.len() && text::is_space(#[trigger] name[i]);
        if slash < value.len() {
            assert(input[slash + 1 + i] == name[i]);
        } else {
            assert(input[i] == name[i]);
        }
    }
    if model::has_space(reasoning) {
        let i = choose|i: int| 0 <= i < reasoning.len() && text::is_space(#[trigger] reasoning[i]);
        assert(input[colon + 1 + i] == reasoning[i]);
    }
}

} // verus!
