//! Laws of suggestions: what is offered for what was typed.

use vstd::prelude::*;

use crate::acp::options;
use crate::acp::options::{SessionConfigOption, SessionConfigSelect};
use crate::acp::model as selector;
use crate::acp::protocol::ListedSession;
use crate::commands::choices;
use crate::commands::choices::{AgentCommand, CandidateView};
use crate::commands::harness;
use crate::commands::model;
use crate::commands::workspace;
use crate::commands::workspace::DirectoryEntry;
use crate::config::AgentView;
use crate::laws::models;
use crate::laws::permissions;
use crate::seqs;
use crate::text;

verus! {

/// How many items satisfy a predicate.
pub open spec fn count_where<T>(items: Seq<T>, wanted: spec_fn(T) -> bool) -> nat
    decreases items.len(),
{
    if items.len() == 0 {
        0
    } else {
        count_where(items.drop_last(), wanted) + if wanted(items.last()) {
            1nat
        } else {
            0nat
        }
    }
}

/// Each item that satisfies a predicate stands among those that do behind as many as
/// do before it.
pub proof fn lemma_all_where<T>(items: Seq<T>, wanted: spec_fn(T) -> bool)
    ensures
        seqs::all_where(items, wanted).len() == count_where(items, wanted),
        forall|i: int|
            0 <= i < items.len() && wanted(#[trigger] items[i]) ==> count_where(
                items.take(i),
                wanted,
            ) < seqs::all_where(items, wanted).len() && seqs::all_where(
                items,
                wanted,
            )[count_where(items.take(i), wanted) as int] == items[i],
    decreases items.len(),
{
    if items.len() > 0 {
        let head = items.drop_last();
        lemma_all_where(head, wanted);
        let all = seqs::all_where(items, wanted);
        let before = seqs::all_where(head, wanted);
        assert forall|i: int| 0 <= i < items.len() && wanted(#[trigger] items[i]) implies count_where(
            items.take(i),
            wanted,
        ) < all.len() && all[count_where(items.take(i), wanted) as int] == items[i] by {
            if i < head.len() {
                assert(head.take(i) =~= items.take(i));
                assert(head[i] == items[i]);
                assert(before[count_where(head.take(i), wanted) as int] == head[i]);
            } else {
                assert(items.take(i) =~= head);
            }
        }
    }
}

/// What satisfies a predicate is what stands among those that do.
pub proof fn lemma_all_where_holds<T>(items: Seq<T>, wanted: spec_fn(T) -> bool, item: T)
    ensures
        seqs::all_where(items, wanted).contains(item) <==> items.contains(item) && wanted(item),
    decreases items.len(),
{
    if items.len() > 0 {
        let head = items.drop_last();
        lemma_all_where_holds(head, wanted, item);
        let all = seqs::all_where(items, wanted);
        let before = seqs::all_where(head, wanted);
        if all.contains(item) {
            let k = choose|k: int| 0 <= k < all.len() && all[k] == item;
            if k < before.len() {
                assert(before[k] == item);
                let i = choose|i: int| 0 <= i < head.len() && head[i] == item;
                assert(items[i] == item);
            } else {
                assert(items[items.len() - 1] == item);
            }
        }
        if items.contains(item) && wanted(item) {
            let i = choose|i: int| 0 <= i < items.len() && items[i] == item;
            if i < head.len() {
                assert(head[i] == item);
                let k = choose|k: int| 0 <= k < before.len() && before[k] == item;
                assert(all[k] == item);
            } else {
                assert(all.last() == item);
            }
        }
    }
}

/// Of the candidates that what was typed finds, the first twenty-five are offered, in
/// order: each stands behind as many offers as are found before it.
pub proof fn the_first_found_are_offered(candidates: Seq<CandidateView>, needle: Seq<char>)
    ensures
        ({
            let wanted = |candidate: CandidateView|
                exists|k: int|
                    0 <= k < candidate.found_by.len() && text::contains(
                        #[trigger] candidate.found_by[k],
                        needle,
                    );
            let shown = choices::offered(candidates, needle);
            let total = count_where(candidates, wanted);
            &&& shown.len() == if total <= 25 {
                total
            } else {
                25
            }
            &&& forall|i: int|
                0 <= i < candidates.len() && wanted(#[trigger] candidates[i]) && count_where(
                    candidates.take(i),
                    wanted,
                ) < 25 ==> shown[count_where(candidates.take(i), wanted) as int] == (
                    candidates[i].name,
                    candidates[i].value,
                )
        }),
{
    let wanted = |candidate: CandidateView|
        exists|k: int|
            0 <= k < candidate.found_by.len() && text::contains(
                #[trigger] candidate.found_by[k],
                needle,
            );
    let found = choices::found(needle);
    assert forall|candidate: CandidateView| #[trigger] found(candidate) == wanted(candidate) by {
    }
    assert(found =~= wanted);
    lemma_all_where(candidates, wanted);
}

/// An agent is found by its key and by its display name, whatever the case, shown
/// under its name and chosen by its key.
pub proof fn an_agent_is_found_by_key_and_name(agent: (Seq<char>, AgentView), typed: Seq<char>)
    ensures
        ({
            let candidate = choices::agent_candidate(agent);
            &&& choices::is_found(candidate.found_by, text::lowercase(typed)) <==> text::contains(
                text::lowercase(agent.0),
                text::lowercase(typed),
            ) || text::contains(text::lowercase(agent.1.display_name), text::lowercase(typed))
            &&& candidate.name == agent.1.display_name
            &&& candidate.value == agent.0
        }),
{
    let found = choices::agent_candidate(agent).found_by;
    let needle = text::lowercase(typed);
    if text::contains(found[0], needle) {
        assert(choices::is_found(found, needle));
    }
    if text::contains(found[1], needle) {
        assert(choices::is_found(found, needle));
    }
}

/// A session is found by its identifier and by its title, whatever the case, shown
/// under its title where it has a visible one, and chosen by its identifier.
pub proof fn a_session_is_found_by_id_and_title(session: ListedSession, typed: Seq<char>)
    ensures
        ({
            let candidate = choices::session_candidate(session);
            &&& choices::is_found(candidate.found_by, text::lowercase(typed)) <==> text::contains(
                text::lowercase(session.session_id@),
                text::lowercase(typed),
            ) || (session.title matches Some(title) && text::contains(
                text::lowercase(title@),
                text::lowercase(typed),
            ))
            &&& candidate.value == session.session_id@
            &&& (session.title matches Some(title) && !text::is_blank(title@) && title@.len()
                <= 100) ==> candidate.name == session.title->0@
            &&& candidate.name.len() <= 100
        }),
{
    let found = choices::session_candidate(session).found_by;
    let needle = text::lowercase(typed);
    reveal_strlit("session ");
    if text::contains(found[0], needle) {
        assert(choices::is_found(found, needle));
    }
    if session.title is Some && text::contains(found[1], needle) {
        assert(choices::is_found(found, needle));
    }
}

/// A named value is found by its value and by its name, whatever the case, shown
/// under its name and chosen by its value.
pub proof fn a_named_value_is_found_by_value_and_name(
    choice: (Seq<char>, Seq<char>),
    typed: Seq<char>,
)
    ensures
        ({
            let candidate = choices::named_candidate(choice);
            &&& choices::is_found(candidate.found_by, text::lowercase(typed)) <==> text::contains(
                text::lowercase(choice.0),
                text::lowercase(typed),
            ) || text::contains(text::lowercase(choice.1), text::lowercase(typed))
            &&& candidate.value == choice.0
            &&& choice.1.len() <= 100 ==> candidate.name == choice.1
            &&& candidate.name.len() <= 100
        }),
{
    let found = choices::named_candidate(choice).found_by;
    let needle = text::lowercase(typed);
    if text::contains(found[0], needle) {
        assert(choices::is_found(found, needle));
    }
    if text::contains(found[1], needle) {
        assert(choices::is_found(found, needle));
    }
}

/// A command is found by its name and by its description, whatever the case, and
/// chosen by its name.
pub proof fn a_command_is_found_by_name_and_description(command: AgentCommand, typed: Seq<char>)
    ensures
        ({
            let candidate = choices::command_candidate(command);
            &&& choices::is_found(candidate.found_by, text::lowercase(typed)) <==> text::contains(
                text::lowercase(command.name@),
                text::lowercase(typed),
            ) || text::contains(text::lowercase(command.description@), text::lowercase(typed))
            &&& candidate.value == command.name@
            &&& candidate.name.len() <= 100
            &&& command.name@.len() < 100 ==> text::starts_with(candidate.name, command.name@)
        }),
{
    let candidate = choices::command_candidate(command);
    let found = candidate.found_by;
    let needle = text::lowercase(typed);
    if text::contains(found[0], needle) {
        assert(choices::is_found(found, needle));
    }
    if text::contains(found[1], needle) {
        assert(choices::is_found(found, needle));
    }
    if command.name@.len() < 100 {
        assert(candidate.name.subrange(0, command.name@.len() as int) =~= command.name@);
    }
}

/// A model is found by its selector, whatever the case, and chosen by it.
pub proof fn a_model_is_found_by_its_selector(value: Seq<char>, typed: Seq<char>)
    ensures
        choices::is_found(
            choices::model_candidate(value).found_by,
            text::lowercase(typed),
        ) <==> text::contains(text::lowercase(value), text::lowercase(typed)),
        choices::model_candidate(value).value == value,
        value.len() <= 100 ==> choices::model_candidate(value).name == value,
{
    let found = choices::model_candidate(value).found_by;
    if text::contains(found[0], text::lowercase(typed)) {
        assert(choices::is_found(found, text::lowercase(typed)));
    }
}

/// A selection offers the model, and where there are reasoning levels, the level.
pub open spec fn is_combination(
    select: SessionConfigSelect,
    reasoning: Option<SessionConfigSelect>,
    value: Seq<char>,
) -> bool {
    exists|model: Seq<char>|
        #[trigger] models::offers_value(select, model) && match reasoning {
            Some(levels) if exists|level: Seq<char>|
                #[trigger] models::offers_value(levels, level) => exists|level: Seq<char>|
                #[trigger] models::offers_value(levels, level) && value == model + ":"@ + level,
            _ => value == model,
        }
}

proof fn lemma_values(select: SessionConfigSelect, value: Seq<char>)
    ensures
        options::values_of(options::all_choices(select)).contains(value) <==> models::offers_value(
            select,
            value,
        ),
{
    let all = options::all_choices(select);
    let values = options::values_of(all);
    if values.contains(value) {
        let i = choose|i: int| 0 <= i < values.len() && values[i] == value;
        models::all_choices_are_offered(select, value, all[i].1);
        assert(all[i] == (value, all[i].1));
        assert(all.contains((value, all[i].1)));
        assert(models::offers(select, value, all[i].1));
    }
    if models::offers_value(select, value) {
        let name = choose|name: Seq<char>| #[trigger] models::offers(select, value, name);
        models::all_choices_are_offered(select, value, name);
        let i = choose|i: int| 0 <= i < all.len() && all[i] == (value, name);
        assert(values[i] == value);
    }
}

/// The selectors of a session are the models that it offers, each with each reasoning
/// level that it offers, as far as they read as selectors.
pub proof fn the_selectors_are_all_combinations(
    session: Seq<SessionConfigOption>,
    value: Seq<char>,
)
    ensures
        model::combinations_of(session).contains(value) <==> (options::model_selection(
            session,
        ) matches Some(select) && is_combination(
            select,
            options::reasoning_selection(session),
            value,
        ) && selector::spec_read(value) is Read),
{
    if let Some(select) = options::model_selection(session) {
        let levels = model::levels(session);
        let values = options::values_of(options::all_choices(select));
        let lists = values.map_values(|one: Seq<char>| model::levels_of(one, levels));
        lemma_all_where_holds(seqs::flattened(lists), model::is_selector(), value);
        permissions::lemma_flattened_holds(lists, value);
        let reasoning = options::reasoning_selection(session);
        if let Some(inner) = reasoning {
            assert forall|level: Seq<char>| levels.contains(level) == #[trigger] models::offers_value(
                inner,
                level,
            ) by {
                lemma_values(inner, level);
            }
        }
        if levels.len() > 0 {
            assert(levels.contains(levels[0]));
            assert(models::offers_value(reasoning->0, levels[0]));
        }
        if seqs::flattened(lists).contains(value) {
            let (r, c) = choose|r: int, c: int|
                0 <= r < lists.len() && 0 <= c < lists[r].len() && #[trigger] lists[r][c] == value;
            lemma_values(select, values[r]);
            assert(values.contains(values[r]));
            assert(models::offers_value(select, values[r]));
            if levels.len() > 0 {
                assert(levels.contains(levels[c]));
                assert(models::offers_value(reasoning->0, levels[c]));
                assert(value == values[r] + ":"@ + levels[c]);
            } else {
                assert(value == values[r]);
                if let Some(inner) = reasoning {
                    assert forall|level: Seq<char>| !#[trigger] models::offers_value(
                        inner,
                        level,
                    ) by {
                        assert(!levels.contains(level));
                    }
                }
            }
            assert(is_combination(select, reasoning, value));
        }
        if is_combination(select, reasoning, value) {
            let one = choose|one: Seq<char>|
                #[trigger] models::offers_value(select, one) && match reasoning {
                    Some(inner) if exists|level: Seq<char>|
                        #[trigger] models::offers_value(inner, level) => exists|level: Seq<char>|
                        #[trigger] models::offers_value(inner, level) && value == one + ":"@ + level,
                    _ => value == one,
                };
            lemma_values(select, one);
            let r = choose|r: int| 0 <= r < values.len() && values[r] == one;
            if levels.len() > 0 {
                let inner = reasoning->0;
                let level = choose|level: Seq<char>|
                    #[trigger] models::offers_value(inner, level) && value == one + ":"@ + level;
                assert(levels.contains(level));
                let c = choose|c: int| 0 <= c < levels.len() && levels[c] == level;
                assert(lists[r][c] == value);
            } else {
                if let Some(inner) = reasoning {
                    assert forall|level: Seq<char>| !#[trigger] models::offers_value(
                        inner,
                        level,
                    ) by {
                        assert(!levels.contains(level));
                    }
                }
                assert(lists[r][0] == value);
            }
        }
    }
}

proof fn lemma_same_items(
    left: Seq<(Seq<char>, Seq<char>)>,
    right: Seq<(Seq<char>, Seq<char>)>,
    item: (Seq<char>, Seq<char>),
)
    requires
        left.to_multiset() == right.to_multiset(),
    ensures
        left.contains(item) <==> right.contains(item),
        left.len() == right.len(),
{
    broadcast use vstd::seq_lib::group_to_multiset_ensures;

    assert(left.contains(item) <==> left.to_multiset().count(item) > 0);
    assert(right.contains(item) <==> right.to_multiset().count(item) > 0);
    assert(left.to_multiset().len() == left.len());
    assert(right.to_multiset().len() == right.len());
}

/// A directory completes what was typed: its name starts with it, and a hidden one is
/// only meant where a dot was typed.
pub open spec fn is_completion(entry: DirectoryEntry, typed: Seq<char>) -> bool {
    &&& entry.is_directory
    &&& text::starts_with(entry.name@, typed)
    &&& entry.name@.len() > 0 && entry.name@[0] == '.' ==> typed.len() > 0 && typed[0] == '.'
}

proof fn lemma_suggested(
    prefix: Seq<char>,
    typed: Seq<char>,
    entries: Seq<DirectoryEntry>,
    at: int,
)
    requires
        0 <= at < entries.len(),
        is_completion(entries[at], typed),
    ensures
        workspace::suggestions_of(prefix, typed, entries).contains(
            workspace::suggestion(prefix, entries[at].name@),
        ),
    decreases entries.len(),
{
    let all = workspace::suggestions_of(prefix, typed, entries);
    let item = workspace::suggestion(prefix, entries[at].name@);
    lemma_completion(entries[at], typed);
    if at == entries.len() - 1 {
        assert(all.last() == item);
    } else {
        lemma_suggested(prefix, typed, entries.drop_last(), at);
        let before = workspace::suggestions_of(prefix, typed, entries.drop_last());
        let k = choose|k: int| 0 <= k < before.len() && before[k] == item;
        assert(all[k] == item);
    }
}

proof fn lemma_completion(entry: DirectoryEntry, typed: Seq<char>)
    ensures
        workspace::completes(entry, typed) <==> is_completion(entry, typed),
{
    reveal_strlit(".");
    if text::starts_with(entry.name@, "."@) {
        assert(entry.name@.subrange(0, 1)[0] == '.');
    }
    if entry.name@.len() > 0 && entry.name@[0] == '.' {
        assert(entry.name@.subrange(0, 1) =~= "."@);
    }
    if text::starts_with(typed, "."@) {
        assert(typed.subrange(0, 1)[0] == '.');
    }
    if typed.len() > 0 && typed[0] == '.' {
        assert(typed.subrange(0, 1) =~= "."@);
    }
}

/// A path is what was typed completed to one of the directories.
pub open spec fn completes_to(
    prefix: Seq<char>,
    typed: Seq<char>,
    entries: Seq<DirectoryEntry>,
    path: Seq<char>,
) -> bool {
    exists|i: int|
        0 <= i < entries.len() && is_completion(#[trigger] entries[i], typed) && path == prefix
            + entries[i].name@ + "/"@
}

/// Every directory that completes what was typed is suggested, unless there are more
/// than twenty-five suggestions; at most that many are made, and none that completes
/// nothing.
pub proof fn every_completion_is_suggested(
    prefix: Seq<char>,
    typed: Seq<char>,
    entries: Seq<DirectoryEntry>,
    at: int,
)
    requires
        0 <= at < entries.len(),
    ensures
        workspace::completions(prefix, typed, entries).len() <= 25,
        is_completion(entries[at], typed) && workspace::completions(prefix, typed, entries).len()
            < 25 ==> workspace::completions(prefix, typed, entries).contains(
            prefix + entries[at].name@ + "/"@,
        ),
        forall|k: int|
            0 <= k < workspace::completions(prefix, typed, entries).len() ==> completes_to(
                prefix,
                typed,
                entries,
                #[trigger] workspace::completions(prefix, typed, entries)[k],
            ),
{
    let items = workspace::suggestions_of(prefix, typed, entries);
    let sorted = text::sorted_keyed(items);
    let shown = workspace::completions(prefix, typed, entries);
    text::sorting_keeps_the_texts(items);
    if is_completion(entries[at], typed) && shown.len() < 25 {
        let item = workspace::suggestion(prefix, entries[at].name@);
        lemma_suggested(prefix, typed, entries, at);
        lemma_same_items(items, sorted, item);
        let k = choose|k: int| 0 <= k < sorted.len() && sorted[k] == item;
        assert(shown[k] == prefix + entries[at].name@ + "/"@);
    }
    assert forall|k: int| 0 <= k < shown.len() implies completes_to(
        prefix,
        typed,
        entries,
        #[trigger] shown[k],
    ) by {
        workspace::suggestions_are_directories(prefix, typed, entries, k);
        let i = choose|i: int|
            0 <= i < entries.len() && workspace::completes(#[trigger] entries[i], typed) && shown[k]
                == prefix + entries[i].name@ + "/"@;
        lemma_completion(entries[i], typed);
    }
}

/// The workspaces that can be chosen are those there are, sorted, and all of them
/// unless there are more than twenty-five.
pub proof fn every_workspace_can_be_chosen(labels: Seq<Seq<char>>)
    ensures
        harness::offered_labels(labels).len() == if labels.len() <= 25 {
            labels.len()
        } else {
            25
        },
        forall|k: int|
            0 <= k < harness::offered_labels(labels).len() ==> labels.contains(
                #[trigger] harness::offered_labels(labels)[k],
            ),
        forall|i: int|
            0 <= i < labels.len() <= 25 ==> harness::offered_labels(labels).contains(
                #[trigger] labels[i],
            ),
        forall|k: int, l: int|
            0 <= k < l < harness::offered_labels(labels).len() ==> !text::precedes(
                #[trigger] harness::offered_labels(labels)[l],
                #[trigger] harness::offered_labels(labels)[k],
            ),
{
    let items = harness::self_keyed(labels);
    let sorted = text::sorted_keyed(items);
    let shown = harness::offered_labels(labels);
    text::sorting_keeps_the_texts(items);
    assert(items.len() == labels.len());
    lemma_same_items(items, sorted, (Seq::empty(), Seq::empty()));
    assert forall|k: int| 0 <= k < sorted.len() implies (#[trigger] sorted[k]).0 == sorted[k].1
        && labels.contains(sorted[k].1) by {
        lemma_same_items(items, sorted, sorted[k]);
        assert(sorted.contains(sorted[k]));
        let i = choose|i: int| 0 <= i < items.len() && items[i] == sorted[k];
        assert(labels[i] == sorted[k].1);
    }
    assert forall|k: int| 0 <= k < shown.len() implies labels.contains(#[trigger] shown[k]) by {
        assert(shown[k] == sorted[k].1);
    }
    assert forall|i: int| 0 <= i < labels.len() <= 25 implies shown.contains(
        #[trigger] labels[i],
    ) by {
        let item = (labels[i], labels[i]);
        assert(items[i] == item);
        lemma_same_items(items, sorted, item);
        let k = choose|k: int| 0 <= k < sorted.len() && sorted[k] == item;
        assert(shown[k] == labels[i]);
    }
    assert forall|k: int, l: int| 0 <= k < l < shown.len() implies !text::precedes(
        #[trigger] shown[l],
        #[trigger] shown[k],
    ) by {
        assert(shown[k] == sorted[k].1 && shown[l] == sorted[l].1);
        assert(sorted[k].0 == sorted[k].1 && sorted[l].0 == sorted[l].1);
        assert(!text::precedes(sorted[l].0, sorted[k].0));
    }
}

} // verus!
