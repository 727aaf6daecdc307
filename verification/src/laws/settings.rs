//! Laws of the configuration: references to the environment, agents and durations.

use vstd::prelude::*;

use crate::config;
use crate::config::{AgentView, DurationProblem, EmojiView, Setting, TimeSpan, Token};
use crate::numbers;
use crate::text;

verus! {

/// Looking for a character behind a text is looking for it in what follows.
pub proof fn lemma_first_shift(a: Seq<char>, b: Seq<char>, c: char, from: int)
    requires
        0 <= from,
    ensures
        text::first_at(a + b, c, a.len() + from) == a.len() + text::first_at(b, c, from),
    decreases b.len() - from,
{
    let s = a + b;
    if from < b.len() {
        assert(s[a.len() + from] == b[from]);
        if b[from] != c {
            lemma_first_shift(a, b, c, from + 1);
        }
    }
}

proof fn lemma_reference_shift(a: Seq<char>, b: Seq<char>, from: int)
    requires
        0 <= from,
    ensures
        config::reference_at(a + b, a.len() + from) == a.len() + config::reference_at(b, from),
    decreases b.len() - from,
{
    let s = a + b;
    if from + 1 < b.len() {
        assert(s[a.len() + from] == b[from]);
        assert(s[a.len() + from + 1] == b[from + 1]);
        if !(b[from] == '$' && b[from + 1] == '{') {
            lemma_reference_shift(a, b, from + 1);
        }
    }
}

proof fn lemma_tokens_shift(a: Seq<char>, b: Seq<char>, from: int)
    requires
        0 <= from <= b.len(),
    ensures
        config::tokens_from(a + b, a.len() + from) == config::tokens_from(b, from),
    decreases b.len() - from,
{
    let s = a + b;
    let n = a.len() as int;
    lemma_reference_shift(a, b, from);
    config::lemma_reference_at(b, from);
    let start = config::reference_at(b, from);
    lemma_first_shift(a, b, '}', start + 2);
    let end = text::first_at(b, '}', start + 2);
    if start >= b.len() || end >= b.len() {
        if start >= b.len() {
            assert(config::reference_at(s, n + from) >= s.len());
        }
        assert(s.skip(n + from) =~= b.skip(from));
    } else {
        text::lemma_first_at(b, '}', start + 2);
        lemma_tokens_shift(a, b, end + 1);
        assert(s.subrange(n + from, n + start) =~= b.subrange(from, start));
        assert(s.subrange(n + start, n + end + 1) =~= b.subrange(start, end + 1));
        assert(s.subrange(n + start + 2, n + end) =~= b.subrange(start + 2, end));
    }
}

proof fn lemma_no_reference(s: Seq<char>, from: int, at: int)
    requires
        0 <= from <= at,
        at + 1 < s.len(),
        s[at] == '$',
        s[at + 1] == '{',
        forall|i: int| from <= i < at ==> !(#[trigger] s[i] == '$' && s[i + 1] == '{'),
    ensures
        config::reference_at(s, from) == at,
    decreases at - from,
{
    if from < at {
        lemma_no_reference(s, from + 1, at);
    }
}

/// A name that a reference can hold: letters, digits and underscores, and no digit
/// first.
pub open spec fn is_name(name: Seq<char>) -> bool {
    &&& name.len() > 0
    &&& !('0' <= name[0] && name[0] <= '9')
    &&& forall|i: int|
        0 <= i < name.len() ==> {
            let c = #[trigger] name[i];
            c == '_' || ('0' <= c && c <= '9') || ('A' <= c && c <= 'Z') || ('a' <= c && c <= 'z')
        }
}

/// The names of the environment are those that a reference can hold.
pub proof fn a_name_is_letters_digits_and_underscores(name: Seq<char>)
    ensures
        config::is_env_name(name) <==> is_name(name),
{
    if is_name(name) {
        assert(name[0] == '_' || ('A' <= name[0] && name[0] <= 'Z') || ('a' <= name[0] && name[0]
            <= 'z'));
    }
    if config::is_env_name(name) {
        assert forall|i: int| 0 <= i < name.len() implies {
            let c = #[trigger] name[i];
            c == '_' || ('0' <= c && c <= '9') || ('A' <= c && c <= 'Z') || ('a' <= c && c <= 'z')
        } by {
            if i > 0 {
                assert(config::starts_name(name[i]) || numbers::is_digit(name[i]));
            }
        }
    }
}

/// A reference to a name is found behind any text without one, and what follows is
/// taken apart as if it stood alone.
pub proof fn a_reference_is_found(before: Seq<char>, name: Seq<char>, after: Seq<char>)
    requires
        is_name(name),
        forall|i: int|
            0 <= i && i + 1 < before.len() ==> !(#[trigger] before[i] == '$' && before[i + 1]
                == '{'),
        before.len() > 0 ==> before.last() != '$',
    ensures
        config::tokens_of(before + seq!['$', '{'] + name + seq!['}'] + after) == seq![
            Token::Literal(before),
            Token::Name(name),
        ] + config::tokens_of(after),
{
    let head = before + seq!['$', '{'] + name + seq!['}'];
    let s = head + after;
    let start = before.len() as int;
    assert(s =~= before + seq!['$', '{'] + name + seq!['}'] + after);
    assert(s[start] == '$' && s[start + 1] == '{');
    assert forall|i: int| 0 <= i < start implies !(#[trigger] s[i] == '$' && s[i + 1] == '{') by {
        assert(s[i] == before[i]);
        if i + 1 < start {
            assert(s[i + 1] == before[i + 1]);
        } else {
            assert(before[i] == before.last());
        }
    }
    lemma_no_reference(s, 0, start);
    let end = start + 2 + name.len();
    assert forall|i: int| start + 2 <= i < end implies s[i] != '}' by {
        assert(s[i] == name[i - start - 2]);
    }
    assert(s[end] == '}');
    text::lemma_first_at_unique(s, '}', start + 2, end);
    assert(s.subrange(start + 2, end) =~= name);
    assert(s.subrange(0, start) =~= before);
    a_name_is_letters_digits_and_underscores(name);
    lemma_tokens_shift(head, after, 0);
    assert(head.len() == end + 1);
}

/// Every reference that is looked up holds a name.
pub proof fn only_names_are_looked_up(s: Seq<char>, from: int)
    requires
        0 <= from <= s.len(),
    ensures
        forall|i: int|
            0 <= i < config::tokens_from(s, from).len() ==> (#[trigger] config::tokens_from(
                s,
                from,
            )[i] matches Token::Name(name) ==> is_name(name)),
    decreases s.len() - from,
{
    config::lemma_reference_at(s, from);
    let start = config::reference_at(s, from);
    let end = text::first_at(s, '}', start + 2);
    let all = config::tokens_from(s, from);
    if start < s.len() && end < s.len() {
        text::lemma_first_at(s, '}', start + 2);
        only_names_are_looked_up(s, end + 1);
        a_name_is_letters_digits_and_underscores(s.subrange(start + 2, end));
        let rest = config::tokens_from(s, end + 1);
        assert forall|i: int| 0 <= i < all.len() implies (
        #[trigger] all[i] matches Token::Name(name) ==> is_name(name)) by {
            if i >= 2 {
                assert(all[i] == rest[i - 2]);
            }
        }
    }
}

/// Where no variable is set, a template expands to itself.
pub proof fn nothing_changes_without_variables<F: Fn(&str) -> Option<String>>(
    lookup: F,
    template: Seq<char>,
    output: Seq<char>,
)
    requires
        config::expands_to(lookup, template, output),
        forall|name: Seq<char>, value: Seq<char>|
            !#[trigger] config::may_give(lookup, name, Some(value)),
    ensures
        output == template,
{
    let tokens = config::tokens_of(template);
    let values = choose|values: Seq<Seq<char>>| #[trigger]
        config::may_become_all(lookup, tokens, values) && output == text::joined(values);
    config::the_pieces_make_up_the_template(template);
    assert(values =~= tokens.map_values(|token: Token| config::token_text(token))) by {
        assert forall|i: int| 0 <= i < tokens.len() implies values[i] == config::token_text(
            tokens[i],
        ) by {
            assert(config::may_become(lookup, tokens[i], values[i]));
        }
    }
}

/// A variable that is set takes the place of its reference: the text before it stays,
/// and what follows expands as if it stood alone.
pub proof fn a_set_variable_takes_the_place_of_its_reference<F: Fn(&str) -> Option<String>>(
    lookup: F,
    before: Seq<char>,
    name: Seq<char>,
    after: Seq<char>,
    value: Seq<char>,
    output: Seq<char>,
)
    requires
        is_name(name),
        forall|i: int|
            0 <= i && i + 1 < before.len() ==> !(#[trigger] before[i] == '$' && before[i + 1]
                == '{'),
        before.len() > 0 ==> before.last() != '$',
        config::expands_to(
            lookup,
            before + seq!['$', '{'] + name + seq!['}'] + after,
            output,
        ),
        forall|given: Option<Seq<char>>| #[trigger] config::may_give(lookup, name, given) ==> given
            == Some(value),
    ensures
        exists|rest: Seq<char>| #[trigger] config::expands_to(lookup, after, rest) && output
            == before + value + rest,
{
    let template = before + seq!['$', '{'] + name + seq!['}'] + after;
    a_reference_is_found(before, name, after);
    let tokens = config::tokens_of(template);
    let values = choose|values: Seq<Seq<char>>| #[trigger]
        config::may_become_all(lookup, tokens, values) && output == text::joined(values);
    let tail = values.skip(2);
    let rest = text::joined(tail);
    let later = config::tokens_of(after);
    assert(tokens[0] == Token::Literal(before));
    assert(tokens[1] == Token::Name(name));
    assert(config::may_become(lookup, tokens[0], values[0]));
    assert(config::may_become(lookup, tokens[1], values[1]));
    assert(values[1] == value);
    assert forall|i: int| 0 <= i < later.len() implies config::may_become(
        lookup,
        #[trigger] later[i],
        #[trigger] tail[i],
    ) by {
        assert(tokens[i + 2] == later[i]);
        assert(config::may_become(lookup, tokens[i + 2], values[i + 2]));
    }
    assert(config::may_become_all(lookup, later, tail));
    assert(config::expands_to(lookup, after, rest));
    text::lemma_joined_first(values);
    text::lemma_joined_first(values.drop_first());
    assert(values.drop_first().drop_first() =~= tail);
    assert(output =~= before + value + rest);
}

/// An agent that Discord can show and that can be started: with a key of one to
/// twenty characters and a display name of one to a hundred, both visible, with a
/// command, and with a visible or numbered emoji.
pub open spec fn is_usable(key: Seq<char>, agent: AgentView) -> bool {
    &&& !text::is_blank(key)
    &&& key.len() <= 20
    &&& !text::is_blank(agent.display_name)
    &&& agent.display_name.len() <= 100
    &&& agent.command.len() > 0
    &&& match agent.emoji {
        EmojiView::Unicode(value) => !text::is_blank(value),
        EmojiView::Custom(id, _) => id.0 != 0,
    }
}

/// A configuration is accepted exactly where it has one to twenty agents and each of
/// them is usable; a complaint about an agent names its key.
pub proof fn accepted_agents_are_usable(entries: Seq<(Seq<char>, AgentView)>)
    ensures
        config::agents_problem(entries) is None <==> 1 <= entries.len() <= 20 && (forall|i: int|
            0 <= i < entries.len() ==> is_usable((#[trigger] entries[i]).0, entries[i].1)),
        forall|key: Seq<char>, agent: AgentView|
            #[trigger] config::agent_problem(key, agent) is None <==> is_usable(key, agent),
        forall|key: Seq<char>, agent: AgentView|
            #[trigger] config::agent_problem(key, agent) matches Some(problem) ==> text::contains(
                problem,
                key,
            ),
{
    config::accepted_agents_have_no_problem(entries);
    assert forall|key: Seq<char>, agent: AgentView|
        #[trigger] config::agent_problem(key, agent) is None <==> is_usable(key, agent) by {
    }
    assert forall|key: Seq<char>, agent: AgentView| #[trigger] config::agent_problem(
        key,
        agent,
    ) matches Some(problem) ==> text::contains(problem, key) by {
        let lead = "agent key `"@;
        let other = "agent `"@;
        let tails = seq![
            "` must contain 1–20 characters because it names the forum tag"@,
            "` display name must contain 1–100 characters"@,
            "` has an empty command"@,
            "` has an empty tag emoji"@,
            "` has an invalid custom emoji id"@,
        ];
        crate::laws::tools::lemma_contains(lead, key, tails[0]);
        crate::laws::tools::lemma_contains(other, key, tails[1]);
        crate::laws::tools::lemma_contains(other, key, tails[2]);
        crate::laws::tools::lemma_contains(other, key, tails[3]);
        crate::laws::tools::lemma_contains(other, key, tails[4]);
    }
}

/// A key has an agent.
pub open spec fn has_agent(
    entries: Seq<(Seq<char>, AgentView)>,
    key: Seq<char>,
    agent: AgentView,
) -> bool {
    exists|i: int| 0 <= i < entries.len() && #[trigger] entries[i] == (key, agent)
}

/// An agent that was set is the one its key has, and all other keys keep theirs.
pub proof fn a_set_agent_is_found(
    entries: Seq<(Seq<char>, AgentView)>,
    key: Seq<char>,
    agent: AgentView,
    other: Seq<char>,
    own: AgentView,
)
    requires
        config::ordered(entries),
    ensures
        has_agent(config::with_agent(entries, key, agent), key, agent),
        has_agent(config::with_agent(entries, key, agent), key, own) ==> own == agent,
        other != key ==> (has_agent(config::with_agent(entries, key, agent), other, own)
            <==> has_agent(entries, other, own)),
{
    lemma_set_agent(entries, key, agent, other, own);
    config::setting_an_agent_keeps_the_order(entries, key, agent);
    let next = config::with_agent(entries, key, agent);
    if has_agent(next, key, own) {
        let i = choose|i: int| 0 <= i < next.len() && #[trigger] next[i] == (key, own);
        let j = choose|j: int| 0 <= j < next.len() && #[trigger] next[j] == (key, agent);
        text::lemma_precedes_irreflexive(key);
        if i < j {
            assert(text::precedes(next[i].0, next[j].0));
        } else if j < i {
            assert(text::precedes(next[j].0, next[i].0));
        }
    }
}

proof fn lemma_set_agent(
    entries: Seq<(Seq<char>, AgentView)>,
    key: Seq<char>,
    agent: AgentView,
    other: Seq<char>,
    own: AgentView,
)
    ensures
        has_agent(config::with_agent(entries, key, agent), key, agent),
        other != key ==> (has_agent(config::with_agent(entries, key, agent), other, own)
            <==> has_agent(entries, other, own)),
    decreases entries.len(),
{
    let next = config::with_agent(entries, key, agent);
    if entries.len() == 0 {
        assert(next[0] == (key, agent));
    } else if entries[0].0 == key {
        assert(next[0] == (key, agent));
        assert(forall|i: int| 1 <= i < entries.len() ==> next[i] == #[trigger] entries[i]);
        assert(forall|i: int| 1 <= i < entries.len() ==> #[trigger] next[i] == entries[i]);
    } else if text::precedes(key, entries[0].0) {
        assert(next[0] == (key, agent));
        if has_agent(entries, other, own) {
            let i = choose|i: int| 0 <= i < entries.len() && #[trigger] entries[i] == (other, own);
            assert(next[i + 1] == (other, own));
        }
        if other != key && has_agent(next, other, own) {
            let i = choose|i: int| 0 <= i < next.len() && #[trigger] next[i] == (other, own);
            assert(entries[i - 1] == (other, own));
        }
    } else {
        let rest = entries.drop_first();
        let tail = config::with_agent(rest, key, agent);
        lemma_set_agent(rest, key, agent, other, own);
        let at = choose|at: int| 0 <= at < tail.len() && #[trigger] tail[at] == (key, agent);
        assert(next[at + 1] == (key, agent));
        if other != key {
            if has_agent(entries, other, own) {
                let i = choose|i: int|
                    0 <= i < entries.len() && #[trigger] entries[i] == (other, own);
                if i == 0 {
                    assert(next[0] == (other, own));
                } else {
                    assert(rest[i - 1] == (other, own));
                    let j = choose|j: int| 0 <= j < tail.len() && #[trigger] tail[j] == (other, own);
                    assert(next[j + 1] == (other, own));
                }
            }
            if has_agent(next, other, own) {
                let i = choose|i: int| 0 <= i < next.len() && #[trigger] next[i] == (other, own);
                if i == 0 {
                    assert(entries[0] == (other, own));
                } else {
                    assert(tail[i - 1] == (other, own));
                    let j = choose|j: int| 0 <= j < rest.len() && #[trigger] rest[j] == (other, own);
                    assert(entries[j + 1] == (other, own));
                }
            }
        }
    }
}

/// Two configurations whose agents differ in their arguments and environments alone
/// are shown alike.
pub proof fn arguments_and_environments_are_not_shown(
    left: Seq<(Seq<char>, AgentView)>,
    right: Seq<(Seq<char>, AgentView)>,
)
    requires
        left.len() == right.len(),
        forall|i: int|
            0 <= i < left.len() ==> (#[trigger] left[i]).0 == right[i].0 && left[i].1.display_name
                == right[i].1.display_name && left[i].1.command == right[i].1.command
                && left[i].1.emoji == right[i].1.emoji,
    ensures
        config::redacted_agents(left) == config::redacted_agents(right),
        forall|i: int|
            0 <= i < left.len() ==> {
                let shown = (#[trigger] config::redacted_agents(left)[i]);
                &&& shown.0 == left[i].0
                &&& shown.1.display_name == left[i].1.display_name
                &&& shown.1.command == left[i].1.command
                &&& shown.1.emoji == left[i].1.emoji
            },
{
    assert(config::redacted_agents(left) =~= config::redacted_agents(right)) by {
        assert forall|i: int| 0 <= i < left.len() implies config::redacted_agents(left)[i]
            == config::redacted_agents(right)[i] by {
            assert(left[i].0 == right[i].0);
        }
    }
}

/// The spans that a duration is read in make up its text.
pub proof fn the_spans_make_up_a_duration(s: Seq<char>, from: int)
    requires
        0 <= from <= s.len(),
    ensures
        text::joined(config::spans_from(s, from)) == s.skip(from),
    decreases s.len() - from,
{
    if from < s.len() {
        config::lemma_span_end(s, from + 1, config::names_unit(s[from]));
        let end = config::span_end(s, from, false);
        the_spans_make_up_a_duration(s, end);
        let first = s.subrange(from, end);
        let rest = config::spans_from(s, end);
        text::lemma_joined_one(first);
        text::lemma_joined_add(seq![first], rest);
        assert(first + s.skip(end) =~= s.skip(from));
    } else {
        assert(s.skip(from) =~= Seq::<char>::empty());
    }
}

/// Too few and too many agents are told as such, with how many there are.
pub proof fn the_number_of_agents_is_told(entries: Seq<(Seq<char>, AgentView)>)
    ensures
        entries.len() == 0 ==> config::agents_problem(entries) == Some(
            "at least one `[agents.<key>]` is required"@,
        ),
        entries.len() > 20 ==> config::agents_problem(entries) == Some(
            numbers::decimal(entries.len()) + " agents exceed Discord's "@ + numbers::decimal(20)
                + "-tag forum limit"@,
        ),
{
}

/// A duration is read where each of its spans is and they are together shorter than the
/// largest one; what is read is the duration itself.
pub proof fn a_duration_is_read_where_it_fits(
    value: Seq<char>,
    result: Result<TimeSpan, DurationProblem>,
)
    requires
        config::is_read(value, result),
    ensures
        result matches Ok(span) ==> config::human_duration(value) == Some(
            (span.secs as nat, span.nanos as nat),
        ) && config::all_read(config::spans_of(value)) && config::total_nanos(
            config::spans_of(value),
        ) < 18446744073709551616000000000,
        result matches Err(DurationProblem::TooLong) ==> config::all_read(config::spans_of(value))
            && config::total_nanos(config::spans_of(value)) >= 18446744073709551616000000000,
        config::human_duration(value) is Some && config::all_read(config::spans_of(value))
            && config::total_nanos(config::spans_of(value)) < 18446744073709551616000000000
            ==> result is Ok,
{
}

/// Expanding a configuration changes texts alone: tables keep their keys, lists their
/// length, and other values stay as they are.
pub proof fn only_texts_are_expanded<T, F: Fn(&str) -> Option<String>>(
    lookup: F,
    before: Setting<T>,
    after: Setting<T>,
)
    requires
        config::expands_tree(lookup, before, after),
    ensures
        before is Text <==> after is Text,
        before matches Setting::Text(template) ==> (after matches Setting::Text(output)
            && config::expands_to(lookup, template@, output@)),
        before matches Setting::Other(leaf) ==> after == Setting::Other(leaf),
        before matches Setting::List(old) ==> (after matches Setting::List(new) && old@.len()
            == new@.len() && forall|i: int|
            0 <= i < old@.len() ==> config::expands_tree(lookup, #[trigger] old@[i], new@[i])),
        before matches Setting::Table(old) ==> (after matches Setting::Table(new) && old@.len()
            == new@.len() && forall|i: int|
            0 <= i < old@.len() ==> (#[trigger] old@[i]).0@ == new@[i].0@ && config::expands_tree(
                lookup,
                old@[i].1,
                new@[i].1,
            )),
{
}

} // verus!
