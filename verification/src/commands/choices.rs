//! Autocomplete choices.

use vstd::prelude::*;

use crate::acp::options;
use crate::acp::options::{
    CategoryView, SessionConfigKind, SessionConfigOption, SessionConfigOptionCategory,
};
use crate::acp::protocol::ListedSession;
use crate::config::{AgentView, Agents};
use crate::commands::model;
use crate::seqs;
use crate::text;

verus! {

/// Maximum number of choices Discord accepts in one autocomplete response.
pub const CHOICE_LIMIT: usize = 25;

/// Maximum length of the name of a choice.
pub const NAME_LIMIT: usize = 100;

/// One choice that Discord shows.
#[derive(Clone, Debug, PartialEq, Eq)]
pub struct Choice {
    /// Name shown to the user.
    pub name: String,
    /// Value handed to the command.
    pub value: String,
}

/// A choice that may be shown, with the texts by which it is found.
pub struct Candidate {
    /// Name shown to the user.
    pub name: String,
    /// Value handed to the command.
    pub value: String,
    /// Texts that are searched, in lower case.
    pub found_by: Vec<String>,
}

/// The content of a candidate.
pub ghost struct CandidateView {
    pub name: Seq<char>,
    pub value: Seq<char>,
    pub found_by: Seq<Seq<char>>,
}

impl View for Candidate {
    type V = CandidateView;

    open spec fn view(&self) -> CandidateView {
        CandidateView {
            name: self.name@,
            value: self.value@,
            found_by: text::texts(self.found_by@),
        }
    }
}

/// The content of candidates.
pub open spec fn candidate_views(candidates: Seq<Candidate>) -> Seq<CandidateView> {
    candidates.map_values(|candidate: Candidate| candidate@)
}

/// The content of choices.
pub open spec fn choice_views(choices: Seq<Choice>) -> Seq<(Seq<char>, Seq<char>)> {
    choices.map_values(|choice: Choice| (choice.name@, choice.value@))
}

/// One of the texts of a candidate contains a needle.
pub open spec fn is_found(found_by: Seq<Seq<char>>, needle: Seq<char>) -> bool {
    exists|i: int| 0 <= i < found_by.len() && text::contains(#[trigger] found_by[i], needle)
}

/// Candidates that a needle finds.
pub open spec fn found(needle: Seq<char>) -> spec_fn(CandidateView) -> bool {
    |candidate: CandidateView| is_found(candidate.found_by, needle)
}

/// What is shown for a needle: the first candidates that it finds.
pub open spec fn offered(candidates: Seq<CandidateView>, needle: Seq<char>) -> Seq<
    (Seq<char>, Seq<char>),
> {
    seqs::at_most(
        seqs::all_where(candidates, found(needle)),
        CHOICE_LIMIT as nat,
    ).map_values(|candidate: CandidateView| (candidate.name, candidate.value))
}

fn find_needle(found_by: &Vec<String>, needle: &str) -> (result: bool)
    ensures
        result == is_found(text::texts(found_by@), needle@),
{
    let ghost all = text::texts(found_by@);
    let mut i: usize = 0;
    while i < found_by.len()
        invariant
            i <= found_by@.len(),
            all == text::texts(found_by@),
            forall|j: int|
                0 <= j < i ==> !text::contains(#[trigger] all[j], needle@),
        decreases found_by@.len() - i,
    {
        assert(all[i as int] == found_by@[i as int]@);
        if text::has(found_by[i].as_str(), needle) {
            return true;
        }
        i += 1;
    }
    false
}

/// What is left of a list once it is full.
proof fn lemma_full(candidates: Seq<CandidateView>, wanted: spec_fn(CandidateView) -> bool, to: int)
    requires
        0 <= to <= candidates.len(),
    ensures
        seqs::all_where(candidates.take(to), wanted).len() <= seqs::all_where(
            candidates,
            wanted,
        ).len(),
        seqs::all_where(candidates.take(to), wanted) == seqs::all_where(candidates, wanted).take(
            seqs::all_where(candidates.take(to), wanted).len() as int,
        ),
    decreases candidates.len() - to,
{
    if to == candidates.len() {
        assert(candidates.take(to) =~= candidates);
        assert(seqs::all_where(candidates, wanted) =~= seqs::all_where(candidates, wanted).take(
            seqs::all_where(candidates, wanted).len() as int,
        ));
    } else {
        lemma_full(candidates, wanted, to + 1);
        assert(candidates.take(to + 1).drop_last() =~= candidates.take(to));
        let all = seqs::all_where(candidates, wanted);
        let head = seqs::all_where(candidates.take(to), wanted);
        let next = seqs::all_where(candidates.take(to + 1), wanted);
        assert(head =~= next.take(head.len() as int));
        assert(head =~= all.take(head.len() as int));
    }
}

/// Shows the first candidates that a partial input finds.
pub fn offer(candidates: &Vec<Candidate>, needle: &str) -> (choices: Vec<Choice>)
    ensures
        choice_views(choices@) == offered(candidate_views(candidates@), needle@),
        choices@.len() <= CHOICE_LIMIT,
{
    let ghost all = candidate_views(candidates@);
    let ghost wanted = found(needle@);
    let ghost show = |candidate: CandidateView| (candidate.name, candidate.value);
    let mut choices: Vec<Choice> = Vec::new();
    let mut i: usize = 0;
    assert(choice_views(choices@) =~= seqs::all_where(all.take(0), wanted).map_values(show));
    while i < candidates.len() && choices.len() < CHOICE_LIMIT
        invariant
            i <= candidates@.len(),
            all == candidate_views(candidates@),
            wanted == found(needle@),
            show == (|candidate: CandidateView| (candidate.name, candidate.value)),
            choices@.len() <= CHOICE_LIMIT,
            choice_views(choices@) == seqs::all_where(all.take(i as int), wanted).map_values(show),
        decreases candidates@.len() - i,
    {
        let candidate = &candidates[i];
        let ghost before = choice_views(choices@);
        assert(all[i as int] == candidate@);
        assert(all.take(i + 1).drop_last() =~= all.take(i as int));
        if find_needle(&candidate.found_by, needle) {
            choices.push(
                Choice {
                    name: text::copy(candidate.name.as_str()),
                    value: text::copy(candidate.value.as_str()),
                },
            );
            assert(choice_views(choices@) =~= before.push((candidate@.name, candidate@.value)));
            assert(seqs::all_where(all.take(i + 1), wanted).map_values(show) =~= before.push(
                (candidate@.name, candidate@.value),
            ));
        }
        i += 1;
    }
    proof {
        let head = seqs::all_where(all.take(i as int), wanted);
        let matching = seqs::all_where(all, wanted);
        lemma_full(all, wanted, i as int);
        assert(head.len() == choices@.len()) by {
            assert(head.map_values(show).len() == choice_views(choices@).len());
        }
        if i == candidates@.len() {
            assert(all.take(i as int) =~= all);
        }
        assert(seqs::at_most(matching, CHOICE_LIMIT as nat) =~= head);
    }
    choices
}

/// The label of a listed session: its title, or the start of its identifier.
pub open spec fn session_label(session: ListedSession) -> Seq<char> {
    match session.title {
        Some(title) if !text::is_blank(title@) => text::ellipsized(title@, NAME_LIMIT as nat),
        _ => "session "@ + text::ellipsized(session.session_id@, 16),
    }
}

/// The candidate for a listed session, found by its identifier and its title.
pub open spec fn session_candidate(session: ListedSession) -> CandidateView {
    CandidateView {
        name: session_label(session),
        value: session.session_id@,
        found_by: match session.title {
            Some(title) => seq![text::lowercase(session.session_id@), text::lowercase(title@)],
            None => seq![text::lowercase(session.session_id@)],
        },
    }
}

/// Lists and filters sessions exposed by the selected agent.
pub fn session_choices(sessions: &Vec<ListedSession>, partial: &str) -> (choices: Vec<Choice>)
    ensures
        choice_views(choices@) == offered(
            sessions@.map_values(|session: ListedSession| session_candidate(session)),
            text::lowercase(partial@),
        ),
{
    let ghost wanted = sessions@.map_values(|session: ListedSession| session_candidate(session));
    let mut candidates: Vec<Candidate> = Vec::new();
    let mut i: usize = 0;
    while i < sessions.len()
        invariant
            i <= sessions@.len(),
            candidates@.len() == i,
            forall|j: int|
                0 <= j < i ==> (#[trigger] candidates@[j])@ == session_candidate(sessions@[j]),
        decreases sessions@.len() - i,
    {
        let session = &sessions[i];
        let id = session.session_id.as_str();
        let mut found_by: Vec<String> = Vec::new();
        found_by.push(text::to_lowercase(id));
        assert(text::texts(found_by@) =~= seq![text::lowercase(session.session_id@)]);
        let fallback = text::join2("session ", text::truncate_end(id, 16).as_str());
        let name = match &session.title {
            Some(title) => {
                found_by.push(text::to_lowercase(title.as_str()));
                assert(text::texts(found_by@) =~= seq![
                    text::lowercase(session.session_id@),
                    text::lowercase(title@),
                ]);
                if text::blank(title.as_str()) {
                    fallback
                } else {
                    text::truncate_end(title.as_str(), NAME_LIMIT)
                }
            },
            None => fallback,
        };
        candidates.push(Candidate { name, value: text::copy(id), found_by });
        i += 1;
    }
    assert(candidate_views(candidates@) =~= wanted);
    offer(&candidates, text::to_lowercase(partial).as_str())
}

/// The candidate for a configured agent, found by its key and its name.
pub open spec fn agent_candidate(agent: (Seq<char>, AgentView)) -> CandidateView {
    CandidateView {
        name: agent.1.display_name,
        value: agent.0,
        found_by: seq![text::lowercase(agent.0), text::lowercase(agent.1.display_name)],
    }
}

/// Suggests configured agents.
pub fn agent_choices(agents: &Agents, partial: &str) -> (choices: Vec<Choice>)
    ensures
        choice_views(choices@) == offered(
            agents@.map_values(|agent: (Seq<char>, AgentView)| agent_candidate(agent)),
            text::lowercase(partial@),
        ),
{
    let ghost all = agents@;
    let ghost wanted = all.map_values(|agent: (Seq<char>, AgentView)| agent_candidate(agent));
    let mut candidates: Vec<Candidate> = Vec::new();
    let mut i: usize = 0;
    while i < agents.len()
        invariant
            i <= all.len(),
            all == agents@,
            candidates@.len() == i,
            forall|j: int| 0 <= j < i ==> (#[trigger] candidates@[j])@ == agent_candidate(all[j]),
        decreases all.len() - i,
    {
        if let (Some(key), Some(agent)) = (agents.key_at(i), agents.agent_at(i)) {
            let mut found_by: Vec<String> = Vec::new();
            found_by.push(text::to_lowercase(key.as_str()));
            found_by.push(text::to_lowercase(agent.display_name.as_str()));
            assert(text::texts(found_by@) =~= seq![
                text::lowercase(key@),
                text::lowercase(agent@.display_name),
            ]);
            candidates.push(
                Candidate {
                    name: text::copy(agent.display_name.as_str()),
                    value: text::copy(key.as_str()),
                    found_by,
                },
            );
        }
        i += 1;
    }
    assert(candidate_views(candidates@) =~= wanted);
    offer(&candidates, text::to_lowercase(partial).as_str())
}

/// The candidate for a named value, found by its name and its value.
pub open spec fn named_candidate(choice: (Seq<char>, Seq<char>)) -> CandidateView {
    CandidateView {
        name: text::ellipsized(choice.1, NAME_LIMIT as nat),
        value: choice.0,
        found_by: seq![text::lowercase(choice.1), text::lowercase(choice.0)],
    }
}

/// Suggests named values, such as the modes of a session, each given as its value
/// and its name.
pub fn named_choices(values: &Vec<(String, String)>, partial: &str) -> (choices: Vec<Choice>)
    ensures
        choice_views(choices@) == offered(
            text::keyed_views(values@).map_values(
                |choice: (Seq<char>, Seq<char>)| named_candidate(choice),
            ),
            text::lowercase(partial@),
        ),
{
    let ghost wanted = text::keyed_views(values@).map_values(
        |choice: (Seq<char>, Seq<char>)| named_candidate(choice),
    );
    let mut candidates: Vec<Candidate> = Vec::new();
    let mut i: usize = 0;
    while i < values.len()
        invariant
            i <= values@.len(),
            candidates@.len() == i,
            forall|j: int|
                0 <= j < i ==> (#[trigger] candidates@[j])@ == named_candidate(
                    (values@[j].0@, values@[j].1@),
                ),
        decreases values@.len() - i,
    {
        let value = values[i].0.as_str();
        let name = values[i].1.as_str();
        let mut found_by: Vec<String> = Vec::new();
        found_by.push(text::to_lowercase(name));
        found_by.push(text::to_lowercase(value));
        assert(text::texts(found_by@) =~= seq![
            text::lowercase(values@[i as int].1@),
            text::lowercase(values@[i as int].0@),
        ]);
        candidates.push(
            Candidate {
                name: text::truncate_end(name, NAME_LIMIT),
                value: text::copy(value),
                found_by,
            },
        );
        i += 1;
    }
    assert(candidate_views(candidates@) =~= wanted);
    offer(&candidates, text::to_lowercase(partial).as_str())
}

/// A slash command that the agent advertises.
pub struct AgentCommand {
    /// Name of the command.
    pub name: String,
    /// What the command does.
    pub description: String,
    /// What the command takes as its input, where the agent says so.
    pub hint: Option<String>,
}

/// The candidate for a command, found by its name and its description.
pub open spec fn command_candidate(command: AgentCommand) -> CandidateView {
    CandidateView {
        name: text::ellipsized(
            match command.hint {
                Some(hint) => command.name@ + " — "@ + hint@,
                None => command.name@,
            },
            NAME_LIMIT as nat,
        ),
        value: command.name@,
        found_by: seq![text::lowercase(command.name@), text::lowercase(command.description@)],
    }
}

/// Suggests the commands that the agent advertises.
pub fn command_choices(commands: &Vec<AgentCommand>, partial: &str) -> (choices: Vec<Choice>)
    ensures
        choice_views(choices@) == offered(
            commands@.map_values(|command: AgentCommand| command_candidate(command)),
            text::lowercase(partial@),
        ),
{
    let ghost wanted = commands@.map_values(|command: AgentCommand| command_candidate(command));
    let mut candidates: Vec<Candidate> = Vec::new();
    let mut i: usize = 0;
    while i < commands.len()
        invariant
            i <= commands@.len(),
            candidates@.len() == i,
            forall|j: int|
                0 <= j < i ==> (#[trigger] candidates@[j])@ == command_candidate(commands@[j]),
        decreases commands@.len() - i,
    {
        let command = &commands[i];
        let name = command.name.as_str();
        let shown = match &command.hint {
            Some(hint) => text::join3(name, " — ", hint.as_str()),
            None => text::copy(name),
        };
        let mut found_by: Vec<String> = Vec::new();
        found_by.push(text::to_lowercase(name));
        found_by.push(text::to_lowercase(command.description.as_str()));
        assert(text::texts(found_by@) =~= seq![
            text::lowercase(command.name@),
            text::lowercase(command.description@),
        ]);
        candidates.push(
            Candidate {
                name: text::truncate_end(shown.as_str(), NAME_LIMIT),
                value: text::copy(name),
                found_by,
            },
        );
        i += 1;
    }
    assert(candidate_views(candidates@) =~= wanted);
    offer(&candidates, text::to_lowercase(partial).as_str())
}

/// The candidate for a model selector, found by itself.
pub open spec fn model_candidate(value: Seq<char>) -> CandidateView {
    CandidateView {
        name: text::ellipsized(value, NAME_LIMIT as nat),
        value,
        found_by: seq![text::lowercase(value)],
    }
}

/// Suggests known model and reasoning combinations for the current session, in
/// order and none twice.
pub fn model_choices(session_options: &Vec<SessionConfigOption>, partial: &str) -> (choices: Vec<
    Choice,
>)
    ensures
        choice_views(choices@) == offered(
            text::sorted_texts(model::combinations_of(session_options@)).map_values(
                |value: Seq<char>| model_candidate(value),
            ),
            text::lowercase(partial@),
        ),
{
    let values = text::sort_texts(&model::combinations(session_options));
    let ghost sorted = text::texts(values@);
    let mut candidates: Vec<Candidate> = Vec::new();
    let mut i: usize = 0;
    while i < values.len()
        invariant
            i <= values@.len(),
            sorted == text::texts(values@),
            candidates@.len() == i,
            forall|j: int| 0 <= j < i ==> (#[trigger] candidates@[j])@ == model_candidate(sorted[j]),
        decreases values@.len() - i,
    {
        let value = values[i].as_str();
        let mut found_by: Vec<String> = Vec::new();
        found_by.push(text::to_lowercase(value));
        assert(text::texts(found_by@) =~= seq![text::lowercase(sorted[i as int])]);
        candidates.push(
            Candidate {
                name: text::truncate_end(value, NAME_LIMIT),
                value: text::copy(value),
                found_by,
            },
        );
        i += 1;
    }
    assert(candidate_views(candidates@) =~= sorted.map_values(
        |value: Seq<char>| model_candidate(value),
    ));
    offer(&candidates, text::to_lowercase(partial).as_str())
}

/// The values of a toggle that contain a needle.
pub open spec fn toggle_choices(needle: Seq<char>) -> Seq<(Seq<char>, Seq<char>)> {
    (if text::contains("true"@, needle) {
        seq![("true"@, "true"@)]
    } else {
        Seq::empty()
    }) + (if text::contains("false"@, needle) {
        seq![("false"@, "false"@)]
    } else {
        Seq::empty()
    })
}

/// Suggests the values of a toggle.
pub fn offer_toggle(needle: &str) -> (choices: Vec<Choice>)
    ensures
        choice_views(choices@) == toggle_choices(needle@),
{
    let mut choices: Vec<Choice> = Vec::new();
    if text::has("true", needle) {
        choices.push(Choice { name: text::copy("true"), value: text::copy("true") });
    }
    if text::has("false", needle) {
        choices.push(Choice { name: text::copy("false"), value: text::copy("false") });
    }
    assert(choice_views(choices@) =~= toggle_choices(needle@));
    choices
}

/// What is shown for a partial value of a configuration category.
pub open spec fn category_offer(
    session_options: Seq<SessionConfigOption>,
    category: CategoryView,
    partial: Seq<char>,
) -> Seq<(Seq<char>, Seq<char>)> {
    let at = seqs::first_where(session_options, options::categorized(category));
    if at >= session_options.len() {
        Seq::empty()
    } else {
        match session_options[at].kind {
            SessionConfigKind::Select(select) => offered(
                options::all_choices(select).map_values(
                    |choice: (Seq<char>, Seq<char>)| named_candidate(choice),
                ),
                text::lowercase(partial),
            ),
            SessionConfigKind::Boolean { .. } => toggle_choices(text::lowercase(partial)),
            SessionConfigKind::Other => Seq::empty(),
        }
    }
}

/// Finds the first option of a category.
pub fn option_of_category(
    session_options: &Vec<SessionConfigOption>,
    category: &SessionConfigOptionCategory,
) -> (found: Option<usize>)
    ensures
        match found {
            Some(at) => at < session_options@.len() && at == seqs::first_where(
                session_options@,
                options::categorized(category@),
            ),
            None => seqs::first_where(session_options@, options::categorized(category@))
                == session_options@.len(),
        },
{
    let ghost wanted = options::categorized(category@);
    let mut at: usize = 0;
    while at < session_options.len()
        invariant
            at <= session_options@.len(),
            wanted == options::categorized(category@),
            forall|j: int| 0 <= j < at ==> !wanted(#[trigger] session_options@[j]),
        decreases session_options@.len() - at,
    {
        if let Some(own) = &session_options[at].category {
            if options::same_category(own, category) {
                proof {
                    seqs::lemma_first_where_is(session_options@, wanted, at as int);
                }
                return Some(at);
            }
        }
        at += 1;
    }
    proof {
        seqs::lemma_first_where_is(session_options@, wanted, at as int);
    }
    None
}

/// Suggests values of a configuration category.
pub fn category_choices(
    session_options: &Vec<SessionConfigOption>,
    category: &SessionConfigOptionCategory,
    partial: &str,
) -> (choices: Vec<Choice>)
    ensures
        choice_views(choices@) == category_offer(session_options@, category@, partial@),
{
    let choices: Vec<Choice> = Vec::new();
    assert(choice_views(choices@) =~= Seq::<(Seq<char>, Seq<char>)>::empty());
    let at = match option_of_category(session_options, category) {
        Some(at) => at,
        None => {
            return choices;
        },
    };
    match &session_options[at].kind {
        SessionConfigKind::Select(select) => {
            let candidates = options::select_options(select);
            let mut values: Vec<(String, String)> = Vec::new();
            let mut i: usize = 0;
            while i < candidates.len()
                invariant
                    i <= candidates@.len(),
                    values@.len() == i,
                    forall|j: int|
                        0 <= j < i ==> (#[trigger] values@[j]).0@ == candidates@[j].value@
                            && values@[j].1@ == candidates@[j].name@,
                decreases candidates@.len() - i,
            {
                values.push(
                    (
                        text::copy(candidates[i].value.as_str()),
                        text::copy(candidates[i].name.as_str()),
                    ),
                );
                i += 1;
            }
            assert(text::keyed_views(values@) =~= options::choices(candidates@));
            named_choices(&values, partial)
        },
        SessionConfigKind::Boolean { .. } => offer_toggle(text::to_lowercase(partial).as_str()),
        SessionConfigKind::Other => choices,
    }
}

/// Discord never gets more choices than it accepts.
pub proof fn offers_fit_discord(candidates: Seq<CandidateView>, needle: Seq<char>)
    ensures
        offered(candidates, needle).len() <= CHOICE_LIMIT,
{
}

} // verus!
