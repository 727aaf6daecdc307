//! Laws of rendered tool calls and plans.

use vstd::prelude::*;

use crate::discord::present;
use crate::json::JsonView;
use crate::text;

verus! {

/// A text without the invisible marks that break fences.
pub open spec fn unmarked(s: Seq<char>) -> Seq<char>
    decreases s.len(),
{
    if s.len() == 0 {
        s
    } else if s[0] == '\u{200b}' {
        unmarked(s.skip(1))
    } else {
        seq![s[0]] + unmarked(s.skip(1))
    }
}

/// Marks are left out of two texts one after the other.
pub proof fn lemma_unmarked_add(left: Seq<char>, right: Seq<char>)
    ensures
        unmarked(left + right) == unmarked(left) + unmarked(right),
    decreases left.len(),
{
    let all = left + right;
    if left.len() == 0 {
        assert(all =~= right);
        assert(unmarked(left) + unmarked(right) =~= unmarked(right));
    } else {
        lemma_unmarked_add(left.skip(1), right);
        assert(all.skip(1) =~= left.skip(1) + right);
        assert(all[0] == left[0]);
        if left[0] != '\u{200b}' {
            assert(seq![left[0]] + (unmarked(left.skip(1)) + unmarked(right)) =~= seq![left[0]]
                + unmarked(left.skip(1)) + unmarked(right));
        }
    }
}

/// Breaking fences adds invisible marks and changes nothing else, and a text
/// without a fence stays as it is.
pub proof fn breaking_fences_adds_marks_only(s: Seq<char>)
    ensures
        unmarked(present::unfenced(s)) == unmarked(s),
        (forall|i: int| 0 <= i && i + 2 < s.len() ==> !(#[trigger] s[i] == '`' && s[i + 1] == '`'
            && s[i + 2] == '`')) ==> present::unfenced(s) == s,
    decreases s.len(),
{
    if s.len() > 0 {
        let rest = s.skip(1);
        breaking_fences_adds_marks_only(rest);
        let broken = present::unfenced(rest);
        if s.len() >= 3 && s[0] == '`' && s[1] == '`' && s[2] == '`' {
            lemma_unmarked_add(seq!['`', '\u{200b}'], broken);
            assert(seq!['`', '\u{200b}'].skip(1) =~= seq!['\u{200b}']);
            assert(seq!['\u{200b}'].skip(1) =~= Seq::<char>::empty());
            assert(unmarked(Seq::<char>::empty()) =~= Seq::<char>::empty());
            assert(unmarked(seq!['\u{200b}']) =~= Seq::<char>::empty());
            assert(unmarked(seq!['`', '\u{200b}']) =~= seq!['`']);
        } else {
            let whole = seq![s[0]] + broken;
            assert(whole.skip(1) =~= broken);
            if forall|i: int| 0 <= i && i + 2 < s.len() ==> !(#[trigger] s[i] == '`' && s[i + 1]
                == '`' && s[i + 2] == '`') {
                assert forall|i: int| 0 <= i && i + 2 < rest.len() implies !(#[trigger] rest[i]
                    == '`' && rest[i + 1] == '`' && rest[i + 2] == '`') by {
                    assert(rest[i] == s[i + 1]);
                }
                assert(whole =~= s);
            }
        }
    }
}

/// A text occurs in another.
pub proof fn lemma_contains(before: Seq<char>, value: Seq<char>, after: Seq<char>)
    ensures
        text::contains(before + value + after, value),
{
    let all = before + value + after;
    assert(all.subrange(before.len() as int, (before.len() + value.len()) as int) =~= value);
    assert(text::occurs_at(all, value, before.len() as int));
}

/// The mark of a step: done, under way, or neither.
pub open spec fn is_marked(entry: JsonView, mark: char) -> bool {
    match entry.str_at("status"@) {
        Some(status) => {
            &&& mark == 'x' <==> status == "completed"@
            &&& mark == '~' <==> status == "in_progress"@
            &&& mark == 'x' || mark == '~' || mark == ' '
        },
        None => mark == ' ',
    }
}

/// A plan shows the content of a step behind its mark at a place.
pub open spec fn shows_step(shown: Seq<char>, entry: JsonView, at: int) -> bool {
    let content = text::trimmed(entry.str_at("content"@)->0);
    &&& 0 <= at
    &&& at + 5 + content.len() <= shown.len()
    &&& shown[at] == '\n'
    &&& shown[at + 1] == '['
    &&& is_marked(entry, shown[at + 2])
    &&& shown[at + 3] == ']'
    &&& shown[at + 4] == ' '
    &&& shown.subrange(at + 5, at + 5 + content.len()) == content
}

/// A step with something to show.
pub open spec fn is_step(entry: JsonView) -> bool {
    entry.str_at("content"@) matches Some(content) && text::trimmed(content).len() > 0
}

/// The length of what the steps of a plan show.
pub open spec fn steps_len(entries: Seq<JsonView>) -> nat
    decreases entries.len(),
{
    if entries.len() == 0 {
        0
    } else {
        steps_len(entries.drop_last()) + if is_step(entries.last()) {
            5 + text::trimmed(entries.last().str_at("content"@)->0).len()
        } else {
            0
        }
    }
}

proof fn lemma_step(entry: JsonView)
    requires
        is_step(entry),
    ensures
        shows_step(present::plan_line(entry), entry, 0),
        present::plan_line(entry).len() == 5 + text::trimmed(entry.str_at("content"@)->0).len(),
{
    reveal_strlit("\n[");
    reveal_strlit("] ");
    reveal_strlit("x");
    reveal_strlit("~");
    reveal_strlit(" ");
    reveal_strlit("pending");
    reveal_strlit("completed");
    reveal_strlit("in_progress");
    assert("completed"@.len() != "in_progress"@.len());
    assert("pending"@.len() != "in_progress"@.len());
    assert("pending"@.len() != "completed"@.len());
    let content = text::trimmed(entry.str_at("content"@)->0);
    let line = present::plan_line(entry);
    assert(line == "\n["@ + present::checkbox(entry) + "] "@ + content);
    assert(line.subrange(5, 5 + content.len() as int) =~= content);
}

proof fn lemma_plan_lines(entries: Seq<JsonView>)
    ensures
        present::plan_lines(entries).len() == steps_len(entries),
        forall|i: int|
            0 <= i < entries.len() && is_step(#[trigger] entries[i]) ==> shows_step(
                present::plan_lines(entries),
                entries[i],
                steps_len(entries.take(i)) as int,
            ),
    decreases entries.len(),
{
    if entries.len() > 0 {
        let before = entries.drop_last();
        let last = entries.last();
        let shown = present::plan_lines(entries);
        let head = present::plan_lines(before);
        lemma_plan_lines(before);
        if is_step(last) {
            lemma_step(last);
        }
        assert forall|i: int|
            0 <= i < entries.len() && is_step(#[trigger] entries[i]) implies shows_step(
            shown,
            entries[i],
            steps_len(entries.take(i)) as int,
        ) by {
            let content = text::trimmed(entries[i].str_at("content"@)->0);
            let at = steps_len(entries.take(i)) as int;
            if i < before.len() {
                assert(entries.take(i) =~= before.take(i));
                assert(before[i] == entries[i]);
                assert(shows_step(head, before[i], at));
                assert(shown.subrange(at + 5, at + 5 + content.len()) =~= head.subrange(
                    at + 5,
                    at + 5 + content.len(),
                ));
            } else {
                assert(entries.take(i) =~= before);
                let line = present::plan_line(last);
                assert(shown == head + line);
                assert(shown.subrange(at + 5, at + 5 + content.len()) =~= line.subrange(
                    5,
                    5 + content.len() as int,
                ));
            }
        }
    }
}

/// A rendered plan shows its heading and then every step that has a content, in
/// order and nothing else: each behind a mark that tells whether it is done, under
/// way or neither.
pub proof fn a_plan_shows_every_step(state: JsonView, entries: Seq<JsonView>)
    requires
        state.get("entries"@) == Some(JsonView::Array(entries)),
    ensures
        text::starts_with(present::plan_text(state), "📝 **plan**"@),
        present::plan_text(state).len() == "📝 **plan**"@.len() + steps_len(entries),
        forall|i: int|
            0 <= i < entries.len() && is_step(#[trigger] entries[i]) ==> shows_step(
                present::plan_text(state),
                entries[i],
                ("📝 **plan**"@.len() + steps_len(entries.take(i))) as int,
            ),
{
    lemma_plan_lines(entries);
    let heading = "📝 **plan**"@;
    let lines = present::plan_lines(entries);
    let shown = present::plan_text(state);
    assert(shown == heading + lines);
    assert(shown.subrange(0, heading.len() as int) =~= heading);
    assert forall|i: int|
        0 <= i < entries.len() && is_step(#[trigger] entries[i]) implies shows_step(
        shown,
        entries[i],
        (heading.len() + steps_len(entries.take(i))) as int,
    ) by {
        let at = steps_len(entries.take(i)) as int;
        let content = text::trimmed(entries[i].str_at("content"@)->0);
        assert(shows_step(lines, entries[i], at));
        assert(shown.subrange(
            heading.len() + at + 5,
            heading.len() + at + 5 + content.len(),
        ) =~= lines.subrange(at + 5, at + 5 + content.len()));
    }
}

/// The kind of a tool call.
pub open spec fn kind_in(state: JsonView) -> Seq<char> {
    match state.str_at("kind"@) {
        Some(kind) => kind,
        None => "other"@,
    }
}

/// What a tool call is called: its picture and, in bold, its kind in words.
pub open spec fn name_in(state: JsonView) -> Seq<char> {
    let kind = kind_in(state);
    present::emoji_of(kind) + " **"@ + Seq::new(
        kind.len(),
        |i: int|
            if kind[i] == '_' {
                ' '
            } else {
                kind[i]
            },
    ) + "**"@
}

/// The rendered text of a tool call starts with its name.
pub proof fn a_tool_call_names_its_kind(state: JsonView)
    ensures
        text::starts_with(present::tool_text(state), name_in(state)),
{
    let kind = kind_in(state);
    let name = name_in(state);
    assert(present::label_of(kind) =~= Seq::new(
        kind.len(),
        |i: int|
            if kind[i] == '_' {
                ' '
            } else {
                kind[i]
            },
    ));
    let shown = present::tool_text(state);
    assert(shown.subrange(0, name.len() as int) =~= name);
}

/// Each kind of tool call has its own picture, and every other kind has the same.
pub proof fn a_kind_has_its_picture(kind: Seq<char>)
    ensures
        ({
            let pictures: Seq<(Seq<char>, Seq<char>)> = seq![
                ("read"@, "📖"@),
                ("edit"@, "✏️"@),
                ("delete"@, "🗑️"@),
                ("move"@, "📂"@),
                ("search"@, "🔍"@),
                ("execute"@, "⚙️"@),
                ("think"@, "💭"@),
                ("fetch"@, "🌐"@),
                ("switch_mode"@, "🔁"@),
            ];
            &&& forall|i: int|
                0 <= i < pictures.len() && (#[trigger] pictures[i]).0 == kind
                    ==> present::emoji_of(kind) == pictures[i].1
            &&& (forall|i: int| 0 <= i < pictures.len() ==> (#[trigger] pictures[i]).0 != kind)
                ==> present::emoji_of(kind) == "🔧"@
        }),
{
    reveal_strlit("read");
    reveal_strlit("edit");
    reveal_strlit("delete");
    reveal_strlit("move");
    reveal_strlit("search");
    reveal_strlit("execute");
    reveal_strlit("think");
    reveal_strlit("fetch");
    reveal_strlit("switch_mode");
    assert("read"@[0] == 'r' && "edit"@[0] == 'e' && "delete"@[0] == 'd' && "move"@[0] == 'm'
        && "search"@[1] == 'e' && "execute"@[1] == 'x' && "think"@[0] == 't' && "fetch"@[0] == 'f'
        && "switch_mode"@[1] == 'w' && "edit"@[1] == 'd' && "search"@[0] == 's' && "execute"@[0]
        == 'e' && "switch_mode"@[0] == 's');
    let pictures: Seq<(Seq<char>, Seq<char>)> = seq![
        ("read"@, "📖"@),
        ("edit"@, "✏️"@),
        ("delete"@, "🗑️"@),
        ("move"@, "📂"@),
        ("search"@, "🔍"@),
        ("execute"@, "⚙️"@),
        ("think"@, "💭"@),
        ("fetch"@, "🌐"@),
        ("switch_mode"@, "🔁"@),
    ];
    if forall|i: int| 0 <= i < pictures.len() ==> (#[trigger] pictures[i]).0 != kind {
        assert(pictures[0].0 != kind);
        assert(pictures[1].0 != kind);
        assert(pictures[2].0 != kind);
        assert(pictures[3].0 != kind);
        assert(pictures[4].0 != kind);
        assert(pictures[5].0 != kind);
        assert(pictures[6].0 != kind);
        assert(pictures[7].0 != kind);
        assert(pictures[8].0 != kind);
    }
}

/// The command of an executed tool call: what its input names as `command`, or, where
/// it names none, as `cmd`; else the title, else a placeholder.
pub open spec fn is_command(state: JsonView, command: Seq<char>) -> bool {
    let input = state.get("rawInput"@);
    let under_command = input is Some && input->0.get("command"@) is Some;
    if under_command && input->0.get("command"@)->0 is Str {
        input->0.get("command"@) == Some(JsonView::Str(command))
    } else if input is Some && !under_command && input->0.get("cmd"@) is Some
        && input->0.get("cmd"@)->0 is Str {
        input->0.get("cmd"@) == Some(JsonView::Str(command))
    } else if state.get("title"@) is Some && state.get("title"@)->0 is Str {
        state.get("title"@) == Some(JsonView::Str(command))
    } else {
        command == "command"@
    }
}

/// The command of a tool call is found where its input, or else its title, has it.
pub proof fn a_command_is_found(state: JsonView)
    ensures
        is_command(state, present::command_of(state)),
{
}

/// A fenced block is shown as its own lines: the fence with the language, the text,
/// in which no fence can end the block, and the closing fence.
pub open spec fn is_block(shown: Seq<char>, value: Seq<char>, language: Seq<char>) -> bool {
    exists|inner: Seq<char>|
        #![trigger present::holds_no_fence(inner)]
        present::holds_no_fence(inner) && unmarked(inner) == unmarked(value) && shown == "```"@
            + language + "\n"@ + inner + "\n```"@
}

/// Fencing a text gives a block that shows it.
pub proof fn a_fenced_text_is_a_block(value: Seq<char>, language: Seq<char>)
    ensures
        is_block(present::fenced_text(value, language), value, language),
        !text::is_blank(present::fenced_text(value, language)),
{
    present::a_broken_text_holds_no_fence(value);
    breaking_fences_adds_marks_only(value);
    assert(present::holds_no_fence(present::unfenced(value)));
    reveal_strlit("```");
    let shown = present::fenced_text(value, language);
    assert(shown[0] == '`');
    assert(!text::is_space('`'));
}

/// An executed tool call ends with a block that shows its command.
pub proof fn an_execution_shows_its_command(state: JsonView)
    requires
        kind_in(state) == "execute"@,
    ensures
        exists|head: Seq<char>, block: Seq<char>|
            #![trigger is_block(block, present::command_of(state), "sh"@), text::starts_with(head, name_in(state))]
            is_block(block, present::command_of(state), "sh"@) && text::starts_with(
                head,
                name_in(state),
            ) && present::tool_text(state) == head + "\n"@ + block,
{
    reveal_strlit("read");
    reveal_strlit("edit");
    reveal_strlit("execute");
    let block = present::fenced_text(present::command_of(state), "sh"@);
    a_fenced_text_is_a_block(present::command_of(state), "sh"@);
    a_tool_call_names_its_kind(state);
    let shown = present::tool_text(state);
    assert("read"@.len() != "execute"@.len());
    assert("edit"@.len() != "execute"@.len());
    let kind = kind_in(state);
    let plain = present::emoji_of(kind) + " **"@ + present::label_of(kind) + "**"@;
    let titled = match present::shown_title(state, kind) {
        Some(value) => plain + " "@ + present::inline_title(value),
        None => plain,
    };
    let head = titled + present::status_suffix(
        present::text_or(state.str_at("status"@), "pending"@),
    );
    assert(shown == head + "\n"@ + block);
    let name = name_in(state);
    assert(present::label_of(kind) =~= Seq::new(
        kind.len(),
        |i: int|
            if kind[i] == '_' {
                ' '
            } else {
                kind[i]
            },
    ));
    assert(head.subrange(0, name.len() as int) =~= name);
    assert(text::starts_with(head, name));
}

/// A text whose fences are broken holds three marks in a row nowhere.
pub proof fn a_broken_text_holds_no_three_marks(s: Seq<char>)
    ensures
        forall|i: int|
            0 <= i && i + 2 < present::unfenced(s).len() ==> !(#[trigger] present::unfenced(s)[i]
                == '`' && present::unfenced(s)[i + 1] == '`' && present::unfenced(s)[i + 2] == '`'),
{
    present::a_broken_text_holds_no_fence(s);
    let broken = present::unfenced(s);
    assert forall|i: int| 0 <= i && i + 2 < broken.len() implies !(#[trigger] broken[i] == '`'
        && broken[i + 1] == '`' && broken[i + 2] == '`') by {
        assert(!present::is_fence_at(broken, i));
    }
}

} // verus!
