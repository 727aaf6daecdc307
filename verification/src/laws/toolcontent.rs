//! Laws of what a rendered tool call tells: its title, its status and its content.

use vstd::prelude::*;

use crate::discord::present;
use crate::json;
use crate::json::JsonView;
use crate::laws::tools;
use crate::text;

verus! {

/// A title quoted inline: between backticks, with those of its own made harmless.
pub open spec fn quoted(title: Seq<char>) -> Seq<char> {
    seq!['`'] + Seq::new(
        title.len(),
        |i: int|
            if title[i] == '`' {
                'ˋ'
            } else {
                title[i]
            },
    ) + seq!['`']
}

/// Two texts that are equal whatever the case of their letters and with underscores
/// for spaces.
pub open spec fn alike(left: Seq<char>, right: Seq<char>) -> bool {
    &&& left.len() == right.len()
    &&& forall|i: int|
        0 <= i < left.len() ==> text::ascii_lower(
            if #[trigger] left[i] == '_' {
                ' '
            } else {
                left[i]
            },
        ) == text::ascii_lower(
            if right[i] == '_' {
                ' '
            } else {
                right[i]
            },
        )
}

/// A title tells more than the kind and the command of its tool call do.
pub open spec fn is_telling(state: JsonView, title: Seq<char>) -> bool {
    &&& title.len() > 0
    &&& !alike(title, tools::kind_in(state))
    &&& tools::kind_in(state) == "execute"@ ==> title != text::trimmed(
        present::command_of(state),
    ) && title != "$ "@ + text::trimmed(present::command_of(state))
}

/// The title that a tool call is shown with, none where it has none that tells more
/// than the rest.
pub open spec fn title_in(state: JsonView) -> Option<Seq<char>> {
    match state.str_at("title"@) {
        Some(raw) => if is_telling(state, text::trimmed(raw)) {
            Some(text::trimmed(raw))
        } else {
            None
        },
        None => None,
    }
}

proof fn lemma_alike(left: Seq<char>, right: Seq<char>)
    ensures
        alike(left, right) <==> text::ascii_lowered(text::replaced(left, '_', ' '))
            == text::ascii_lowered(text::replaced(right, '_', ' ')),
{
    let a = text::ascii_lowered(text::replaced(left, '_', ' '));
    let b = text::ascii_lowered(text::replaced(right, '_', ' '));
    if alike(left, right) {
        assert(a =~= b) by {
            assert forall|i: int| 0 <= i < a.len() implies a[i] == b[i] by {
                let c = left[i];
            }
        }
    }
    if a == b {
        assert(a.len() == left.len() && b.len() == right.len());
        assert forall|i: int| 0 <= i < left.len() implies text::ascii_lower(
            if #[trigger] left[i] == '_' {
                ' '
            } else {
                left[i]
            },
        ) == text::ascii_lower(
            if right[i] == '_' {
                ' '
            } else {
                right[i]
            },
        ) by {
            assert(a[i] == b[i]);
        }
    }
}

/// What a tool call is headed with: its name and its title.
pub open spec fn heading(state: JsonView) -> Seq<char> {
    match title_in(state) {
        Some(title) => tools::name_in(state) + seq![' '] + quoted(title),
        None => tools::name_in(state),
    }
}

proof fn lemma_heading(state: JsonView)
    ensures
        ({
            let kind = tools::kind_in(state);
            let plain = present::emoji_of(kind) + " **"@ + present::label_of(kind) + "**"@;
            heading(state) == match present::shown_title(state, kind) {
                Some(value) => plain + " "@ + present::inline_title(value),
                None => plain,
            }
        }),
{
    let kind = tools::kind_in(state);
    assert(present::label_of(kind) =~= Seq::new(
        kind.len(),
        |i: int|
            if kind[i] == '_' {
                ' '
            } else {
                kind[i]
            },
    ));
    reveal_strlit(" ");
    reveal_strlit("`");
    assert(" "@ =~= seq![' ']);
    assert("`"@ =~= seq!['`']);
    if let Some(raw) = state.str_at("title"@) {
        let title = text::trimmed(raw);
        lemma_alike(title, kind);
        assert(present::inline_title(title) =~= quoted(title));
    }
}

/// What follows the heading tells the status: nothing of one that is completed, and
/// of any other a word in italics.
pub open spec fn tells_status(rest: Seq<char>, status: Option<Seq<char>>) -> bool {
    match status {
        None => text::starts_with(rest, " · *pending*"@),
        Some(word) => if word == "completed"@ {
            rest.len() == 0 || rest[0] == '\n'
        } else if word == "in_progress"@ {
            text::starts_with(rest, " · *running*"@)
        } else {
            text::starts_with(rest, " · *"@ + word + "*"@)
        },
    }
}

/// A tool call is headed with its name and with its title where that tells more than
/// the kind and the command do. A read is shown with nothing else; of any other the
/// status follows.
pub proof fn a_tool_call_tells_its_title_and_status(state: JsonView)
    ensures
        text::starts_with(present::tool_text(state), heading(state)),
        tools::kind_in(state) == "read"@ ==> present::tool_text(state) == heading(state),
        tools::kind_in(state) != "read"@ ==> tells_status(
            present::tool_text(state).skip(heading(state).len() as int),
            state.str_at("status"@),
        ),
{
    lemma_heading(state);
    let shown = present::tool_text(state);
    let head = heading(state);
    assert(shown.subrange(0, head.len() as int) =~= head);
    if tools::kind_in(state) != "read"@ {
        let status = present::text_or(state.str_at("status"@), "pending"@);
        let suffix = present::status_suffix(status);
        let rest = shown.skip(head.len() as int);
        reveal_strlit("\n");
        reveal_strlit("completed");
        reveal_strlit("pending");
        reveal_strlit("failed");
        reveal_strlit("in_progress");
        assert("completed"@.len() != "pending"@.len());
        assert("in_progress"@.len() != "pending"@.len());
        assert("failed"@.len() != "pending"@.len());
        assert("failed"@.len() != "completed"@.len());
        reveal_strlit(" · *");
        reveal_strlit("*");
        reveal_strlit(" · *pending*");
        reveal_strlit(" · *failed*");
        assert(" · *"@ + "pending"@ + "*"@ =~= " · *pending*"@);
        assert(" · *"@ + "failed"@ + "*"@ =~= " · *failed*"@);
        assert(rest.subrange(0, suffix.len() as int) =~= suffix);
    }
}

/// A search is shown without any content: two searches with the same title and
/// status look the same.
pub proof fn a_search_shows_no_content(left: JsonView, right: JsonView)
    requires
        tools::kind_in(left) == "search"@,
        tools::kind_in(right) == "search"@,
        left.str_at("title"@) == right.str_at("title"@),
        left.str_at("status"@) == right.str_at("status"@),
    ensures
        present::tool_text(left) == present::tool_text(right),
{
    reveal_strlit("search");
    reveal_strlit("execute");
    reveal_strlit("edit");
    reveal_strlit("read");
    assert("search"@.len() != "execute"@.len());
    assert("search"@.len() != "edit"@.len());
    assert("search"@.len() != "read"@.len());
    assert(text::is_blank(Seq::empty()));
}

/// A text that occurs in a part occurs in the whole.
proof fn lemma_contains_within(whole: Seq<char>, part: Seq<char>, value: Seq<char>)
    requires
        text::contains(whole, part),
        text::contains(part, value),
    ensures
        text::contains(whole, value),
{
    let at = choose|at: int| text::occurs_at(whole, part, at);
    let inner = choose|inner: int| text::occurs_at(part, value, inner);
    assert(whole.subrange(at + inner, at + inner + value.len()) =~= value) by {
        assert forall|i: int| 0 <= i < value.len() implies whole[at + inner + i] == value[i] by {
            assert(whole.subrange(at, at + part.len())[inner + i] == part[inner + i]);
            assert(part.subrange(inner, inner + value.len())[i] == value[i]);
        }
    }
    assert(text::occurs_at(whole, value, at + inner));
}

/// What a text contains, it contains without marks too.
proof fn lemma_unmarked_contains(whole: Seq<char>, value: Seq<char>)
    requires
        text::contains(whole, value),
    ensures
        text::contains(tools::unmarked(whole), tools::unmarked(value)),
{
    let at = choose|at: int| text::occurs_at(whole, value, at);
    let before = whole.take(at);
    let after = whole.skip(at + value.len());
    assert(whole =~= before + value + after);
    tools::lemma_unmarked_add(before + value, after);
    tools::lemma_unmarked_add(before, value);
    tools::lemma_contains(
        tools::unmarked(before),
        tools::unmarked(value),
        tools::unmarked(after),
    );
}

/// What a fenced block shows, it contains but for marks.
proof fn lemma_block_contains(value: Seq<char>, language: Seq<char>)
    ensures
        text::contains(
            tools::unmarked(present::fenced_text(value, language)),
            tools::unmarked(value),
        ),
{
    tools::breaking_fences_adds_marks_only(value);
    let inner = present::unfenced(value);
    tools::lemma_contains("```"@ + language + "\n"@, inner, "\n```"@);
    lemma_unmarked_contains(present::fenced_text(value, language), inner);
}

/// What each entry of a content list shows is shown of the list.
proof fn lemma_entries_contain(entries: Seq<JsonView>, at: int)
    requires
        0 <= at < entries.len(),
        present::entry_text(entries[at]) is Some,
    ensures
        text::contains(
            present::entries_text(entries),
            present::entry_text(entries[at])->0,
        ),
    decreases entries.len(),
{
    let value = present::entry_text(entries[at])->0;
    let none = Seq::<char>::empty();
    let all = present::entries_text(entries);
    let before = present::entries_text(entries.drop_last());
    if at == entries.len() - 1 {
        if before.len() > 0 {
            tools::lemma_contains(before + "\n\n"@, value, none);
            assert(before + "\n\n"@ + value + none =~= all);
        } else {
            tools::lemma_contains(none, value, none);
            assert(none + value + none =~= all);
        }
    } else {
        lemma_entries_contain(entries.drop_last(), at);
        match present::entry_text(entries.last()) {
            Some(last) => if before.len() > 0 {
                tools::lemma_contains(none, before, "\n\n"@ + last);
                assert(none + before + ("\n\n"@ + last) =~= all);
                lemma_contains_within(all, before, value);
            } else {
                assert(value =~= none);
                tools::lemma_contains(none, none, all);
                assert(none + none + all =~= all);
            },
            None => {},
        }
    }
}

/// Every diff of a content list stands in the diffs of the list.
proof fn lemma_diffs_contain(entries: Seq<JsonView>, at: int)
    requires
        0 <= at < entries.len(),
        present::is_diff(entries[at]),
    ensures
        text::contains(present::diffs_text(entries), present::diff_text(entries[at])),
    decreases entries.len(),
{
    let value = present::diff_text(entries[at]);
    let none = Seq::<char>::empty();
    let all = present::diffs_text(entries);
    let before = present::diffs_text(entries.drop_last());
    if at == entries.len() - 1 {
        tools::lemma_contains(before, value, none);
        assert(before + value + none =~= all);
    } else {
        lemma_diffs_contain(entries.drop_last(), at);
        if present::is_diff(entries.last()) {
            tools::lemma_contains(none, before, present::diff_text(entries.last()));
            assert(none + before + present::diff_text(entries.last()) =~= all);
            lemma_contains_within(all, before, value);
        }
    }
}

/// The body of a tool call stands at the end of its text.
proof fn lemma_body_contained(state: JsonView, body: Seq<char>, value: Seq<char>)
    requires
        !text::is_blank(body),
        text::contains(tools::unmarked(body), tools::unmarked(value)),
        exists|head: Seq<char>| present::tool_text(state) == #[trigger] (head + "\n"@) + body,
    ensures
        text::contains(tools::unmarked(present::tool_text(state)), tools::unmarked(value)),
{
    let head = choose|head: Seq<char>|
        present::tool_text(state) == #[trigger] (head + "\n"@) + body;
    let none = Seq::<char>::empty();
    tools::lemma_contains(head + "\n"@, body, none);
    assert(head + "\n"@ + body + none =~= present::tool_text(state));
    lemma_unmarked_contains(present::tool_text(state), body);
    lemma_contains_within(
        tools::unmarked(present::tool_text(state)),
        tools::unmarked(body),
        tools::unmarked(value),
    );
}

/// An edit shows every diff of its content, whole.
pub proof fn an_edit_shows_every_diff(state: JsonView, entries: Seq<JsonView>, at: int)
    requires
        tools::kind_in(state) == "edit"@,
        state.get("content"@) == Some(JsonView::Array(entries)),
        0 <= at < entries.len(),
        entries[at].str_at("type"@) == Some("diff"@),
    ensures
        text::contains(
            tools::unmarked(present::tool_text(state)),
            tools::unmarked(present::diff_text(entries[at])),
        ),
{
    reveal_strlit("edit");
    reveal_strlit("read");
    assert("edit"@[0] == 'e' && "read"@[0] == 'r');
    let value = present::diff_text(entries[at]);
    lemma_diffs_contain(entries, at);
    reveal_strlit("--- a/");
    reveal_strlit("--- /dev/null\n+++ b/");
    assert(value.len() > 0);
    let all = present::diffs_text(entries);
    let place = choose|place: int| text::occurs_at(all, value, place);
    assert(all.len() > 0);
    let body = present::fenced_text(all, "diff"@);
    assert(present::edit_content(state) == body);
    tools::a_fenced_text_is_a_block(all, "diff"@);
    lemma_block_contains(all, "diff"@);
    lemma_unmarked_contains(all, value);
    lemma_contains_within(tools::unmarked(body), tools::unmarked(all), tools::unmarked(value));
    let kind = tools::kind_in(state);
    let plain = present::emoji_of(kind) + " **"@ + present::label_of(kind) + "**"@;
    let titled = match present::shown_title(state, kind) {
        Some(title) => plain + " "@ + present::inline_title(title),
        None => plain,
    };
    let head = titled + present::status_suffix(
        present::text_or(state.str_at("status"@), "pending"@),
    );
    assert(present::tool_text(state) == (head + "\n"@) + body);
    lemma_body_contained(state, body, value);
}

/// A kind of tool call that shows its content as it is.
pub open spec fn shows_content(kind: Seq<char>) -> bool {
    kind != "read"@ && kind != "search"@ && kind != "execute"@ && kind != "edit"@
}

/// A text that contains one that is not blank is not blank.
proof fn lemma_contains_visible(whole: Seq<char>, value: Seq<char>)
    requires
        text::contains(whole, value),
        !text::is_blank(value),
    ensures
        !text::is_blank(whole),
{
    let at = choose|at: int| text::occurs_at(whole, value, at);
    let i = choose|i: int| 0 <= i < value.len() && !text::is_space(#[trigger] value[i]);
    assert(whole.subrange(at, at + value.len())[i] == value[i]);
    assert(whole[at + i] == value[i]);
}

/// A tool call that is neither a read, a search, an execution nor an edit shows what
/// every entry of its content shows.
pub proof fn a_tool_call_shows_its_content(state: JsonView, entries: Seq<JsonView>, at: int)
    requires
        shows_content(tools::kind_in(state)),
        state.get("content"@) == Some(JsonView::Array(entries)),
        0 <= at < entries.len(),
        present::entry_text(entries[at]) is Some,
        !text::is_blank(present::entry_text(entries[at])->0),
    ensures
        text::contains(present::tool_text(state), present::entry_text(entries[at])->0),
{
    let value = present::entry_text(entries[at])->0;
    lemma_entries_contain(entries, at);
    let body = present::entries_text(entries);
    lemma_contains_visible(body, value);
    let kind = tools::kind_in(state);
    assert(present::content_of(state) == body);
    let shown = present::tool_text(state);
    let head = shown.take(shown.len() - body.len());
    tools::lemma_contains(head, body, Seq::<char>::empty());
    assert(head + body + Seq::<char>::empty() =~= shown);
    lemma_contains_within(shown, body, value);
}

/// A tool call that is neither a read, a search, an execution nor an edit, and whose
/// content shows nothing, shows what it put out, or else what was put in.
pub proof fn a_tool_call_without_content_shows_its_data(state: JsonView, raw: JsonView)
    requires
        shows_content(tools::kind_in(state)),
        state.get("content"@) is None,
        state.get("rawOutput"@) == Some(raw) || (state.get("rawOutput"@) is None && state.get(
            "rawInput"@,
        ) == Some(raw)),
        !(raw is Null),
    ensures
        text::contains(
            tools::unmarked(present::tool_text(state)),
            tools::unmarked(json::json_pretty(raw)),
        ),
{
    let value = json::json_pretty(raw);
    let body = present::fenced_text(value, "json"@);
    assert(present::content_of(state) == body);
    tools::a_fenced_text_is_a_block(value, "json"@);
    lemma_block_contains(value, "json"@);
    let kind = tools::kind_in(state);
    let plain = present::emoji_of(kind) + " **"@ + present::label_of(kind) + "**"@;
    let titled = match present::shown_title(state, kind) {
        Some(title) => plain + " "@ + present::inline_title(title),
        None => plain,
    };
    let head = titled + present::status_suffix(
        present::text_or(state.str_at("status"@), "pending"@),
    );
    assert(present::tool_text(state) == (head + "\n"@) + body);
    lemma_body_contained(state, body, value);
}

/// Text content shows its text, wrapped or not; a link its name and target; an
/// embedded resource its text; media its type; and a diff both texts in a block.
pub proof fn a_content_entry_shows_what_it_holds(entry: JsonView)
    ensures
        entry.str_at("type"@) == Some("text"@) ==> present::entry_text(entry) == entry.str_at(
            "text"@,
        ),
        entry.str_at("type"@) == Some("content"@) && entry.get("content"@) is Some
            && entry.get("content"@)->0.str_at("type"@) == Some("text"@) ==> present::entry_text(
            entry,
        ) == entry.get("content"@)->0.str_at("text"@),
        entry.str_at("type"@) == Some("diff"@) ==> (present::entry_text(entry) matches Some(shown)
            && tools::is_block(shown, present::diff_text(entry), "diff"@)),
        entry.str_at("type"@) == Some("resource_link"@) ==> (present::entry_text(
            entry,
        ) matches Some(shown) && (entry.str_at("name"@) matches Some(name) ==> text::contains(
            shown,
            name,
        )) && (entry.str_at("uri"@) matches Some(uri) ==> text::contains(shown, uri))),
        entry.str_at("type"@) == Some("image"@) || entry.str_at("type"@) == Some("audio"@) ==> (
        present::entry_text(entry) matches Some(shown) && (entry.str_at("mimeType"@) matches Some(
            media,
        ) ==> text::contains(shown, media))),
        entry.str_at("type"@) is None ==> present::entry_text(entry) is None,
{
    reveal_strlit("text");
    reveal_strlit("content");
    reveal_strlit("diff");
    reveal_strlit("terminal");
    reveal_strlit("image");
    reveal_strlit("audio");
    reveal_strlit("resource_link");
    reveal_strlit("resource");
    assert("text"@[0] == 't' && "content"@[0] == 'c' && "diff"@[0] == 'd' && "image"@[0] == 'i'
        && "audio"@[0] == 'a' && "resource"@[0] == 'r' && "resource_link"@[0] == 'r'
        && "terminal"@[0] == 't' && "terminal"@.len() == 8 && "text"@.len() == 4
        && "resource"@.len() == 8 && "resource_link"@.len() == 13);
    tools::a_fenced_text_is_a_block(present::diff_text(entry), "diff"@);
    let none = Seq::<char>::empty();
    if entry.str_at("type"@) == Some("resource_link"@) {
        let name = present::text_or(entry.str_at("name"@), "resource"@);
        let uri = present::text_or(entry.str_at("uri"@), none);
        let shown = present::resource_link(entry);
        tools::lemma_contains("["@, name, "]("@ + uri + ")"@);
        assert("["@ + name + ("]("@ + uri + ")"@) =~= shown);
        tools::lemma_contains("["@ + name + "]("@, uri, ")"@);
    }
    if entry.str_at("type"@) == Some("image"@) {
        let media = present::text_or(entry.str_at("mimeType"@), "unknown"@);
        tools::lemma_contains("[image: "@, media, "]"@);
    }
    if entry.str_at("type"@) == Some("audio"@) {
        let media = present::text_or(entry.str_at("mimeType"@), "unknown"@);
        tools::lemma_contains("[audio: "@, media, "]"@);
    }
}

proof fn lemma_contains_from(whole: Seq<char>, part: Seq<char>, from: int)
    requires
        0 <= from,
        from + part.len() <= whole.len(),
        forall|i: int| 0 <= i < part.len() ==> whole[from + i] == #[trigger] part[i],
    ensures
        text::occurs_at(whole, part, from),
{
    assert(whole.subrange(from, from + part.len()) =~= part);
}

/// The entries of a content list are shown in order: what the first ones show comes
/// first, and what one more shows follows it at once or behind an empty line.
pub proof fn contents_are_shown_in_order(entries: Seq<JsonView>, at: int)
    requires
        0 <= at < entries.len(),
    ensures
        text::starts_with(
            present::entries_text(entries),
            present::entries_text(entries.take(at)),
        ),
        present::entry_text(entries[at]) matches Some(value) ==> ({
            let before = present::entries_text(entries.take(at));
            text::occurs_at(
                present::entries_text(entries),
                value,
                before.len() + if before.len() > 0 {
                    2int
                } else {
                    0int
                },
            )
        }),
    decreases entries.len(),
{
    let all = present::entries_text(entries);
    let head = entries.drop_last();
    let shown = present::entries_text(head);
    let before = present::entries_text(entries.take(at));
    reveal_strlit("\n\n");
    if at == entries.len() - 1 {
        assert(entries.take(at) =~= head);
        assert(all.subrange(0, shown.len() as int) =~= shown);
        if let Some(value) = present::entry_text(entries[at]) {
            let gap: int = if before.len() > 0 {
                2
            } else {
                0
            };
            assert forall|i: int| 0 <= i < value.len() implies all[before.len() + gap + i]
                == #[trigger] value[i] by {
            }
            lemma_contains_from(all, value, before.len() + gap);
        }
    } else {
        contents_are_shown_in_order(head, at);
        assert(head.take(at) =~= entries.take(at));
        assert(head[at] == entries[at]);
        assert(all.subrange(0, shown.len() as int) =~= shown);
        assert(all.subrange(0, before.len() as int) =~= shown.subrange(0, before.len() as int));
        if let Some(value) = present::entry_text(entries[at]) {
            let gap: int = if before.len() > 0 {
                2
            } else {
                0
            };
            let place = before.len() + gap;
            assert forall|i: int| 0 <= i < value.len() implies all[place + i] == #[trigger] value[i] by {
                assert(shown.subrange(place, place + value.len())[i] == value[i]);
                assert(all[place + i] == shown[place + i]);
            }
            lemma_contains_from(all, value, place);
        }
    }
}

/// The diffs of an edit are shown in order, one right behind the other, and entries that
/// are no diffs are left out.
pub proof fn diffs_are_shown_in_order(entries: Seq<JsonView>, at: int)
    requires
        0 <= at < entries.len(),
    ensures
        text::starts_with(present::diffs_text(entries), present::diffs_text(entries.take(at))),
        entries[at].str_at("type"@) == Some("diff"@) ==> text::occurs_at(
            present::diffs_text(entries),
            present::diff_text(entries[at]),
            present::diffs_text(entries.take(at)).len() as int,
        ),
        entries[at].str_at("type"@) != Some("diff"@) ==> present::diffs_text(
            entries.take(at + 1),
        ) == present::diffs_text(entries.take(at)),
    decreases entries.len(),
{
    let all = present::diffs_text(entries);
    let head = entries.drop_last();
    let shown = present::diffs_text(head);
    let before = present::diffs_text(entries.take(at));
    assert(entries.take(at + 1).drop_last() =~= entries.take(at));
    assert(entries.take(at + 1).last() == entries[at]);
    assert(all.subrange(0, shown.len() as int) =~= shown);
    if at == entries.len() - 1 {
        assert(entries.take(at) =~= head);
        if present::is_diff(entries[at]) {
            let value = present::diff_text(entries[at]);
            assert forall|i: int| 0 <= i < value.len() implies all[before.len() + i]
                == #[trigger] value[i] by {
            }
            lemma_contains_from(all, value, before.len() as int);
        }
    } else {
        diffs_are_shown_in_order(head, at);
        assert(head.take(at) =~= entries.take(at));
        assert(head[at] == entries[at]);
        assert(all.subrange(0, before.len() as int) =~= shown.subrange(0, before.len() as int));
        if present::is_diff(entries[at]) {
            let value = present::diff_text(entries[at]);
            let place = before.len() as int;
            assert forall|i: int| 0 <= i < value.len() implies all[place + i] == #[trigger] value[i] by {
                assert(shown.subrange(place, place + value.len())[i] == value[i]);
                assert(all[place + i] == shown[place + i]);
            }
            lemma_contains_from(all, value, place);
        }
    }
}

/// An edit without a diff shows what every entry of its content shows.
pub proof fn an_edit_without_diffs_shows_its_content(
    state: JsonView,
    entries: Seq<JsonView>,
    at: int,
)
    requires
        tools::kind_in(state) == "edit"@,
        state.get("content"@) == Some(JsonView::Array(entries)),
        forall|i: int|
            0 <= i < entries.len() ==> (#[trigger] entries[i]).str_at("type"@) != Some("diff"@),
        0 <= at < entries.len(),
        present::entry_text(entries[at]) is Some,
        !text::is_blank(present::entry_text(entries[at])->0),
    ensures
        text::contains(present::tool_text(state), present::entry_text(entries[at])->0),
{
    reveal_strlit("edit");
    reveal_strlit("read");
    assert("edit"@[0] == 'e' && "read"@[0] == 'r');
    lemma_no_diffs(entries);
    let value = present::entry_text(entries[at])->0;
    lemma_entries_contain(entries, at);
    let body = present::entries_text(entries);
    lemma_contains_visible(body, value);
    assert(present::edit_content(state) == body);
    let shown = present::tool_text(state);
    let head = shown.take(shown.len() - body.len());
    tools::lemma_contains(head, body, Seq::<char>::empty());
    assert(head + body + Seq::<char>::empty() =~= shown);
    lemma_contains_within(shown, body, value);
}

proof fn lemma_no_diffs(entries: Seq<JsonView>)
    requires
        forall|i: int|
            0 <= i < entries.len() ==> (#[trigger] entries[i]).str_at("type"@) != Some("diff"@),
    ensures
        present::diffs_text(entries).len() == 0,
    decreases entries.len(),
{
    if entries.len() > 0 {
        assert(entries[entries.len() - 1].str_at("type"@) != Some("diff"@));
        assert forall|i: int| 0 <= i < entries.drop_last().len() implies (
        #[trigger] entries.drop_last()[i]).str_at("type"@) != Some("diff"@) by {
            assert(entries[i].str_at("type"@) != Some("diff"@));
        }
        lemma_no_diffs(entries.drop_last());
    }
}

/// A tool call whose output is empty, and one that has neither content nor data, is
/// shown by its heading and status alone.
pub proof fn nothing_is_shown_of_no_data(state: JsonView)
    requires
        shows_content(tools::kind_in(state)),
        state.get("content"@) is None,
        state.get("rawOutput"@) == Some(JsonView::Null) || (state.get("rawOutput"@) is None && (
        state.get("rawInput"@) is None || state.get("rawInput"@) == Some(JsonView::Null))),
    ensures
        present::tool_text(state) == heading(state) + present::status_suffix(
            match state.str_at("status"@) {
                Some(status) => status,
                None => "pending"@,
            },
        ),
{
    lemma_heading(state);
    assert(text::is_blank(Seq::empty()));
}

/// Media is shown in brackets with what it is and its type, an embedded resource by its
/// text, and a link by its name and target.
pub proof fn media_and_links_tell_what_they_are(value: JsonView)
    ensures
        value.str_at("type"@) == Some("text"@) ==> present::value_text(value) == value.str_at(
            "text"@,
        ),
        value.str_at("type"@) == Some("image"@) ==> (value.str_at("mimeType"@) matches Some(media)
            ==> present::value_text(value) == Some("[image: "@ + media + "]"@)),
        value.str_at("type"@) == Some("audio"@) ==> (value.str_at("mimeType"@) matches Some(media)
            ==> present::value_text(value) == Some("[audio: "@ + media + "]"@)),
        value.str_at("type"@) == Some("resource"@) ==> present::value_text(value) == match value.get(
            "resource"@,
        ) {
            Some(inner) => inner.str_at("text"@),
            None => None,
        },
        value.str_at("type"@) == Some("resource_link"@) && value.str_at("name"@) is Some
            && value.str_at("uri"@) is Some ==> present::value_text(value) == Some(
            "["@ + value.str_at("name"@)->0 + "]("@ + value.str_at("uri"@)->0 + ")"@,
        ),
{
    reveal_strlit("text");
    reveal_strlit("image");
    reveal_strlit("audio");
    reveal_strlit("resource_link");
    reveal_strlit("resource");
    assert("text"@[0] == 't' && "image"@[0] == 'i' && "audio"@[0] == 'a' && "resource"@.len() == 8
        && "resource_link"@.len() == 13 && "resource"@[0] == 'r' && "resource_link"@[0] == 'r');
}

/// An entry that is media, a resource or a terminal itself is told as such, and one of
/// a kind that is not known is not shown.
pub proof fn an_entry_is_told_by_its_kind(entry: JsonView)
    ensures
        entry.str_at("type"@) == Some("resource"@) ==> present::entry_text(entry) == match entry.get(
            "resource"@,
        ) {
            Some(inner) => inner.str_at("text"@),
            None => None,
        },
        entry.str_at("type"@) == Some("terminal"@) ==> present::entry_text(entry) == match entry.get(
            "terminalId"@,
        ) {
            Some(id) => Some("[terminal: "@ + json::json_text(id) + "]"@),
            None => None,
        },
        entry.str_at("type"@) == Some("image"@) ==> present::entry_text(entry) == Some(
            "[image: "@ + media_of(entry) + "]"@,
        ),
        entry.str_at("type"@) == Some("audio"@) ==> present::entry_text(entry) == Some(
            "[audio: "@ + media_of(entry) + "]"@,
        ),
        entry.str_at("type"@) matches Some(kind) ==> (present::entry_text(entry) is Some ==> seq![
            "content"@,
            "text"@,
            "diff"@,
            "terminal"@,
            "image"@,
            "audio"@,
            "resource_link"@,
            "resource"@,
        ].contains(kind)),
{
    reveal_strlit("text");
    reveal_strlit("content");
    reveal_strlit("diff");
    reveal_strlit("terminal");
    reveal_strlit("image");
    reveal_strlit("audio");
    reveal_strlit("resource_link");
    reveal_strlit("resource");
    assert("text"@[0] == 't' && "content"@[0] == 'c' && "diff"@[0] == 'd' && "image"@[0] == 'i'
        && "audio"@[0] == 'a' && "resource"@[0] == 'r' && "resource_link"@[0] == 'r'
        && "terminal"@[0] == 't' && "terminal"@.len() == 8 && "text"@.len() == 4
        && "resource"@.len() == 8 && "resource_link"@.len() == 13);
    let known = seq![
        "content"@,
        "text"@,
        "diff"@,
        "terminal"@,
        "image"@,
        "audio"@,
        "resource_link"@,
        "resource"@,
    ];
    assert(known[0] == "content"@ && known[1] == "text"@ && known[2] == "diff"@ && known[3]
        == "terminal"@ && known[4] == "image"@ && known[5] == "audio"@ && known[6]
        == "resource_link"@ && known[7] == "resource"@);
}

/// The type of media, as far as it is known.
pub open spec fn media_of(value: JsonView) -> Seq<char> {
    match value.str_at("mimeType"@) {
        Some(media) => media,
        None => "unknown"@,
    }
}

} // verus!
