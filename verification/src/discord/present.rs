//! Projections rendered as Discord Markdown.

use vstd::prelude::*;

use crate::db::{ProjectionView, RenderProjection};
use crate::discord::split;
use crate::error::{BotError, BotResult};
use crate::json;
use crate::json::JsonView;
use crate::text;
use serde_json::Value;

verus! {

/// Maximum number of Unicode characters Discord accepts in one message.
pub const MESSAGE_LIMIT: usize = 2000;

/// A text in which every backtick that two more follow is set apart from them by
/// a zero-width space.
pub open spec fn unfenced(s: Seq<char>) -> Seq<char>
    decreases s.len(),
{
    if s.len() == 0 {
        s
    } else if s.len() >= 3 && s[0] == '`' && s[1] == '`' && s[2] == '`' {
        seq!['`', '\u{200b}'] + unfenced(s.skip(1))
    } else {
        seq![s[0]] + unfenced(s.skip(1))
    }
}

/// Three backticks in a row.
pub open spec fn is_fence_at(s: Seq<char>, i: int) -> bool {
    s[i] == '`' && s[i + 1] == '`' && s[i + 2] == '`'
}

/// Texts that hold three backticks in a row nowhere.
pub open spec fn holds_no_fence(s: Seq<char>) -> bool {
    forall|i: int| 0 <= i && i + 2 < s.len() ==> !#[trigger] is_fence_at(s, i)
}

/// A text that was broken up holds no three backticks in a row, so it cannot
/// close the code block it stands in.
pub proof fn a_broken_text_holds_no_fence(s: Seq<char>)
    ensures
        holds_no_fence(unfenced(s)),
        unfenced(s).len() > 0 <==> s.len() > 0,
        s.len() > 0 ==> unfenced(s)[0] == s[0],
    decreases s.len(),
{
    if s.len() > 0 {
        let rest = s.skip(1);
        let tail = unfenced(rest);
        a_broken_text_holds_no_fence(rest);
        let broken = unfenced(s);
        if s.len() >= 3 && s[0] == '`' && s[1] == '`' && s[2] == '`' {
            assert forall|i: int| 0 <= i && i + 2 < broken.len() implies !#[trigger] is_fence_at(
                broken,
                i,
            ) by {
                if i >= 2 {
                    assert(!is_fence_at(tail, i - 2));
                }
            }
        } else {
            if rest.len() > 0 && rest[0] == '`' && s[0] == '`' {
                a_broken_text_holds_no_fence(rest.skip(1));
                assert(tail == seq![rest[0]] + unfenced(rest.skip(1)));
            }
            assert forall|i: int| 0 <= i && i + 2 < broken.len() implies !#[trigger] is_fence_at(
                broken,
                i,
            ) by {
                if i >= 1 {
                    assert(!is_fence_at(tail, i - 1));
                }
            }
        }
    }
}

/// Breaks up every run of three or more backticks with zero-width spaces.
pub fn break_fences(value: &str) -> (result: String)
    ensures
        result@ == unfenced(value@),
        holds_no_fence(result@),
{
    let chars = text::chars_of(value);
    let mut result = String::new();
    let mut i: usize = 0;
    assert(chars@.skip(0) =~= chars@);
    assert(Seq::<char>::empty() + unfenced(chars@) =~= unfenced(chars@));
    while i < chars.len()
        invariant
            i <= chars@.len(),
            chars@ == value@,
            result@ + unfenced(chars@.skip(i as int)) == unfenced(value@),
        decreases chars@.len() - i,
    {
        let ghost before = result@;
        let ghost rest = chars@.skip(i as int);
        result.push(chars[i]);
        if chars.len() - i >= 3 && chars[i] == '`' && chars[i + 1] == '`' && chars[i + 2] == '`' {
            result.push('\u{200b}');
            assert(result@ =~= before + seq!['`', '\u{200b}']);
            assert(before + (seq!['`', '\u{200b}'] + unfenced(rest.skip(1))) =~= before + seq![
                '`',
                '\u{200b}',
            ] + unfenced(rest.skip(1)));
        } else {
            assert(result@ =~= before + seq![rest[0]]);
            assert(before + (seq![rest[0]] + unfenced(rest.skip(1))) =~= before + seq![rest[0]]
                + unfenced(rest.skip(1)));
        }
        assert(rest.skip(1) =~= chars@.skip(i + 1));
        i += 1;
    }
    assert(chars@.skip(i as int) =~= Seq::<char>::empty());
    assert(result@ + Seq::<char>::empty() =~= result@);
    proof {
        a_broken_text_holds_no_fence(value@);
    }
    result
}

/// A Markdown code block in a language.
pub open spec fn fenced_text(value: Seq<char>, language: Seq<char>) -> Seq<char> {
    "```"@ + language + "\n"@ + unfenced(value) + "\n```"@
}

/// Wraps text in a Discord-safe Markdown code fence: the text cannot close it.
pub fn fence(value: &str, language: &str) -> (block: String)
    ensures
        block@ == fenced_text(value@, language@),
{
    text::join5("```", language, "\n", break_fences(value).as_str(), "\n```")
}

/// The name shown for a protocol tool kind.
pub open spec fn label_of(kind: Seq<char>) -> Seq<char> {
    text::replaced(kind, '_', ' ')
}

/// Converts a protocol tool kind into the name shown in a tool header.
pub fn tool_label(kind: &str) -> (label: String)
    ensures
        label@ == label_of(kind@),
{
    text::replace_char(kind, '_', ' ')
}

/// A tool title as escaped inline Markdown code.
pub open spec fn inline_title(title: Seq<char>) -> Seq<char> {
    "`"@ + text::replaced(title, '`', 'ˋ') + "`"@
}

/// Formats a tool title as escaped inline Markdown code.
pub fn format_tool_title(title: &str) -> (result: String)
    ensures
        result@ == inline_title(title@),
{
    text::join3("`", text::replace_char(title, '`', 'ˋ').as_str(), "`")
}

/// Wraps tool titles in inline Markdown code.
pub fn header_title(title: &str) -> (result: String)
    ensures
        result@ == inline_title(title@),
{
    format_tool_title(title)
}

/// The marker shown for a tool kind.
pub open spec fn emoji_of(kind: Seq<char>) -> Seq<char> {
    if kind == "read"@ {
        "📖"@
    } else if kind == "edit"@ {
        "✏️"@
    } else if kind == "delete"@ {
        "🗑️"@
    } else if kind == "move"@ {
        "📂"@
    } else if kind == "search"@ {
        "🔍"@
    } else if kind == "execute"@ {
        "⚙️"@
    } else if kind == "think"@ {
        "💭"@
    } else if kind == "fetch"@ {
        "🌐"@
    } else if kind == "switch_mode"@ {
        "🔁"@
    } else {
        "🔧"@
    }
}

/// Maps ACP tool kinds to compact Discord markers.
pub fn tool_emoji(kind: &str) -> (emoji: &'static str)
    ensures
        emoji@ == emoji_of(kind@),
{
    if text::same(kind, "read") {
        "📖"
    } else if text::same(kind, "edit") {
        "✏️"
    } else if text::same(kind, "delete") {
        "🗑️"
    } else if text::same(kind, "move") {
        "📂"
    } else if text::same(kind, "search") {
        "🔍"
    } else if text::same(kind, "execute") {
        "⚙️"
    } else if text::same(kind, "think") {
        "💭"
    } else if text::same(kind, "fetch") {
        "🌐"
    } else if text::same(kind, "switch_mode") {
        "🔁"
    } else {
        "🔧"
    }
}

/// The suffix shown for a tool status.
pub open spec fn status_suffix(status: Seq<char>) -> Seq<char> {
    if status == "completed"@ {
        Seq::empty()
    } else if status == "pending"@ {
        " · *pending*"@
    } else if status == "in_progress"@ {
        " · *running*"@
    } else if status == "failed"@ {
        " · *failed*"@
    } else {
        " · *"@ + status + "*"@
    }
}

/// Formats the status suffix shown after a tool-call title.
pub fn tool_status(status: &str) -> (suffix: String)
    ensures
        suffix@ == status_suffix(status@),
{
    if text::same(status, "completed") {
        String::new()
    } else if text::same(status, "pending") {
        text::copy(" · *pending*")
    } else if text::same(status, "in_progress") {
        text::copy(" · *running*")
    } else if text::same(status, "failed") {
        text::copy(" · *failed*")
    } else {
        text::join3(" · *", status, "*")
    }
}

/// A text, or another where there is none.
pub open spec fn text_or(value: Option<Seq<char>>, other: Seq<char>) -> Seq<char> {
    match value {
        Some(inner) => inner,
        None => other,
    }
}

fn str_or<'a>(value: Option<&'a str>, other: &'a str) -> (result: &'a str)
    ensures
        result@ == text_or(text::opt_str(value), other@),
{
    match value {
        Some(inner) => inner,
        None => other,
    }
}

/// The command that an execute tool call stands for.
pub open spec fn command_of(state: JsonView) -> Seq<char> {
    let given = match state.get("rawInput"@) {
        Some(input) => match input.get("command"@) {
            Some(command) => command.as_str(),
            None => input.str_at("cmd"@),
        },
        None => None,
    };
    match given {
        Some(command) => command,
        None => text_or(state.str_at("title"@), "command"@),
    }
}

/// Resolves the command represented by an execute tool call.
pub fn execute_command<'a>(state: &'a Value) -> (command: &'a str)
    ensures
        command@ == command_of(json::json_of(*state)),
{
    if let Some(input) = json::get(state, "rawInput") {
        let given = match json::get(input, "command") {
            Some(command) => json::as_str(command),
            None => json::str_member(input, "cmd"),
        };
        if let Some(command) = given {
            return command;
        }
    }
    str_or(json::str_member(state, "title"), "command")
}

/// An execute title that repeats the command, with or without a shell prompt.
pub open spec fn repeats_command(title: Seq<char>, state: JsonView) -> bool {
    let command = text::trimmed(command_of(state));
    title == command || title == "$ "@ + command
}

/// Recognizes execute titles that repeat the command, with or without a shell
/// prompt prefix.
pub fn redundant_execute_title(title: &str, state: &Value) -> (result: bool)
    ensures
        result == repeats_command(title@, json::json_of(*state)),
{
    let command = text::trim(execute_command(state));
    text::same(title, command.as_str()) || text::same(
        title,
        text::join2("$ ", command.as_str()).as_str(),
    )
}

/// The lines of a text, each behind a sign and with a line feed.
pub open spec fn signed_lines(s: Seq<char>, sign: char) -> Seq<char>
    decreases s.len(),
{
    if s.len() == 0 {
        s
    } else {
        proof {
            text::lemma_first_at(s, '\n', 0);
        }
        let at = text::first_at(s, '\n', 0);
        if at >= s.len() {
            seq![sign] + s + seq!['\n']
        } else {
            let line = if at > 0 && s[at - 1] == '\r' {
                s.take(at - 1)
            } else {
                s.take(at)
            };
            seq![sign] + line + seq!['\n'] + signed_lines(s.skip(at + 1), sign)
        }
    }
}

fn append_signed_lines(output: &mut String, value: &str, sign: char)
    ensures
        final(output)@ == old(output)@ + signed_lines(value@, sign),
{
    let chars = text::chars_of(value);
    let ghost start = output@;
    let mut from: usize = 0;
    assert(chars@.skip(0) =~= chars@);
    while from < chars.len()
        invariant
            from <= chars@.len(),
            chars@ == value@,
            output@ + signed_lines(chars@.skip(from as int), sign) == start + signed_lines(
                value@,
                sign,
            ),
        decreases chars@.len() - from,
    {
        let ghost before = output@;
        let ghost rest = chars@.skip(from as int);
        let at = text::find_char(&chars, '\n', from);
        proof {
            assert forall|i: int| 0 <= i < at - from implies rest[i] != '\n' by {
                assert(rest[i] == chars@[i + from]);
            }
            text::lemma_first_at_unique(rest, '\n', 0, at - from);
        }
        let end: usize = if at < chars.len() && at > from && chars[at - 1] == '\r' {
            at - 1
        } else {
            at
        };
        let line = text::string_of(&chars, from, end);
        output.push(sign);
        output.append(line.as_str());
        output.push('\n');
        proof {
            assert(output@ =~= before + (seq![sign] + line@ + seq!['\n']));
            if at < chars@.len() {
                assert(line@ =~= rest.take(end - from));
                assert(rest.skip(at - from + 1) =~= chars@.skip(at + 1));
                let tail = signed_lines(chars@.skip(at + 1), sign);
                assert(before + (seq![sign] + line@ + seq!['\n'] + tail) =~= before + (seq![sign]
                    + line@ + seq!['\n']) + tail);
            } else {
                assert(line@ =~= rest);
                assert(chars@.skip(at as int) =~= Seq::<char>::empty());
                assert(before + (seq![sign] + line@ + seq!['\n']) + Seq::<char>::empty()
                    =~= before + (seq![sign] + line@ + seq!['\n']));
            }
        }
        from = if at < chars.len() {
            at + 1
        } else {
            at
        };
    }
    assert(chars@.skip(from as int) =~= Seq::<char>::empty());
    assert(output@ + Seq::<char>::empty() =~= output@);
}

/// One ACP file diff as unified-diff text.
pub open spec fn diff_text(diff: JsonView) -> Seq<char> {
    let path = text_or(diff.str_at("path"@), "file"@);
    let head = match diff.str_at("oldText"@) {
        Some(old_text) => "--- a/"@ + path + "\n+++ b/"@ + path + "\n"@ + signed_lines(
            old_text,
            '-',
        ),
        None => "--- /dev/null\n+++ b/"@ + path + "\n"@,
    };
    match diff.str_at("newText"@) {
        Some(new_text) => head + signed_lines(new_text, '+'),
        None => head,
    }
}

/// Formats one ACP file diff as unified-diff text.
pub fn render_diff(diff: &Value) -> (output: String)
    ensures
        output@ == diff_text(json::json_of(*diff)),
{
    let path = str_or(json::str_member(diff, "path"), "file");
    let mut output = match json::str_member(diff, "oldText") {
        Some(old_text) => {
            let mut head = text::join5("--- a/", path, "\n+++ b/", path, "\n");
            append_signed_lines(&mut head, old_text, '-');
            head
        },
        None => text::join3("--- /dev/null\n+++ b/", path, "\n"),
    };
    if let Some(new_text) = json::str_member(diff, "newText") {
        append_signed_lines(&mut output, new_text, '+');
    }
    output
}

/// A link to a serialized resource.
pub open spec fn resource_link(value: JsonView) -> Seq<char> {
    "["@ + text_or(value.str_at("name"@), "resource"@) + "]("@ + text_or(
        value.str_at("uri"@),
        Seq::empty(),
    ) + ")"@
}

fn link_text(value: &Value) -> (result: String)
    ensures
        result@ == resource_link(json::json_of(*value)),
{
    let empty = String::new();
    let uri = str_or(json::str_member(value, "uri"), empty.as_str());
    text::join5("[", str_or(json::str_member(value, "name"), "resource"), "](", uri, ")")
}

/// The text of an embedded resource.
pub open spec fn resource_text(value: JsonView) -> Option<Seq<char>> {
    match value.get("resource"@) {
        Some(resource) => resource.str_at("text"@),
        None => None,
    }
}

fn embedded_text(value: &Value) -> (result: Option<String>)
    ensures
        text::opt_text(result) == resource_text(json::json_of(*value)),
{
    match json::get(value, "resource") {
        Some(resource) => owned(json::str_member(resource, "text")),
        None => None,
    }
}

fn owned(value: Option<&str>) -> (result: Option<String>)
    ensures
        text::opt_text(result) == text::opt_str(value),
{
    match value {
        Some(inner) => Some(text::copy(inner)),
        None => None,
    }
}

/// A placeholder for media of a kind.
pub open spec fn media_text(label: Seq<char>, value: JsonView) -> Seq<char> {
    label + text_or(value.str_at("mimeType"@), "unknown"@) + "]"@
}

fn media(label: &str, value: &Value) -> (result: String)
    ensures
        result@ == media_text(label@, json::json_of(*value)),
{
    text::join3(label, str_or(json::str_member(value, "mimeType"), "unknown"), "]")
}

/// The human-readable text of a serialized content block.
pub open spec fn value_text(value: JsonView) -> Option<Seq<char>> {
    match value.str_at("type"@) {
        None => None,
        Some(kind) => if kind == "text"@ {
            value.str_at("text"@)
        } else if kind == "resource_link"@ {
            Some(resource_link(value))
        } else if kind == "resource"@ {
            resource_text(value)
        } else if kind == "image"@ {
            Some(media_text("[image: "@, value))
        } else if kind == "audio"@ {
            Some(media_text("[audio: "@, value))
        } else {
            None
        },
    }
}

/// Extracts human-readable text from a serialized content block.
pub fn content_value_text(value: &Value) -> (result: Option<String>)
    ensures
        text::opt_text(result) == value_text(json::json_of(*value)),
{
    let kind = match json::str_member(value, "type") {
        Some(kind) => kind,
        None => {
            return None;
        },
    };
    if text::same(kind, "text") {
        owned(json::str_member(value, "text"))
    } else if text::same(kind, "resource_link") {
        Some(link_text(value))
    } else if text::same(kind, "resource") {
        embedded_text(value)
    } else if text::same(kind, "image") {
        Some(media("[image: ", value))
    } else if text::same(kind, "audio") {
        Some(media("[audio: ", value))
    } else {
        None
    }
}

/// The text or diff of one serialized tool-content entry.
pub open spec fn entry_text(entry: JsonView) -> Option<Seq<char>> {
    match entry.str_at("type"@) {
        None => None,
        Some(kind) => if kind == "content"@ {
            match entry.get("content"@) {
                Some(content) => value_text(content),
                None => None,
            }
        } else if kind == "text"@ {
            entry.str_at("text"@)
        } else if kind == "diff"@ {
            Some(fenced_text(diff_text(entry), "diff"@))
        } else if kind == "terminal"@ {
            match entry.get("terminalId"@) {
                Some(id) => Some("[terminal: "@ + json::json_text(id) + "]"@),
                None => None,
            }
        } else if kind == "image"@ {
            Some(media_text("[image: "@, entry))
        } else if kind == "audio"@ {
            Some(media_text("[audio: "@, entry))
        } else if kind == "resource_link"@ {
            Some(resource_link(entry))
        } else if kind == "resource"@ {
            resource_text(entry)
        } else {
            None
        },
    }
}

/// Extracts text or a diff from one serialized tool-content entry.
pub fn tool_content_text(entry: &Value) -> (result: Option<String>)
    ensures
        text::opt_text(result) == entry_text(json::json_of(*entry)),
{
    let kind = match json::str_member(entry, "type") {
        Some(kind) => kind,
        None => {
            return None;
        },
    };
    if text::same(kind, "content") {
        match json::get(entry, "content") {
            Some(content) => content_value_text(content),
            None => None,
        }
    } else if text::same(kind, "text") {
        owned(json::str_member(entry, "text"))
    } else if text::same(kind, "diff") {
        Some(fence(render_diff(entry).as_str(), "diff"))
    } else if text::same(kind, "terminal") {
        match json::get(entry, "terminalId") {
            Some(id) => match json::write(id) {
                Ok(shown) => Some(text::join3("[terminal: ", shown.as_str(), "]")),
                Err(_) => None,
            },
            None => None,
        }
    } else if text::same(kind, "image") {
        Some(media("[image: ", entry))
    } else if text::same(kind, "audio") {
        Some(media("[audio: ", entry))
    } else if text::same(kind, "resource_link") {
        Some(link_text(entry))
    } else if text::same(kind, "resource") {
        embedded_text(entry)
    } else {
        None
    }
}

/// The texts of tool-content entries with an empty line between each two.
pub open spec fn entries_text(entries: Seq<JsonView>) -> Seq<char>
    decreases entries.len(),
{
    if entries.len() == 0 {
        Seq::empty()
    } else {
        let before = entries_text(entries.drop_last());
        match entry_text(entries.last()) {
            Some(value) => if before.len() > 0 {
                before + "\n\n"@ + value
            } else {
                value
            },
            None => before,
        }
    }
}

/// The raw value shown for a tool call without content.
pub open spec fn raw_of(state: JsonView) -> Option<JsonView> {
    let raw = match state.get("rawOutput"@) {
        Some(value) => Some(value),
        None => state.get("rawInput"@),
    };
    match raw {
        Some(value) => if value is Null {
            None
        } else {
            Some(value)
        },
        None => None,
    }
}

/// The generic content of a tool call.
pub open spec fn content_of(state: JsonView) -> Seq<char> {
    let shown = match state.get("content"@) {
        Some(content) => match content.as_array() {
            Some(entries) => entries_text(entries),
            None => Seq::empty(),
        },
        None => Seq::empty(),
    };
    if shown.len() > 0 {
        shown
    } else {
        match raw_of(state) {
            Some(raw) => fenced_text(json::json_pretty(raw), "json"@),
            None => Seq::empty(),
        }
    }
}

fn content_entries<'a>(state: &'a Value) -> (entries: Option<&'a Vec<Value>>)
    ensures
        match entries {
            Some(list) => json::json_of(*state).get("content"@) == Some(
                JsonView::Array(json::jsons(list@)),
            ),
            None => match json::json_of(*state).get("content"@) {
                Some(content) => content.as_array() is None,
                None => true,
            },
        },
{
    match json::get(state, "content") {
        Some(content) => json::as_array(content),
        None => None,
    }
}

fn render_entries(entries: &Vec<Value>) -> (output: String)
    ensures
        output@ == entries_text(json::jsons(entries@)),
{
    let mut output = String::new();
    let ghost all = json::jsons(entries@);
    let mut i: usize = 0;
    assert(all.take(0) =~= Seq::<JsonView>::empty());
    while i < entries.len()
        invariant
            i <= entries@.len(),
            all == json::jsons(entries@),
            output@ == entries_text(all.take(i as int)),
        decreases entries@.len() - i,
    {
        proof {
            assert(all[i as int] == json::json_of(entries@[i as int]));
            assert(all.take(i + 1).drop_last() =~= all.take(i as int));
        }
        if let Some(shown) = tool_content_text(&entries[i]) {
            if !output.as_str().is_empty() {
                output.append("\n\n");
            } else {
                assert(output@ + shown@ =~= shown@);
            }
            output.append(shown.as_str());
        }
        i += 1;
    }
    assert(all.take(i as int) =~= all);
    output
}

/// Renders generic content attached to a tool call.
pub fn render_tool_content(state: &Value) -> (output: String)
    ensures
        output@ == content_of(json::json_of(*state)),
{
    if let Some(entries) = content_entries(state) {
        let output = render_entries(entries);
        if !output.as_str().is_empty() {
            return output;
        }
    }
    let raw = match json::get(state, "rawOutput") {
        Some(value) => Some(value),
        None => json::get(state, "rawInput"),
    };
    match raw {
        Some(value) => {
            if json::is_null(value) {
                return String::new();
            }
            match json::write_pretty(value) {
                Ok(shown) => fence(shown.as_str(), "json"),
                Err(_) => String::new(),
            }
        },
        None => String::new(),
    }
}

/// Whether an entry is a file diff.
pub open spec fn is_diff(entry: JsonView) -> bool {
    entry.str_at("type"@) == Some("diff"@)
}

/// The file diffs among tool-content entries.
pub open spec fn diffs_text(entries: Seq<JsonView>) -> Seq<char>
    decreases entries.len(),
{
    if entries.len() == 0 {
        Seq::empty()
    } else if is_diff(entries.last()) {
        diffs_text(entries.drop_last()) + diff_text(entries.last())
    } else {
        diffs_text(entries.drop_last())
    }
}

/// The content of an edit: its diffs, else what any tool call shows.
pub open spec fn edit_content(state: JsonView) -> Seq<char> {
    match state.get("content"@) {
        Some(content) => match content.as_array() {
            Some(entries) => if diffs_text(entries).len() > 0 {
                fenced_text(diffs_text(entries), "diff"@)
            } else {
                content_of(state)
            },
            None => Seq::empty(),
        },
        None => Seq::empty(),
    }
}

/// Renders file diffs attached to an edit tool call.
pub fn render_diff_content(state: &Value) -> (output: String)
    ensures
        output@ == edit_content(json::json_of(*state)),
{
    let entries = match content_entries(state) {
        Some(entries) => entries,
        None => {
            return String::new();
        },
    };
    let mut output = String::new();
    let ghost all = json::jsons(entries@);
    let mut i: usize = 0;
    assert(all.take(0) =~= Seq::<JsonView>::empty());
    while i < entries.len()
        invariant
            i <= entries@.len(),
            all == json::jsons(entries@),
            output@ == diffs_text(all.take(i as int)),
        decreases entries@.len() - i,
    {
        proof {
            assert(all[i as int] == json::json_of(entries@[i as int]));
            assert(all.take(i + 1).drop_last() =~= all.take(i as int));
        }
        if let Some(kind) = json::str_member(&entries[i], "type") {
            if text::same(kind, "diff") {
                output.append(render_diff(&entries[i]).as_str());
            }
        }
        i += 1;
    }
    assert(all.take(i as int) =~= all);
    if output.as_str().is_empty() {
        render_tool_content(state)
    } else {
        fence(output.as_str(), "diff")
    }
}

/// Renders only the command run by an execute tool.
pub fn render_execute_content(state: &Value) -> (output: String)
    ensures
        output@ == fenced_text(command_of(json::json_of(*state)), "sh"@),
{
    fence(execute_command(state), "sh")
}

/// The title shown in a tool header, where it says more than the tool name and
/// the command.
pub open spec fn shown_title(state: JsonView, kind: Seq<char>) -> Option<Seq<char>> {
    match state.str_at("title"@) {
        None => None,
        Some(raw) => {
            let title = text::trimmed(raw);
            if title.len() == 0 || text::ascii_lowered(text::replaced(title, '_', ' '))
                == text::ascii_lowered(label_of(kind)) || (kind == "execute"@ && repeats_command(
                title,
                state,
            )) {
                None
            } else {
                Some(title)
            }
        },
    }
}

/// A tool call as one Markdown text: a header with marker, name, title and
/// status, and the content below it.
pub open spec fn tool_text(state: JsonView) -> Seq<char> {
    let kind = text_or(state.str_at("kind"@), "other"@);
    let name = emoji_of(kind) + " **"@ + label_of(kind) + "**"@;
    let title = shown_title(state, kind);
    let titled = match title {
        Some(value) => name + " "@ + inline_title(value),
        None => name,
    };
    if kind == "read"@ {
        titled
    } else {
        let header = titled + status_suffix(text_or(state.str_at("status"@), "pending"@));
        let body = if kind == "edit"@ {
            edit_content(state)
        } else if kind == "execute"@ {
            fenced_text(command_of(state), "sh"@)
        } else if kind == "search"@ {
            Seq::empty()
        } else {
            content_of(state)
        };
        if text::is_blank(body) {
            header
        } else {
            header + "\n"@ + body
        }
    }
}

fn header_name(state: &Value, kind: &str) -> (title: Option<String>)
    ensures
        text::opt_text(title) == shown_title(json::json_of(*state), kind@),
{
    let title = match json::str_member(state, "title") {
        Some(raw) => text::trim(raw),
        None => {
            return None;
        },
    };
    if title.as_str().is_empty() {
        return None;
    }
    let spaced = text::replace_char(title.as_str(), '_', ' ');
    if text::same_ignoring_case(spaced.as_str(), tool_label(kind).as_str()) {
        return None;
    }
    if text::same(kind, "execute") && redundant_execute_title(title.as_str(), state) {
        return None;
    }
    Some(title)
}

/// Formats a tool call and its current result for one Discord projection.
pub fn render_tool_text(state: &Value) -> (output: String)
    ensures
        output@ == tool_text(json::json_of(*state)),
{
    let kind = str_or(json::str_member(state, "kind"), "other");
    let name = text::join4(tool_emoji(kind), " **", tool_label(kind).as_str(), "**");
    let titled = match header_name(state, kind) {
        Some(title) => text::join3(name.as_str(), " ", header_title(title.as_str()).as_str()),
        None => name,
    };
    if text::same(kind, "read") {
        return titled;
    }
    let status = str_or(json::str_member(state, "status"), "pending");
    let header = text::join2(titled.as_str(), tool_status(status).as_str());
    let body = if text::same(kind, "edit") {
        render_diff_content(state)
    } else if text::same(kind, "execute") {
        render_execute_content(state)
    } else if text::same(kind, "search") {
        String::new()
    } else {
        render_tool_content(state)
    };
    if text::blank(body.as_str()) {
        header
    } else {
        text::join3(header.as_str(), "\n", body.as_str())
    }
}

/// The checkbox of a plan entry.
pub open spec fn checkbox(entry: JsonView) -> Seq<char> {
    let status = text_or(entry.str_at("status"@), "pending"@);
    if status == "completed"@ {
        "x"@
    } else if status == "in_progress"@ {
        "~"@
    } else {
        " "@
    }
}

/// One line of a plan, nothing for an entry without text.
pub open spec fn plan_line(entry: JsonView) -> Seq<char> {
    match entry.str_at("content"@) {
        Some(raw) => {
            let content = text::trimmed(raw);
            if content.len() == 0 {
                Seq::empty()
            } else {
                "\n["@ + checkbox(entry) + "] "@ + content
            }
        },
        None => Seq::empty(),
    }
}

/// The lines of plan entries.
pub open spec fn plan_lines(entries: Seq<JsonView>) -> Seq<char>
    decreases entries.len(),
{
    if entries.len() == 0 {
        Seq::empty()
    } else {
        plan_lines(entries.drop_last()) + plan_line(entries.last())
    }
}

/// A plan as a compact checklist.
pub open spec fn plan_text(state: JsonView) -> Seq<char> {
    match state.get("entries"@) {
        Some(value) => match value.as_array() {
            Some(entries) => "📝 **plan**"@ + plan_lines(entries),
            None => "📝 **plan**"@,
        },
        None => "📝 **plan**"@,
    }
}

fn append_plan_line(output: &mut String, entry: &Value)
    ensures
        final(output)@ == old(output)@ + plan_line(json::json_of(*entry)),
{
    let ghost before = output@;
    let content = match json::str_member(entry, "content") {
        Some(raw) => text::trim(raw),
        None => {
            assert(before + Seq::<char>::empty() =~= before);
            return;
        },
    };
    if content.as_str().is_empty() {
        assert(before + Seq::<char>::empty() =~= before);
        return;
    }
    let status = str_or(json::str_member(entry, "status"), "pending");
    let marker = if text::same(status, "completed") {
        "x"
    } else if text::same(status, "in_progress") {
        "~"
    } else {
        " "
    };
    output.append(text::join4("\n[", marker, "] ", content.as_str()).as_str());
}

/// Formats a plan update as a compact checklist.
pub fn render_plan(state: &Value) -> (output: String)
    ensures
        output@ == plan_text(json::json_of(*state)),
{
    let mut output = text::copy("📝 **plan**");
    let entries = match json::get(state, "entries") {
        Some(value) => match json::as_array(value) {
            Some(entries) => entries,
            None => {
                return output;
            },
        },
        None => {
            return output;
        },
    };
    let ghost all = json::jsons(entries@);
    let ghost start = output@;
    let mut i: usize = 0;
    assert(all.take(0) =~= Seq::<JsonView>::empty());
    assert(start + Seq::<char>::empty() =~= start);
    while i < entries.len()
        invariant
            i <= entries@.len(),
            all == json::jsons(entries@),
            output@ == start + plan_lines(all.take(i as int)),
        decreases entries@.len() - i,
    {
        append_plan_line(&mut output, &entries[i]);
        proof {
            assert(all[i as int] == json::json_of(entries@[i as int]));
            assert(all.take(i + 1).drop_last() =~= all.take(i as int));
            assert(start + plan_lines(all.take(i as int)) + plan_line(all[i as int]) =~= start + (
            plan_lines(all.take(i as int)) + plan_line(all[i as int])));
        }
        i += 1;
    }
    assert(all.take(i as int) =~= all);
    output
}

/// Messages in italics.
pub open spec fn italic(messages: Seq<Seq<char>>) -> Seq<Seq<char>> {
    messages.map_values(|message: Seq<char>| "*"@ + message + "*"@)
}

/// The messages of accumulated agent text, in italics for internal thoughts.
pub open spec fn text_messages(state: JsonView, thought: bool) -> Seq<Seq<char>> {
    let raw = text_or(state.str_at("text"@), Seq::empty());
    let shown = if thought {
        text::trimmed(raw)
    } else {
        raw
    };
    if shown.len() == 0 {
        Seq::empty()
    } else if thought {
        italic(split::split_of(shown, (MESSAGE_LIMIT - 2) as nat))
    } else {
        split::split_of(shown, MESSAGE_LIMIT as nat)
    }
}

/// The text of a decoded text state leaves room for its code fences.
pub open spec fn text_leaves_room(state: JsonView, thought: bool) -> bool {
    let raw = text_or(state.str_at("text"@), Seq::empty());
    if thought {
        split::fences_leave_room(text::trimmed(raw), (MESSAGE_LIMIT - 2) as nat)
    } else {
        split::fences_leave_room(raw, MESSAGE_LIMIT as nat)
    }
}

/// Every message fits Discord's limit.
pub open spec fn all_deliverable(messages: Seq<Seq<char>>) -> bool {
    forall|i: int| 0 <= i < messages.len() ==> (#[trigger] messages[i]).len() <= MESSAGE_LIMIT
}

proof fn lemma_deliverable(messages: Seq<String>)
    requires
        forall|i: int| 0 <= i < messages.len() ==> (#[trigger] messages[i])@.len() <= MESSAGE_LIMIT,
    ensures
        all_deliverable(text::texts(messages)),
{
    assert forall|i: int| 0 <= i < messages.len() implies (#[trigger] text::texts(
        messages,
    )[i]).len() <= MESSAGE_LIMIT by {
        assert(messages[i]@.len() <= MESSAGE_LIMIT);
    }
}

/// The messages are the parts, each between stars.
pub open spec fn are_starred(messages: Seq<Seq<char>>, parts: Seq<Seq<char>>) -> bool {
    messages.len() == parts.len() && forall|i: int|
        0 <= i < parts.len() ==> #[trigger] messages[i] == seq!['*'] + parts[i] + seq!['*']
}

/// The messages show a text: as it is, or, where it is a thought, in italics and
/// without the space around it. There are none exactly where nothing is to be shown.
pub open spec fn show_text(messages: Seq<Seq<char>>, value: Seq<char>, thought: bool) -> bool {
    if thought {
        &&& messages.len() == 0 <==> text::trimmed(value).len() == 0
        &&& text::trimmed(value).len() > 0 ==> exists|parts: Seq<Seq<char>>|
            #![trigger split::presents(parts, text::trimmed(value))]
            split::presents(parts, text::trimmed(value)) && are_starred(messages, parts)
    } else {
        &&& messages.len() == 0 <==> value.len() == 0
        &&& value.len() > 0 ==> split::presents(messages, value)
    }
}

/// Renders accumulated agent text, optionally wrapped as an internal thought.
pub fn render_text(value: &Value, thought: bool) -> (messages: Vec<String>)
    ensures
        text::texts(messages@) == text_messages(json::json_of(*value), thought),
        text_leaves_room(json::json_of(*value), thought) ==> all_deliverable(
            text::texts(messages@),
        ),
        show_text(
            text::texts(messages@),
            match json::json_of(*value).str_at("text"@) {
                Some(shown) => shown,
                None => Seq::empty(),
            },
            thought,
        ),
{
    let empty = String::new();
    let raw = str_or(json::str_member(value, "text"), empty.as_str());
    if !thought {
        if raw.is_empty() {
            let none: Vec<String> = Vec::new();
            assert(text::texts(none@) =~= Seq::<Seq<char>>::empty());
            return none;
        }
        let messages = split::split_message(raw, MESSAGE_LIMIT);
        proof {
            if text_leaves_room(json::json_of(*value), thought) {
                lemma_deliverable(messages@);
            }
            assert(text::texts(messages@).len() == messages@.len());
        }
        return messages;
    }
    let shown = text::trim(raw);
    let mut messages: Vec<String> = Vec::new();
    if shown.as_str().is_empty() {
        assert(text::texts(messages@) =~= Seq::<Seq<char>>::empty());
        return messages;
    }
    let chunks = split::split_message(shown.as_str(), MESSAGE_LIMIT - 2);
    let ghost all = italic(text::texts(chunks@));
    let mut i: usize = 0;
    assert(all.take(0) =~= Seq::<Seq<char>>::empty());
    while i < chunks.len()
        invariant
            i <= chunks@.len(),
            all == italic(text::texts(chunks@)),
            text::texts(messages@) == all.take(i as int),
            messages@.len() == i,
            split::fences_leave_room(shown@, (MESSAGE_LIMIT - 2) as nat) ==> (forall|j: int|
                0 <= j < chunks@.len() ==> (#[trigger] chunks@[j])@.len() <= MESSAGE_LIMIT - 2),
            split::fences_leave_room(shown@, (MESSAGE_LIMIT - 2) as nat) ==> (forall|j: int|
                0 <= j < messages@.len() ==> (#[trigger] messages@[j])@.len() <= MESSAGE_LIMIT),
        decreases chunks@.len() - i,
    {
        let ghost before = text::texts(messages@);
        let message = text::join3("*", chunks[i].as_str(), "*");
        messages.push(message);
        proof {
            reveal_strlit("*");
            assert(text::texts(messages@) =~= before.push(message@));
            assert(all.take(i + 1) =~= all.take(i as int).push(all[i as int]));
        }
        i += 1;
    }
    assert(all.take(i as int) =~= all);
    proof {
        if text_leaves_room(json::json_of(*value), thought) {
            lemma_deliverable(messages@);
        }
        reveal_strlit("*");
        assert("*"@ =~= seq!['*']);
        let parts = text::texts(chunks@);
        assert(split::presents(parts, shown@));
        assert forall|j: int| 0 <= j < parts.len() implies #[trigger] text::texts(messages@)[j]
            == seq!['*'] + parts[j] + seq!['*'] by {
            assert(all[j] == "*"@ + parts[j] + "*"@);
        }
        assert(are_starred(text::texts(messages@), parts));
        assert(parts.len() > 0);
    }
    messages
}

/// The messages of a decoded projection state.
pub open spec fn state_messages(kind: Seq<char>, state: JsonView) -> Seq<Seq<char>> {
    if kind == "user_message"@ || kind == "agent_message"@ {
        text_messages(state, false)
    } else if kind == "agent_thought"@ {
        text_messages(state, true)
    } else if kind == "tool_call"@ {
        split::split_of(tool_text(state), MESSAGE_LIMIT as nat)
    } else if kind == "plan"@ {
        split::split_of(plan_text(state), MESSAGE_LIMIT as nat)
    } else {
        Seq::empty()
    }
}

/// The text of a decoded projection state leaves room for its code fences.
pub open spec fn state_leaves_room(kind: Seq<char>, state: JsonView) -> bool {
    if kind == "user_message"@ || kind == "agent_message"@ {
        text_leaves_room(state, false)
    } else if kind == "agent_thought"@ {
        text_leaves_room(state, true)
    } else if kind == "tool_call"@ {
        split::fences_leave_room(tool_text(state), MESSAGE_LIMIT as nat)
    } else if kind == "plan"@ {
        split::fences_leave_room(plan_text(state), MESSAGE_LIMIT as nat)
    } else {
        true
    }
}

/// The messages show a decoded projection state: a message or a thought its text, a
/// tool call and a plan what is told of them, and anything else nothing.
pub open spec fn show_state(messages: Seq<Seq<char>>, kind: Seq<char>, state: JsonView) -> bool {
    let told = match state.str_at("text"@) {
        Some(shown) => shown,
        None => Seq::empty(),
    };
    &&& kind == "user_message"@ || kind == "agent_message"@ ==> show_text(messages, told, false)
    &&& kind == "agent_thought"@ ==> show_text(messages, told, true)
    &&& kind == "tool_call"@ ==> split::presents(messages, tool_text(state))
    &&& kind == "plan"@ ==> split::presents(messages, plan_text(state))
    &&& kind != "user_message"@ && kind != "agent_message"@ && kind != "agent_thought"@ && kind
        != "tool_call"@ && kind != "plan"@ ==> messages.len() == 0
}

proof fn lemma_kinds_differ()
    ensures
        "user_message"@ != "agent_message"@,
        "user_message"@ != "agent_thought"@,
        "agent_message"@ != "agent_thought"@,
        "tool_call"@ != "user_message"@,
        "tool_call"@ != "agent_message"@,
        "tool_call"@ != "agent_thought"@,
        "plan"@ != "user_message"@,
        "plan"@ != "agent_message"@,
        "plan"@ != "agent_thought"@,
        "plan"@ != "tool_call"@,
{
    reveal_strlit("user_message");
    reveal_strlit("agent_message");
    reveal_strlit("agent_thought");
    reveal_strlit("tool_call");
    reveal_strlit("plan");
    assert("agent_message"@[6] == 'm' && "agent_thought"@[6] == 't');
    assert("user_message"@.len() == 12 && "agent_message"@.len() == 13 && "tool_call"@.len() == 9
        && "plan"@.len() == 4);
}

/// Renders a decoded projection state of a kind. No message exceeds Discord's
/// limit unless a code fence alone does.
pub fn render_state(kind: &str, value: &Value) -> (messages: Vec<String>)
    ensures
        text::texts(messages@) == state_messages(kind@, json::json_of(*value)),
        state_leaves_room(kind@, json::json_of(*value)) ==> all_deliverable(
            text::texts(messages@),
        ),
        show_state(text::texts(messages@), kind@, json::json_of(*value)),
{
    proof {
        lemma_kinds_differ();
    }
    if text::same(kind, "user_message") || text::same(kind, "agent_message") {
        render_text(value, false)
    } else if text::same(kind, "agent_thought") {
        render_text(value, true)
    } else if text::same(kind, "tool_call") {
        let messages = split::split_message(render_tool_text(value).as_str(), MESSAGE_LIMIT);
        proof {
            if state_leaves_room(kind@, json::json_of(*value)) {
                lemma_deliverable(messages@);
            }
        }
        messages
    } else if text::same(kind, "plan") {
        let messages = split::split_message(render_plan(value).as_str(), MESSAGE_LIMIT);
        proof {
            if state_leaves_room(kind@, json::json_of(*value)) {
                lemma_deliverable(messages@);
            }
        }
        messages
    } else {
        let none: Vec<String> = Vec::new();
        assert(text::texts(none@) =~= Seq::<Seq<char>>::empty());
        none
    }
}

/// The messages of a projection, `None` where its state is no JSON.
pub open spec fn projection_messages(projection: ProjectionView) -> Option<Seq<Seq<char>>> {
    match json::parsed_json(projection.state_json) {
        Some(state) => Some(state_messages(projection.source_kind, state)),
        None => None,
    }
}

/// Turns persisted renderer state into bounded Discord message chunks.
pub fn render_projection(projection: &RenderProjection) -> (result: BotResult<Vec<String>>)
    ensures
        match result {
            Ok(messages) => projection_messages(projection@) == Some(text::texts(messages@)) && (
            json::parsed_json(projection@.state_json) matches Some(state) && show_state(
                text::texts(messages@),
                projection@.source_kind,
                state,
            )),
            Err(error) => projection_messages(projection@) is None && (error matches BotError::ProjectionDeserialize {
                context,
                ..
            } && context@ == "source state"@),
        },
{
    match json::parse(projection.state_json.as_str()) {
        Ok(value) => Ok(render_state(projection.source_kind.as_str(), &value)),
        Err(source) => Err(BotError::ProjectionDeserialize { context: "source state", source }),
    }
}

/// Renders each changed projection into Discord-sized message chunks.
pub fn render_projections(projections: Vec<RenderProjection>) -> (result: BotResult<
    Vec<(RenderProjection, Vec<String>)>,
>)
    ensures
        match result {
            Ok(targets) => targets@.len() == projections@.len() && forall|i: int|
                0 <= i < targets@.len() ==> (#[trigger] targets@[i]).0@ == projections@[i]@
                    && projection_messages(projections@[i]@) == Some(text::texts(targets@[i].1@)),
            Err(error) => (error matches BotError::ProjectionDeserialize { context, .. }
                && context@ == "source state"@) && exists|i: int|
                0 <= i < projections@.len() && projection_messages(
                    (#[trigger] projections@[i])@,
                ) is None,
        },
{
    let mut targets: Vec<(RenderProjection, Vec<String>)> = Vec::new();
    let mut i: usize = 0;
    while i < projections.len()
        invariant
            i <= projections@.len(),
            targets@.len() == i,
            forall|j: int|
                0 <= j < i ==> (#[trigger] targets@[j]).0@ == projections@[j]@
                    && projection_messages(projections@[j]@) == Some(text::texts(targets@[j].1@)),
        decreases projections@.len() - i,
    {
        match render_projection(&projections[i]) {
            Ok(messages) => {
                targets.push((projections[i].copy(), messages));
            },
            Err(error) => {
                assert(projection_messages(projections@[i as int]@) is None);
                return Err(error);
            },
        }
        i += 1;
    }
    Ok(targets)
}

} // verus!
