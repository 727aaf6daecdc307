//! Splitting text into Discord-sized messages.
//!
//! Text is cut by the Markdown-aware splitter of `text_splitter`. A fenced code
//! block is kept separate from the text around it: only its body is cut, and
//! every message that holds a part of it repeats its fences.

use vstd::prelude::*;

use crate::text;
use text_splitter::{ChunkConfig, MarkdownSplitter, TextSplitter};

verus! {

/// The chunks that `MarkdownSplitter` cuts a text into at a capacity.
pub uninterp spec fn markdown_split(value: Seq<char>, limit: nat) -> Seq<Seq<char>>;

/// The chunks that `TextSplitter` cuts a text into at a capacity.
pub uninterp spec fn text_split(value: Seq<char>, limit: nat) -> Seq<Seq<char>>;

/// `text_splitter::MarkdownSplitter::chunks` with the character sizer, no
/// overlap and no trimming: consecutive non-empty pieces of the text, in order
/// and with nothing left out, each of at most `limit` characters. A text that
/// fits is one piece.
#[verifier::external_body]
pub(crate) fn markdown_chunks(value: &str, limit: usize) -> (chunks: Vec<String>)
    requires
        limit > 0,
    ensures
        text::texts(chunks@) == markdown_split(value@, limit as nat),
        text::joined(text::texts(chunks@)) == value@,
        forall|i: int| 0 <= i < chunks@.len() ==> 0 < (#[trigger] chunks@[i])@.len() <= limit,
        0 < value@.len() <= limit ==> text::texts(chunks@) == seq![value@],
{
    MarkdownSplitter::new(ChunkConfig::new(limit).with_trim(false))
        .chunks(value)
        .map(str::to_owned)
        .collect()
}

/// `text_splitter::TextSplitter::chunks` with the character sizer, no overlap
/// and no trimming: consecutive non-empty pieces of the text, in order and with
/// nothing left out, each of at most `limit` characters. A text that fits is one
/// piece.
#[verifier::external_body]
pub(crate) fn text_chunks(value: &str, limit: usize) -> (chunks: Vec<String>)
    requires
        limit > 0,
    ensures
        text::texts(chunks@) == text_split(value@, limit as nat),
        text::joined(text::texts(chunks@)) == value@,
        forall|i: int| 0 <= i < chunks@.len() ==> 0 < (#[trigger] chunks@[i])@.len() <= limit,
        0 < value@.len() <= limit ==> text::texts(chunks@) == seq![value@],
{
    TextSplitter::new(ChunkConfig::new(limit).with_trim(false))
        .chunks(value)
        .map(str::to_owned)
        .collect()
}

/// A line without its trailing line-ending characters.
pub open spec fn without_line_ending(line: Seq<char>) -> Seq<char>
    decreases line.len(),
{
    if line.len() > 0 && (line.last() == '\r' || line.last() == '\n') {
        without_line_ending(line.drop_last())
    } else {
        line
    }
}

/// A line without its leading spaces and tabs.
pub open spec fn without_indent(line: Seq<char>) -> Seq<char>
    decreases line.len(),
{
    if line.len() > 0 && (line[0] == ' ' || line[0] == '\t') {
        without_indent(line.drop_first())
    } else {
        line
    }
}

/// How often `c` is repeated at the start of a text.
pub open spec fn run_length(s: Seq<char>, c: char) -> nat
    decreases s.len(),
{
    if s.len() > 0 && s[0] == c {
        1 + run_length(s.drop_first(), c)
    } else {
        0
    }
}

/// The fence that a line carries: its character, its length, and whether the
/// line can close a block.
pub open spec fn fence_of(line: Seq<char>) -> Option<(char, nat, bool)> {
    let bare = without_indent(without_line_ending(line));
    if bare.len() == 0 || (bare[0] != '`' && bare[0] != '~') {
        None
    } else {
        let length = run_length(bare, bare[0]);
        if length >= 3 {
            Some((bare[0], length, text::is_blank(bare.skip(length as int))))
        } else {
            None
        }
    }
}

proof fn lemma_ending_step(s: Seq<char>, to: int)
    requires
        0 < to <= s.len(),
        s[to - 1] == '\r' || s[to - 1] == '\n',
    ensures
        without_line_ending(s.take(to)) == without_line_ending(s.take(to - 1)),
{
    assert(s.take(to).drop_last() =~= s.take(to - 1));
}

proof fn lemma_indent_step(s: Seq<char>, from: int, to: int)
    requires
        0 <= from < to <= s.len(),
        s[from] == ' ' || s[from] == '\t',
    ensures
        without_indent(s.subrange(from, to)) == without_indent(s.subrange(from + 1, to)),
{
    assert(s.subrange(from, to).drop_first() =~= s.subrange(from + 1, to));
}

proof fn lemma_run_length(s: Seq<char>, c: char, n: int)
    requires
        0 <= n <= s.len(),
        forall|i: int| 0 <= i < n ==> s[i] == c,
        n < s.len() ==> s[n] != c,
    ensures
        run_length(s, c) == n,
    decreases n,
{
    if n > 0 {
        lemma_run_length(s.drop_first(), c, n - 1);
    }
}

/// Returns a Markdown fence marker, including whether it can close a block.
pub fn fence_marker(line: &str) -> (marker: Option<(char, usize, bool)>)
    ensures
        match marker {
            Some((c, length, closes)) => fence_of(line@) == Some((c, length as nat, closes)),
            None => fence_of(line@) is None,
        },
{
    let chars = text::chars_of(line);
    let mut to: usize = chars.len();
    assert(chars@.take(to as int) =~= line@);
    while to > 0 && (chars[to - 1] == '\r' || chars[to - 1] == '\n')
        invariant
            to <= chars@.len(),
            without_line_ending(chars@.take(to as int)) == without_line_ending(line@),
        decreases to,
    {
        proof {
            lemma_ending_step(chars@, to as int);
        }
        to -= 1;
    }
    let mut from: usize = 0;
    assert(chars@.subrange(0, to as int) =~= chars@.take(to as int));
    while from < to && (chars[from] == ' ' || chars[from] == '\t')
        invariant
            from <= to <= chars@.len(),
            without_indent(chars@.subrange(from as int, to as int)) == without_indent(
                without_line_ending(line@),
            ),
        decreases to - from,
    {
        proof {
            lemma_indent_step(chars@, from as int, to as int);
        }
        from += 1;
    }
    let ghost bare = chars@.subrange(from as int, to as int);
    assert(bare == without_indent(without_line_ending(line@)));
    if from == to {
        return None;
    }
    let marker: char = chars[from];
    if marker != '`' && marker != '~' {
        return None;
    }
    let mut at: usize = from;
    while at < to && chars[at] == marker
        invariant
            from <= at <= to <= chars@.len(),
            bare == chars@.subrange(from as int, to as int),
            forall|i: int| 0 <= i < at - from ==> bare[i] == marker,
        decreases to - at,
    {
        at += 1;
    }
    let length: usize = at - from;
    proof {
        lemma_run_length(bare, marker, length as int);
        assert(bare.skip(length as int) =~= chars@.subrange(at as int, to as int));
    }
    if length >= 3 {
        let rest = text::string_of(&chars, at, to);
        Some((marker, length, text::blank(rest.as_str())))
    } else {
        None
    }
}

/// One top-level region of a message, with fenced code kept separate from
/// surrounding Markdown.
pub enum MessagePart {
    /// Ordinary Markdown or text.
    Text(String),
    /// A complete fenced code block and its original delimiters.
    Code {
        /// Opening fence, including its language and line ending.
        opening: String,
        /// Code between the delimiters.
        body: String,
        /// Closing fence.
        closing: String,
    },
}

/// The content of a message part.
pub ghost enum PartView {
    Text(Seq<char>),
    Code { opening: Seq<char>, body: Seq<char>, closing: Seq<char> },
}

impl View for MessagePart {
    type V = PartView;

    open spec fn view(&self) -> PartView {
        match self {
            MessagePart::Text(value) => PartView::Text(value@),
            MessagePart::Code { opening, body, closing } => PartView::Code {
                opening: opening@,
                body: body@,
                closing: closing@,
            },
        }
    }
}

/// The contents of a list of message parts.
pub open spec fn part_views(parts: Seq<MessagePart>) -> Seq<PartView> {
    parts.map_values(|part: MessagePart| part@)
}

/// The original text of a part.
pub open spec fn part_text(part: PartView) -> Seq<char> {
    match part {
        PartView::Text(value) => value,
        PartView::Code { opening, body, closing } => opening + body + closing,
    }
}

/// The original text of a list of parts.
pub open spec fn parts_text(parts: Seq<PartView>) -> Seq<char> {
    text::joined(parts.map_values(|part: PartView| part_text(part)))
}

/// The position after the line that starts at `from`.
pub open spec fn line_end(s: Seq<char>, from: int) -> int {
    let at = text::first_at(s, '\n', from);
    if at < s.len() {
        at + 1
    } else {
        s.len() as int
    }
}

/// The line that starts at `from`, with its line ending.
pub open spec fn line_at(s: Seq<char>, from: int) -> Seq<char> {
    s.subrange(from, line_end(s, from))
}

/// Whether a line closes a block that a fence of this character and length
/// opened.
pub open spec fn closes(line: Seq<char>, marker: char, length: nat) -> bool {
    match fence_of(line) {
        Some((c, n, closing)) => closing && c == marker && n >= length,
        None => false,
    }
}

/// The start of the first line at or after `from` that closes the block, or the
/// length of the text.
pub open spec fn closing_line(s: Seq<char>, from: int, marker: char, length: nat) -> int
    decreases s.len() - from,
{
    if from < 0 || from >= s.len() {
        s.len() as int
    } else if closes(line_at(s, from), marker, length) {
        from
    } else {
        proof {
            text::lemma_first_at(s, '\n', from);
        }
        closing_line(s, line_end(s, from), marker, length)
    }
}

/// The parts of a text from the line at `line` on, where the text since
/// `start` belongs to no part yet.
pub open spec fn parts_from(s: Seq<char>, start: int, line: int) -> Seq<PartView>
    decreases s.len() - line,
{
    if line < 0 || line >= s.len() {
        if 0 <= start < s.len() {
            seq![PartView::Text(s.skip(start))]
        } else {
            Seq::empty()
        }
    } else {
        proof {
            text::lemma_first_at(s, '\n', line);
        }
        let next = line_end(s, line);
        match fence_of(line_at(s, line)) {
            None => parts_from(s, start, next),
            Some((marker, length, _)) => {
                let closing = closing_line(s, next, marker, length);
                if closing >= s.len() {
                    parts_from(s, start, next)
                } else {
                    proof {
                        lemma_closing_line(s, next, marker, length);
                        text::lemma_first_at(s, '\n', closing);
                    }
                    let end = line_end(s, closing);
                    let code = PartView::Code {
                        opening: line_at(s, line),
                        body: s.subrange(next, closing),
                        closing: line_at(s, closing),
                    };
                    let head = if start < line {
                        seq![PartView::Text(s.subrange(start, line)), code]
                    } else {
                        seq![code]
                    };
                    head + parts_from(s, end, end)
                }
            },
        }
    }
}

/// A closing line is found at or after the position the search starts from.
pub proof fn lemma_closing_line(s: Seq<char>, from: int, marker: char, length: nat)
    requires
        0 <= from <= s.len(),
    ensures
        from <= closing_line(s, from, marker, length) <= s.len(),
    decreases s.len() - from,
{
    if from < s.len() && !closes(line_at(s, from), marker, length) {
        text::lemma_first_at(s, '\n', from);
        lemma_closing_line(s, line_end(s, from), marker, length);
    }
}

/// The parts that a text consists of.
pub open spec fn parts_of(s: Seq<char>) -> Seq<PartView> {
    parts_from(s, 0, 0)
}

proof fn lemma_line_end(s: Seq<char>, from: int)
    requires
        0 <= from < s.len(),
    ensures
        from < line_end(s, from) <= s.len(),
{
    text::lemma_first_at(s, '\n', from);
}

proof fn lemma_parts_text_add(left: Seq<PartView>, right: Seq<PartView>)
    ensures
        parts_text(left + right) == parts_text(left) + parts_text(right),
{
    let f = |part: PartView| part_text(part);
    assert((left + right).map_values(f) =~= left.map_values(f) + right.map_values(f));
    text::lemma_joined_add(left.map_values(f), right.map_values(f));
}

proof fn lemma_parts_text_one(part: PartView)
    ensures
        parts_text(seq![part]) == part_text(part),
{
    let f = |part: PartView| part_text(part);
    assert(seq![part].map_values(f) =~= Seq::<Seq<char>>::empty().push(part_text(part)));
    text::lemma_joined_push(Seq::empty(), part_text(part));
    assert(Seq::<char>::empty() + part_text(part) =~= part_text(part));
}

proof fn lemma_parts_from_text(s: Seq<char>, start: int, line: int)
    requires
        0 <= start <= line <= s.len(),
    ensures
        parts_text(parts_from(s, start, line)) == s.skip(start),
    decreases s.len() - line,
{
    if line >= s.len() {
        if start < s.len() {
            lemma_parts_text_one(PartView::Text(s.skip(start)));
        } else {
            assert(s.skip(start) =~= Seq::<char>::empty());
            assert(Seq::<PartView>::empty().map_values(|part: PartView| part_text(part)) =~= Seq::<
                Seq<char>,
            >::empty());
        }
    } else {
        lemma_line_end(s, line);
        let next = line_end(s, line);
        match fence_of(line_at(s, line)) {
            None => {
                lemma_parts_from_text(s, start, next);
            },
            Some((marker, length, _)) => {
                let closing = closing_line(s, next, marker, length);
                lemma_closing_line(s, next, marker, length);
                if closing >= s.len() {
                    lemma_parts_from_text(s, start, next);
                } else {
                    lemma_line_end(s, closing);
                    let end = line_end(s, closing);
                    let code = PartView::Code {
                        opening: line_at(s, line),
                        body: s.subrange(next, closing),
                        closing: line_at(s, closing),
                    };
                    lemma_parts_from_text(s, end, end);
                    lemma_parts_text_one(code);
                    assert(part_text(code) =~= s.subrange(line, end));
                    let tail = parts_from(s, end, end);
                    if start < line {
                        let before = PartView::Text(s.subrange(start, line));
                        lemma_parts_text_one(before);
                        assert(seq![before, code] =~= seq![before] + seq![code]);
                        lemma_parts_text_add(seq![before], seq![code]);
                        lemma_parts_text_add(seq![before, code], tail);
                        assert(s.subrange(start, line) + s.subrange(line, end) + s.skip(end)
                            =~= s.skip(start));
                    } else {
                        lemma_parts_text_add(seq![code], tail);
                        assert(s.subrange(line, end) + s.skip(end) =~= s.skip(start));
                    }
                }
            },
        }
    }
}

/// The parts of a text, one after the other, are the text.
pub proof fn parts_preserve_the_text(s: Seq<char>)
    ensures
        parts_text(parts_of(s)) == s,
{
    lemma_parts_from_text(s, 0, 0);
    assert(s.skip(0) =~= s);
}

fn find_line_end(chars: &Vec<char>, from: usize) -> (end: usize)
    requires
        from < chars@.len(),
    ensures
        end == line_end(chars@, from as int),
        from < end <= chars@.len(),
{
    let at = text::find_char(chars, '\n', from);
    if at < chars.len() {
        at + 1
    } else {
        chars.len()
    }
}

fn find_closing_line(chars: &Vec<char>, from: usize, marker: char, length: usize) -> (start: usize)
    requires
        from <= chars@.len(),
    ensures
        start == closing_line(chars@, from as int, marker, length as nat),
        from <= start <= chars@.len(),
{
    let mut start: usize = from;
    while start < chars.len()
        invariant
            from <= start <= chars@.len(),
            closing_line(chars@, from as int, marker, length as nat) == closing_line(
                chars@,
                start as int,
                marker,
                length as nat,
            ),
        decreases chars@.len() - start,
    {
        let end = find_line_end(chars, start);
        let line = text::string_of(chars, start, end);
        if let Some((c, n, closing)) = fence_marker(line.as_str()) {
            if closing && c == marker && n >= length {
                return start;
            }
        }
        start = end;
    }
    start
}

/// Finds complete fenced code blocks without changing their original text.
pub fn message_parts(value: &str) -> (parts: Vec<MessagePart>)
    ensures
        part_views(parts@) == parts_of(value@),
        parts_text(part_views(parts@)) == value@,
{
    let chars = text::chars_of(value);
    let mut parts: Vec<MessagePart> = Vec::new();
    let mut start: usize = 0;
    let mut line: usize = 0;
    assert(part_views(parts@) + parts_of(value@) =~= parts_of(value@));
    while line < chars.len()
        invariant
            chars@ == value@,
            start <= line <= chars@.len(),
            part_views(parts@) + parts_from(value@, start as int, line as int) == parts_of(value@),
        decreases chars@.len() - line,
    {
        let next = find_line_end(&chars, line);
        let opening = text::string_of(&chars, line, next);
        match fence_marker(opening.as_str()) {
            None => {
                line = next;
            },
            Some((marker, length, _)) => {
                let closing = find_closing_line(&chars, next, marker, length);
                if closing == chars.len() {
                    line = next;
                } else {
                    let end = find_line_end(&chars, closing);
                    let ghost before = part_views(parts@);
                    let ghost tail = parts_from(value@, end as int, end as int);
                    if start < line {
                        parts.push(MessagePart::Text(text::string_of(&chars, start, line)));
                    }
                    let code = MessagePart::Code {
                        opening,
                        body: text::string_of(&chars, next, closing),
                        closing: text::string_of(&chars, closing, end),
                    };
                    parts.push(code);
                    proof {
                        if start < line {
                            let head = PartView::Text(value@.subrange(start as int, line as int));
                            assert(part_views(parts@) =~= before + seq![head, code@]);
                            assert(before + (seq![head, code@] + tail) =~= before + seq![
                                head,
                                code@,
                            ] + tail);
                        } else {
                            assert(part_views(parts@) =~= before + seq![code@]);
                            assert(before + (seq![code@] + tail) =~= before + seq![code@] + tail);
                        }
                    }
                    start = end;
                    line = end;
                }
            },
        }
    }
    if start < chars.len() {
        let ghost before = part_views(parts@);
        parts.push(MessagePart::Text(text::string_of(&chars, start, chars.len())));
        assert(value@.subrange(start as int, value@.len() as int) =~= value@.skip(start as int));
        assert(part_views(parts@) =~= before + seq![PartView::Text(value@.skip(start as int))]);
    } else {
        assert(part_views(parts@) + Seq::<PartView>::empty() =~= part_views(parts@));
    }
    proof {
        parts_preserve_the_text(value@);
    }
    parts
}

/// Whether a code body ends its last line.
pub open spec fn ends_line(body: Seq<char>) -> bool {
    body.len() > 0 && (body.last() == '\r' || body.last() == '\n')
}

/// One complete fenced code block around a body.
pub open spec fn fenced(opening: Seq<char>, body: Seq<char>, closing: Seq<char>) -> Seq<char> {
    if ends_line(body) {
        opening + body + closing
    } else {
        opening + body + seq!['\n'] + closing
    }
}

/// Reconstructs one complete fenced code block from one body chunk.
pub fn fenced_chunk(opening: &str, body: &str, closing: &str) -> (block: String)
    ensures
        block@ == fenced(opening@, body@, closing@),
{
    let length = body.unicode_len();
    let ended = if length > 0 {
        let c = body.get_char(length - 1);
        c == '\r' || c == '\n'
    } else {
        false
    };
    let mut block = text::join2(opening, body);
    if !ended {
        block.push('\n');
    }
    let result = block.concat(closing);
    assert(!ended ==> result@ =~= fenced(opening@, body@, closing@));
    result
}

/// Checks a concatenation using Unicode character counts.
pub fn fits(current: &str, addition: &str, limit: usize) -> (result: bool)
    ensures
        result == (current@.len() + addition@.len() <= limit),
{
    let used = current.unicode_len();
    used <= limit && addition.unicode_len() <= limit - used
}

/// The characters that fences around a body leave of a limit.
pub open spec fn body_room(opening: Seq<char>, closing: Seq<char>, limit: nat) -> nat {
    if opening.len() + closing.len() <= limit {
        (limit - opening.len() - closing.len()) as nat
    } else {
        0
    }
}

/// The pieces of one body chunk, cut once more where its fenced form does not
/// fit because it needs a line ending of its own.
pub open spec fn refitted(
    chunk: Seq<char>,
    opening: Seq<char>,
    closing: Seq<char>,
    limit: nat,
) -> Seq<Seq<char>> {
    let room = body_room(opening, closing, limit);
    if fenced(opening, chunk, closing).len() <= limit || room <= 1 {
        seq![chunk]
    } else {
        text_split(chunk, (room - 1) as nat)
    }
}

/// The pieces of a list of body chunks, in order.
pub open spec fn refitted_all(
    chunks: Seq<Seq<char>>,
    opening: Seq<char>,
    closing: Seq<char>,
    limit: nat,
) -> Seq<Seq<char>>
    decreases chunks.len(),
{
    if chunks.len() == 0 {
        Seq::empty()
    } else {
        refitted_all(chunks.drop_last(), opening, closing, limit) + refitted(
            chunks.last(),
            opening,
            closing,
            limit,
        )
    }
}

/// The body chunks that a fenced block is cut into.
pub open spec fn code_chunks(
    body: Seq<char>,
    opening: Seq<char>,
    closing: Seq<char>,
    limit: nat,
) -> Seq<Seq<char>> {
    let room = body_room(opening, closing, limit);
    if body.len() == 0 {
        seq![Seq::empty()]
    } else if room == 0 {
        seq![body]
    } else {
        refitted_all(text_split(body, room), opening, closing, limit)
    }
}

/// Fences around every one of a list of body chunks fit a limit.
pub open spec fn all_fit(
    chunks: Seq<Seq<char>>,
    opening: Seq<char>,
    closing: Seq<char>,
    limit: nat,
) -> bool {
    forall|i: int|
        0 <= i < chunks.len() ==> fenced(opening, #[trigger] chunks[i], closing).len() <= limit
}

fn room_for(opening: &str, closing: &str, limit: usize) -> (room: usize)
    ensures
        room == body_room(opening@, closing@, limit as nat),
{
    let first = opening.unicode_len();
    let second = closing.unicode_len();
    if first <= limit && second <= limit - first {
        limit - first - second
    } else {
        0
    }
}

proof fn lemma_refitted_all_push(
    chunks: Seq<Seq<char>>,
    chunk: Seq<char>,
    opening: Seq<char>,
    closing: Seq<char>,
    limit: nat,
)
    ensures
        refitted_all(chunks.push(chunk), opening, closing, limit) == refitted_all(
            chunks,
            opening,
            closing,
            limit,
        ) + refitted(chunk, opening, closing, limit),
{
    assert(chunks.push(chunk).drop_last() =~= chunks);
}

/// Cuts those body chunks once more whose fenced form does not fit.
pub fn refit_chunks(chunks: &Vec<String>, opening: &str, closing: &str, limit: usize) -> (fitted: Vec<
    String,
>)
    requires
        forall|i: int|
            0 <= i < chunks@.len() ==> 0 < (#[trigger] chunks@[i])@.len() <= body_room(
                opening@,
                closing@,
                limit as nat,
            ),
    ensures
        text::texts(fitted@) == refitted_all(
            text::texts(chunks@),
            opening@,
            closing@,
            limit as nat,
        ),
        text::joined(text::texts(fitted@)) == text::joined(text::texts(chunks@)),
        opening@.len() + closing@.len() + 2 <= limit ==> all_fit(
            text::texts(fitted@),
            opening@,
            closing@,
            limit as nat,
        ),
{
    let room = room_for(opening, closing, limit);
    let mut fitted: Vec<String> = Vec::new();
    let mut i: usize = 0;
    assert(text::texts(fitted@) =~= Seq::<Seq<char>>::empty());
    assert(text::texts(chunks@).take(0) =~= Seq::<Seq<char>>::empty());
    while i < chunks.len()
        invariant
            i <= chunks@.len(),
            room == body_room(opening@, closing@, limit as nat),
            forall|j: int|
                0 <= j < chunks@.len() ==> 0 < (#[trigger] chunks@[j])@.len() <= room,
            text::texts(fitted@) == refitted_all(
                text::texts(chunks@).take(i as int),
                opening@,
                closing@,
                limit as nat,
            ),
            text::joined(text::texts(fitted@)) == text::joined(
                text::texts(chunks@).take(i as int),
            ),
            opening@.len() + closing@.len() + 2 <= limit ==> all_fit(
                text::texts(fitted@),
                opening@,
                closing@,
                limit as nat,
            ),
        decreases chunks@.len() - i,
    {
        let chunk = chunks[i].as_str();
        let block = fenced_chunk(opening, chunk, closing);
        let ghost before = text::texts(fitted@);
        let ghost done = text::texts(chunks@).take(i as int);
        proof {
            assert(text::texts(chunks@).take(i + 1) =~= done.push(chunk@));
            lemma_refitted_all_push(done, chunk@, opening@, closing@, limit as nat);
            text::lemma_joined_push(done, chunk@);
        }
        if block.as_str().unicode_len() <= limit || room <= 1 {
            fitted.push(text::copy(chunk));
            proof {
                assert(text::texts(fitted@) =~= before.push(chunk@));
                assert(before + seq![chunk@] =~= before.push(chunk@));
                text::lemma_joined_push(before, chunk@);
            }
        } else {
            let mut pieces = text_chunks(chunk, room - 1);
            let ghost cut = text::texts(pieces@);
            assert forall|j: int| 0 <= j < cut.len() implies fenced(
                opening@,
                #[trigger] cut[j],
                closing@,
            ).len() <= limit by {
                assert(cut[j] == pieces@[j]@);
            }
            fitted.append(&mut pieces);
            proof {
                assert(text::texts(fitted@) =~= before + cut);
                text::lemma_joined_add(before, cut);
            }
        }
        i += 1;
    }
    assert(text::texts(chunks@).take(i as int) =~= text::texts(chunks@));
    fitted
}

/// Splits a code body and ensures every reconstructed fence fits its limit.
pub fn code_body_chunks(body: &str, opening: &str, closing: &str, limit: usize) -> (chunks: Vec<
    String,
>)
    ensures
        text::texts(chunks@) == code_chunks(body@, opening@, closing@, limit as nat),
        text::joined(text::texts(chunks@)) == body@,
        chunks@.len() > 0,
        opening@.len() + closing@.len() + 2 <= limit ==> all_fit(
            text::texts(chunks@),
            opening@,
            closing@,
            limit as nat,
        ),
        fenced(opening@, body@, closing@).len() <= limit ==> text::texts(chunks@) == seq![body@],
{
    let mut chunks: Vec<String> = Vec::new();
    proof {
        text::lemma_joined_push(Seq::empty(), body@);
        assert(Seq::<char>::empty() + body@ =~= body@);
        assert(seq![body@] =~= Seq::<Seq<char>>::empty().push(body@));
    }
    if body.is_empty() {
        chunks.push(String::new());
        assert(body@ =~= Seq::<char>::empty());
        assert(text::texts(chunks@) =~= seq![body@]);
        return chunks;
    }
    let room = room_for(opening, closing, limit);
    if room == 0 {
        chunks.push(text::copy(body));
        assert(text::texts(chunks@) =~= seq![body@]);
        return chunks;
    }
    let first = text_chunks(body, room);
    let fitted = refit_chunks(&first, opening, closing, limit);
    proof {
        if fenced(opening@, body@, closing@).len() <= limit {
            let none = Seq::<Seq<char>>::empty();
            lemma_refitted_all_push(none, body@, opening@, closing@, limit as nat);
            assert(none + seq![body@] =~= seq![body@]);
        }
        if fitted@.len() == 0 {
            assert(text::texts(fitted@).len() == 0);
            assert(false);
        }
    }
    fitted
}

/// Finished messages and the message that is still being filled.
pub ghost struct Packed {
    pub messages: Seq<Seq<char>>,
    pub current: Seq<char>,
}

impl Packed {
    /// Everything that has been packed, in order.
    pub open spec fn content(self) -> Seq<char> {
        text::joined(self.messages) + self.current
    }

    /// Every message fits a limit.
    pub open spec fn bounded(self, limit: nat) -> bool {
        &&& self.current.len() <= limit
        &&& forall|i: int| 0 <= i < self.messages.len() ==> (#[trigger] self.messages[i]).len() <= limit
    }

    /// No finished message is empty.
    pub open spec fn filled(self) -> bool {
        forall|i: int| 0 <= i < self.messages.len() ==> (#[trigger] self.messages[i]).len() > 0
    }

    /// Ends the current message.
    pub open spec fn flush(self) -> Packed {
        Packed { messages: self.messages.push(self.current), current: Seq::empty() }
    }

    /// Extends the current message.
    pub open spec fn extend(self, addition: Seq<char>) -> Packed {
        Packed { messages: self.messages, current: self.current + addition }
    }

    /// Adds one bounded chunk, in the next message where it does not fit.
    pub open spec fn add_chunk(self, chunk: Seq<char>, limit: nat) -> Packed {
        if chunk.len() == 0 {
            self
        } else if self.current.len() + chunk.len() > limit && self.current.len() > 0 {
            self.flush().extend(chunk)
        } else {
            self.extend(chunk)
        }
    }

    /// Adds a list of bounded chunks.
    pub open spec fn add_chunks(self, chunks: Seq<Seq<char>>, limit: nat) -> Packed
        decreases chunks.len(),
    {
        if chunks.len() == 0 {
            self
        } else {
            self.add_chunks(chunks.drop_last(), limit).add_chunk(chunks.last(), limit)
        }
    }

    /// Adds fenced chunks, each in a message of its own.
    pub open spec fn add_blocks(
        self,
        bodies: Seq<Seq<char>>,
        opening: Seq<char>,
        closing: Seq<char>,
    ) -> Packed
        decreases bodies.len(),
    {
        if bodies.len() == 0 {
            self
        } else {
            self.add_blocks(bodies.drop_last(), opening, closing).flush().extend(
                fenced(opening, bodies.last(), closing),
            )
        }
    }

    /// Adds one fenced block: its first chunk joins the current message where it
    /// fits, every other chunk gets a message of its own.
    pub open spec fn add_code(
        self,
        opening: Seq<char>,
        body: Seq<char>,
        closing: Seq<char>,
        limit: nat,
    ) -> Packed {
        let chunks = code_chunks(body, opening, closing, limit);
        let first = chunks[0];
        let rest = chunks.drop_first();
        if self.current.len() > 0 {
            let available = if self.current.len() <= limit {
                (limit - self.current.len()) as nat
            } else {
                0
            };
            let fitting = code_chunks(first, opening, closing, available);
            let block = fenced(opening, fitting[0], closing);
            if self.current.len() + block.len() <= limit {
                let remaining = text::joined(fitting.drop_first()) + text::joined(rest);
                if remaining.len() > 0 {
                    self.extend(block).add_blocks(
                        code_chunks(remaining, opening, closing, limit),
                        opening,
                        closing,
                    )
                } else {
                    self.extend(block)
                }
            } else {
                self.flush().extend(fenced(opening, first, closing)).add_blocks(
                    rest,
                    opening,
                    closing,
                )
            }
        } else {
            self.extend(fenced(opening, first, closing)).add_blocks(rest, opening, closing)
        }
    }

    /// Adds one message part.
    pub open spec fn add_part(self, part: PartView, limit: nat) -> Packed {
        match part {
            PartView::Text(value) => self.add_chunks(markdown_split(value, limit), limit),
            PartView::Code { opening, body, closing } => self.add_code(
                opening,
                body,
                closing,
                limit,
            ),
        }
    }

    /// Adds a list of message parts.
    pub open spec fn add_parts(self, parts: Seq<PartView>, limit: nat) -> Packed
        decreases parts.len(),
    {
        if parts.len() == 0 {
            self
        } else {
            self.add_parts(parts.drop_last(), limit).add_part(parts.last(), limit)
        }
    }

    /// The messages once nothing more is added.
    pub open spec fn finish(self) -> Seq<Seq<char>> {
        let messages = if self.current.len() > 0 {
            self.messages.push(self.current)
        } else {
            self.messages
        };
        if messages.len() == 0 {
            seq![Seq::empty()]
        } else {
            messages
        }
    }
}

/// Nothing packed yet.
pub open spec fn unpacked() -> Packed {
    Packed { messages: Seq::empty(), current: Seq::empty() }
}

/// What two buffers hold.
pub open spec fn packed(current: String, messages: Seq<String>) -> Packed {
    Packed { messages: text::texts(messages), current: current@ }
}

/// The messages that a text is split into at a limit.
pub open spec fn split_of(value: Seq<char>, limit: nat) -> Seq<Seq<char>> {
    if value.len() == 0 || limit == 0 {
        seq![Seq::empty()]
    } else {
        unpacked().add_parts(parts_of(value), limit).finish()
    }
}

/// The fenced forms of a list of body chunks.
pub open spec fn fenced_all(
    bodies: Seq<Seq<char>>,
    opening: Seq<char>,
    closing: Seq<char>,
) -> Seq<Seq<char>> {
    bodies.map_values(|body: Seq<char>| fenced(opening, body, closing))
}

/// `shown` is the fenced block with its body cut into pieces that make up the
/// whole body, each piece inside fences of its own.
pub open spec fn shows_block(
    shown: Seq<char>,
    opening: Seq<char>,
    body: Seq<char>,
    closing: Seq<char>,
) -> bool {
    exists|bodies: Seq<Seq<char>>|
        #![trigger fenced_all(bodies, opening, closing)]
        bodies.len() > 0 && text::joined(bodies) == body && shown == text::joined(
            fenced_all(bodies, opening, closing),
        )
}

/// `shown` presents a part: text as it is, code in fences.
pub open spec fn shows_part(shown: Seq<char>, part: PartView) -> bool {
    match part {
        PartView::Text(value) => shown == value,
        PartView::Code { opening, body, closing } => shows_block(shown, opening, body, closing),
    }
}

/// `shown` presents every part of a list, one text per part.
pub open spec fn shows_parts(shown: Seq<Seq<char>>, parts: Seq<PartView>) -> bool {
    &&& shown.len() == parts.len()
    &&& forall|i: int| 0 <= i < parts.len() ==> shows_part(#[trigger] shown[i], parts[i])
}

proof fn lemma_content_flush(state: Packed)
    ensures
        state.flush().content() == state.content(),
{
    text::lemma_joined_push(state.messages, state.current);
    assert(text::joined(state.messages.push(state.current)) + Seq::<char>::empty()
        =~= text::joined(state.messages) + state.current);
}

proof fn lemma_content_extend(state: Packed, addition: Seq<char>)
    ensures
        state.extend(addition).content() == state.content() + addition,
{
    assert(text::joined(state.messages) + (state.current + addition) =~= text::joined(
        state.messages,
    ) + state.current + addition);
}

/// Appends one already bounded chunk or starts the next message.
pub fn append_chunk(chunk: &str, current: &mut String, messages: &mut Vec<String>, limit: usize)
    ensures
        packed(*final(current), final(messages)@) == packed(*old(current), old(messages)@).add_chunk(
            chunk@,
            limit as nat,
        ),
        packed(*final(current), final(messages)@).content() == packed(
            *old(current),
            old(messages)@,
        ).content() + chunk@,
        packed(*old(current), old(messages)@).bounded(limit as nat) && chunk@.len() <= limit
            ==> packed(*final(current), final(messages)@).bounded(limit as nat),
        packed(*old(current), old(messages)@).filled() ==> packed(
            *final(current),
            final(messages)@,
        ).filled(),
        chunk@.len() > 0 || old(current)@.len() > 0 ==> final(current)@.len() > 0,
{
    let ghost before = packed(*current, messages@);
    proof {
        lemma_content_flush(before);
        lemma_content_extend(before, chunk@);
        lemma_content_extend(before.flush(), chunk@);
    }
    if chunk.is_empty() {
        assert(before.content() + chunk@ =~= before.content());
        return;
    }
    if !fits(current.as_str(), chunk, limit) && !current.as_str().is_empty() {
        let mut full = String::new();
        std::mem::swap(&mut full, current);
        messages.push(full);
        assert(text::texts(messages@) =~= before.messages.push(before.current));
    }
    let ghost flushed = packed(*current, messages@);
    current.append(chunk);
    assert(packed(*current, messages@) == flushed.extend(chunk@));
}

/// Appends chunks that were cut elsewhere to the current message.
pub fn append_chunks(
    chunks: &Vec<String>,
    current: &mut String,
    messages: &mut Vec<String>,
    limit: usize,
)
    ensures
        packed(*final(current), final(messages)@) == packed(
            *old(current),
            old(messages)@,
        ).add_chunks(text::texts(chunks@), limit as nat),
        packed(*final(current), final(messages)@).content() == packed(
            *old(current),
            old(messages)@,
        ).content() + text::joined(text::texts(chunks@)),
        packed(*old(current), old(messages)@).bounded(limit as nat) && (forall|i: int|
            0 <= i < chunks@.len() ==> (#[trigger] chunks@[i])@.len() <= limit) ==> packed(
            *final(current),
            final(messages)@,
        ).bounded(limit as nat),
        packed(*old(current), old(messages)@).filled() ==> packed(
            *final(current),
            final(messages)@,
        ).filled(),
        old(current)@.len() > 0 ==> final(current)@.len() > 0,
{
    let ghost before = packed(*current, messages@);
    let ghost all = text::texts(chunks@);
    let mut i: usize = 0;
    assert(all.take(0) =~= Seq::<Seq<char>>::empty());
    assert(before.content() + text::joined(all.take(0)) =~= before.content());
    while i < chunks.len()
        invariant
            i <= chunks@.len(),
            all == text::texts(chunks@),
            packed(*current, messages@) == before.add_chunks(all.take(i as int), limit as nat),
            packed(*current, messages@).content() == before.content() + text::joined(
                all.take(i as int),
            ),
            before.bounded(limit as nat) && (forall|j: int|
                0 <= j < chunks@.len() ==> (#[trigger] chunks@[j])@.len() <= limit) ==> packed(
                *current,
                messages@,
            ).bounded(limit as nat),
            before.filled() ==> packed(*current, messages@).filled(),
            before.current.len() > 0 ==> current@.len() > 0,
        decreases chunks@.len() - i,
    {
        let ghost done = all.take(i as int);
        append_chunk(chunks[i].as_str(), current, messages, limit);
        proof {
            assert(all.take(i + 1) =~= done.push(all[i as int]));
            assert(done.push(all[i as int]).drop_last() =~= done);
            text::lemma_joined_push(done, all[i as int]);
            assert(before.content() + text::joined(done) + all[i as int] =~= before.content() + (
            text::joined(done) + all[i as int]));
        }
        i += 1;
    }
    assert(all.take(i as int) =~= all);
}

/// Appends Markdown chunks to the current message, preserving logical splits.
pub fn append_text_parts(
    value: &str,
    current: &mut String,
    messages: &mut Vec<String>,
    limit: usize,
)
    requires
        limit > 0,
    ensures
        packed(*final(current), final(messages)@) == packed(*old(current), old(messages)@).add_part(
            PartView::Text(value@),
            limit as nat,
        ),
        packed(*final(current), final(messages)@).content() == packed(
            *old(current),
            old(messages)@,
        ).content() + value@,
        packed(*old(current), old(messages)@).bounded(limit as nat) ==> packed(
            *final(current),
            final(messages)@,
        ).bounded(limit as nat),
        packed(*old(current), old(messages)@).filled() ==> packed(
            *final(current),
            final(messages)@,
        ).filled(),
        old(current)@.len() + value@.len() <= limit && value@.len() > 0 ==> packed(
            *final(current),
            final(messages)@,
        ) == packed(*old(current), old(messages)@).extend(value@),
{
    let ghost before = packed(*current, messages@);
    let chunks = markdown_chunks(value, limit);
    append_chunks(&chunks, current, messages, limit);
    proof {
        if before.current.len() + value@.len() <= limit && value@.len() > 0 {
            let none = Seq::<Seq<char>>::empty();
            assert(seq![value@].drop_last() =~= none);
            assert(before.add_chunks(none, limit as nat) == before);
        }
    }
}

/// Appends remaining fenced chunks, leaving the last one open for later text.
pub fn append_code_remainder(
    chunks: &Vec<String>,
    opening: &str,
    closing: &str,
    current: &mut String,
    messages: &mut Vec<String>,
)
    ensures
        packed(*final(current), final(messages)@) == packed(
            *old(current),
            old(messages)@,
        ).add_blocks(text::texts(chunks@), opening@, closing@),
        packed(*final(current), final(messages)@).content() == packed(
            *old(current),
            old(messages)@,
        ).content() + text::joined(fenced_all(text::texts(chunks@), opening@, closing@)),
        forall|limit: nat|
            packed(*old(current), old(messages)@).bounded(limit) && #[trigger] all_fit(
                text::texts(chunks@),
                opening@,
                closing@,
                limit,
            ) ==> packed(*final(current), final(messages)@).bounded(limit),
        packed(*old(current), old(messages)@).filled() && old(current)@.len() > 0 && opening@.len()
            > 0 ==> packed(*final(current), final(messages)@).filled() && final(current)@.len() > 0,
{
    let ghost before = packed(*current, messages@);
    let ghost all = text::texts(chunks@);
    let ghost blocks = fenced_all(all, opening@, closing@);
    let mut i: usize = 0;
    assert(all.take(0) =~= Seq::<Seq<char>>::empty());
    assert(blocks.take(0) =~= Seq::<Seq<char>>::empty());
    assert(before.content() + text::joined(blocks.take(0)) =~= before.content());
    while i < chunks.len()
        invariant
            i <= chunks@.len(),
            all == text::texts(chunks@),
            blocks == fenced_all(all, opening@, closing@),
            packed(*current, messages@) == before.add_blocks(
                all.take(i as int),
                opening@,
                closing@,
            ),
            packed(*current, messages@).content() == before.content() + text::joined(
                blocks.take(i as int),
            ),
            forall|limit: nat|
                before.bounded(limit) && #[trigger] all_fit(all, opening@, closing@, limit)
                    ==> packed(*current, messages@).bounded(limit),
            before.filled() && before.current.len() > 0 && opening@.len() > 0 ==> packed(
                *current,
                messages@,
            ).filled() && current@.len() > 0,
        decreases chunks@.len() - i,
    {
        let ghost state = packed(*current, messages@);
        let block = fenced_chunk(opening, chunks[i].as_str(), closing);
        let mut full = String::new();
        std::mem::swap(&mut full, current);
        messages.push(full);
        assert(text::texts(messages@) =~= state.messages.push(state.current));
        current.append(block.as_str());
        proof {
            let done = all.take(i as int);
            assert(packed(*current, messages@) == state.flush().extend(block@));
            assert(all.take(i + 1) =~= done.push(all[i as int]));
            assert(done.push(all[i as int]).drop_last() =~= done);
            assert(blocks.take(i + 1) =~= blocks.take(i as int).push(block@));
            text::lemma_joined_push(blocks.take(i as int), block@);
            lemma_content_flush(state);
            lemma_content_extend(state.flush(), block@);
            assert(before.content() + text::joined(blocks.take(i as int)) + block@
                =~= before.content() + (text::joined(blocks.take(i as int)) + block@));
            assert forall|limit: nat|
                before.bounded(limit) && #[trigger] all_fit(
                    all,
                    opening@,
                    closing@,
                    limit,
                ) implies packed(*current, messages@).bounded(limit) by {
                assert(fenced(opening@, all[i as int], closing@).len() <= limit);
            }
        }
        i += 1;
    }
    assert(all.take(i as int) =~= all);
    assert(blocks.take(i as int) =~= blocks);
}

fn rest_of(values: &Vec<String>, from: usize) -> (rest: Vec<String>)
    requires
        from <= values@.len(),
    ensures
        text::texts(rest@) == text::texts(values@).skip(from as int),
{
    let mut rest: Vec<String> = Vec::new();
    let mut i: usize = from;
    while i < values.len()
        invariant
            from <= i <= values@.len(),
            text::texts(rest@) == text::texts(values@).subrange(from as int, i as int),
        decreases values@.len() - i,
    {
        let ghost before = text::texts(rest@);
        rest.push(text::copy(values[i].as_str()));
        assert(text::texts(rest@) =~= before.push(values@[i as int]@));
        assert(text::texts(values@)[i as int] == values@[i as int]@);
        i += 1;
    }
    assert(text::texts(values@).subrange(from as int, i as int) =~= text::texts(values@).skip(
        from as int,
    ));
    rest
}

fn concat_from(values: &Vec<String>, from: usize) -> (value: String)
    requires
        from <= values@.len(),
    ensures
        value@ == text::joined(text::texts(values@).skip(from as int)),
{
    let mut value = String::new();
    let mut i: usize = from;
    let ghost all = text::texts(values@);
    assert(all.subrange(from as int, from as int) =~= Seq::<Seq<char>>::empty());
    while i < values.len()
        invariant
            from <= i <= values@.len(),
            all == text::texts(values@),
            value@ == text::joined(all.subrange(from as int, i as int)),
        decreases values@.len() - i,
    {
        value.append(values[i].as_str());
        proof {
            assert(all.subrange(from as int, i + 1) =~= all.subrange(from as int, i as int).push(
                all[i as int],
            ));
            text::lemma_joined_push(all.subrange(from as int, i as int), all[i as int]);
        }
        i += 1;
    }
    assert(all.subrange(from as int, i as int) =~= all.skip(from as int));
    value
}

proof fn lemma_shows_whole(
    bodies: Seq<Seq<char>>,
    opening: Seq<char>,
    body: Seq<char>,
    closing: Seq<char>,
)
    requires
        bodies.len() > 0,
        text::joined(bodies) == body,
    ensures
        shows_block(
            fenced(opening, bodies[0], closing) + text::joined(
                fenced_all(bodies.drop_first(), opening, closing),
            ),
            opening,
            body,
            closing,
        ),
{
    let blocks = fenced_all(bodies, opening, closing);
    text::lemma_joined_first(blocks);
    assert(blocks.drop_first() =~= fenced_all(bodies.drop_first(), opening, closing));
}

proof fn lemma_whole_block(
    state: Packed,
    opening: Seq<char>,
    body: Seq<char>,
    closing: Seq<char>,
    limit: nat,
)
    requires
        state.current.len() + fenced(opening, body, closing).len() <= limit,
        code_chunks(body, opening, closing, limit) == seq![body],
        state.current.len() > 0 ==> code_chunks(
            body,
            opening,
            closing,
            (limit - state.current.len()) as nat,
        ) == seq![body],
    ensures
        state.add_code(opening, body, closing, limit) == state.extend(
            fenced(opening, body, closing),
        ),
{
    let none = Seq::<Seq<char>>::empty();
    assert(seq![body].drop_first() =~= none);
    assert(text::joined(none) + text::joined(none) =~= Seq::<char>::empty());
    assert(state.extend(fenced(opening, body, closing)).add_blocks(none, opening, closing)
        == state.extend(fenced(opening, body, closing)));
}

/// Appends one fenced block, splitting only its body and repeating its fences.
#[verifier::rlimit(80)]
#[verifier::spinoff_prover]
pub fn append_code_parts(
    opening: &str,
    body: &str,
    closing: &str,
    current: &mut String,
    messages: &mut Vec<String>,
    limit: usize,
)
    ensures
        packed(*final(current), final(messages)@) == packed(*old(current), old(messages)@).add_part(
            (PartView::Code { opening: opening@, body: body@, closing: closing@ }),
            limit as nat,
        ),
        exists|shown: Seq<char>|
            #![trigger shows_block(shown, opening@, body@, closing@)]
            shows_block(shown, opening@, body@, closing@) && packed(
                *final(current),
                final(messages)@,
            ).content() == packed(*old(current), old(messages)@).content() + shown,
        packed(*old(current), old(messages)@).bounded(limit as nat) && opening@.len()
            + closing@.len() + 2 <= limit ==> packed(*final(current), final(messages)@).bounded(
            limit as nat,
        ),
        packed(*old(current), old(messages)@).filled() && opening@.len() > 0 ==> packed(
            *final(current),
            final(messages)@,
        ).filled(),
        old(current)@.len() + fenced(opening@, body@, closing@).len() <= limit ==> packed(
            *final(current),
            final(messages)@,
        ) == packed(*old(current), old(messages)@).extend(fenced(opening@, body@, closing@)),
{
    let ghost before = packed(*current, messages@);
    let chunks = code_body_chunks(body, opening, closing, limit);
    let ghost all = text::texts(chunks@);
    let first = chunks[0].as_str();
    assert(first@ == all[0]);
    assert(all.skip(1) =~= all.drop_first());
    let rest = rest_of(&chunks, 1);
    proof {
        text::lemma_joined_first(all);
        if opening@.len() + closing@.len() + 2 <= limit {
            assert(fenced(opening@, all[0], closing@).len() <= limit);
            assert forall|i: int| 0 <= i < all.drop_first().len() implies fenced(
                opening@,
                #[trigger] all.drop_first()[i],
                closing@,
            ).len() <= limit by {
                assert(all.drop_first()[i] == all[i + 1]);
            }
            assert(all_fit(text::texts(rest@), opening@, closing@, limit as nat));
        }
    }
    if !current.as_str().is_empty() {
        let used = current.as_str().unicode_len();
        let available: usize = if used <= limit {
            limit - used
        } else {
            0
        };
        let fitting = code_body_chunks(first, opening, closing, available);
        proof {
            if before.current.len() + fenced(opening@, body@, closing@).len() <= limit {
                lemma_whole_block(before, opening@, body@, closing@, limit as nat);
            }
        }
        let ghost cut = text::texts(fitting@);
        let block = fenced_chunk(opening, fitting[0].as_str(), closing);
        assert(cut[0] == fitting@[0]@);
        assert(cut.skip(1) =~= cut.drop_first());
        proof {
            text::lemma_joined_first(cut);
        }
        if fits(current.as_str(), block.as_str(), limit) {
            current.append(block.as_str());
            let ghost joined_block = packed(*current, messages@);
            assert(joined_block == before.extend(block@));
            let remaining = concat_from(&fitting, 1).concat(concat_from(&rest, 0).as_str());
            proof {
                assert(text::texts(rest@).skip(0) =~= text::texts(rest@));
                assert(cut[0] + remaining@ =~= body@);
                lemma_content_extend(before, block@);
            }
            if !remaining.as_str().is_empty() {
                let more = code_body_chunks(remaining.as_str(), opening, closing, limit);
                let ghost tail = text::texts(more@);
                append_code_remainder(&more, opening, closing, current, messages);
                proof {
                    let bodies = seq![cut[0]] + tail;
                    assert(bodies.drop_first() =~= tail);
                    text::lemma_joined_first(bodies);
                    lemma_shows_whole(bodies, opening@, body@, closing@);
                    let shown = block@ + text::joined(fenced_all(tail, opening@, closing@));
                    assert(shows_block(shown, opening@, body@, closing@));
                    assert(before.content() + shown =~= before.content() + block@ + text::joined(
                        fenced_all(tail, opening@, closing@),
                    ));
                    assert(joined_block.bounded(limit as nat) <== before.bounded(limit as nat));
                    assert(all_fit(tail, opening@, closing@, limit as nat) <== opening@.len()
                        + closing@.len() + 2 <= limit);
                }
            } else {
                proof {
                    let bodies = seq![cut[0]];
                    text::lemma_joined_one(cut[0]);
                    assert(remaining@ =~= Seq::<char>::empty());
                    assert(cut[0] =~= body@);
                    lemma_shows_whole(bodies, opening@, body@, closing@);
                    assert(fenced_all(bodies.drop_first(), opening@, closing@) =~= Seq::<
                        Seq<char>,
                    >::empty());
                    assert(block@ + Seq::<char>::empty() =~= block@);
                    assert(shows_block(block@, opening@, body@, closing@));
                }
            }
            return;
        }
        let mut full = String::new();
        std::mem::swap(&mut full, current);
        messages.push(full);
        assert(text::texts(messages@) =~= before.messages.push(before.current));
        assert(packed(*current, messages@) == before.flush());
    }
    proof {
        if before.current.len() == 0 && fenced(opening@, body@, closing@).len() <= limit {
            lemma_whole_block(before, opening@, body@, closing@, limit as nat);
        }
    }
    let ghost start = packed(*current, messages@);
    let block = fenced_chunk(opening, first, closing);
    current.append(block.as_str());
    let ghost opened = packed(*current, messages@);
    assert(opened == start.extend(block@));
    append_code_remainder(&rest, opening, closing, current, messages);
    proof {
        lemma_content_flush(before);
        lemma_content_extend(start, block@);
        lemma_shows_whole(all, opening@, body@, closing@);
        let shown = block@ + text::joined(fenced_all(all.drop_first(), opening@, closing@));
        assert(shows_block(shown, opening@, body@, closing@));
        assert(before.content() + shown =~= before.content() + block@ + text::joined(
            fenced_all(all.drop_first(), opening@, closing@),
        ));
    }
}

/// Every fenced block of a text leaves room for at least one character of its
/// body, and for a line ending, inside a limit.
pub open spec fn fences_leave_room(value: Seq<char>, limit: nat) -> bool {
    forall|i: int|
        0 <= i < parts_of(value).len() ==> match #[trigger] parts_of(value)[i] {
            PartView::Text(_) => true,
            PartView::Code { opening, body: _, closing } => opening.len() + closing.len() + 2
                <= limit,
        }
}

/// The messages present a text: put one after the other they hold the text
/// outside fenced blocks unchanged and in order, and each fenced block cut into
/// pieces that make up its whole body, with the fences repeated round each.
pub open spec fn presents(messages: Seq<Seq<char>>, value: Seq<char>) -> bool {
    exists|shown: Seq<Seq<char>>|
        #![trigger shows_parts(shown, parts_of(value))]
        shows_parts(shown, parts_of(value)) && text::joined(messages) == text::joined(shown)
}

proof fn lemma_opening_not_empty(s: Seq<char>, start: int, line: int)
    requires
        0 <= start <= line <= s.len(),
    ensures
        forall|i: int|
            0 <= i < parts_from(s, start, line).len() ==> match #[trigger] parts_from(
                s,
                start,
                line,
            )[i] {
                PartView::Text(value) => value.len() > 0,
                PartView::Code { opening, body: _, closing: _ } => opening.len() > 0,
            },
    decreases s.len() - line,
{
    if line < s.len() {
        lemma_line_end(s, line);
        let next = line_end(s, line);
        match fence_of(line_at(s, line)) {
            None => {
                lemma_opening_not_empty(s, start, next);
            },
            Some((marker, length, _)) => {
                let closing = closing_line(s, next, marker, length);
                lemma_closing_line(s, next, marker, length);
                if closing >= s.len() {
                    lemma_opening_not_empty(s, start, next);
                } else {
                    lemma_line_end(s, closing);
                    let end = line_end(s, closing);
                    lemma_opening_not_empty(s, end, end);
                    let all = parts_from(s, start, line);
                    let tail = parts_from(s, end, end);
                    let shift = all.len() - tail.len();
                    assert forall|i: int| 0 <= i < all.len() implies match #[trigger] all[i] {
                        PartView::Text(value) => value.len() > 0,
                        PartView::Code { opening, body: _, closing: _ } => opening.len() > 0,
                    } by {
                        if i >= shift {
                            assert(all[i] == tail[i - shift]);
                        }
                    }
                }
            },
        }
    }
}

/// A text without a fenced block that is empty. Such a block gains a blank line
/// when its fences are written round its body.
pub open spec fn blocks_hold_code(value: Seq<char>) -> bool {
    forall|i: int|
        0 <= i < parts_of(value).len() ==> match #[trigger] parts_of(value)[i] {
            PartView::Text(_) => true,
            PartView::Code { opening: _, body, closing: _ } => body.len() > 0,
        }
}

proof fn lemma_closing_starts_line(s: Seq<char>, from: int, marker: char, length: nat)
    requires
        0 <= from <= s.len(),
    ensures
        from < closing_line(s, from, marker, length) < s.len() ==> s[closing_line(
            s,
            from,
            marker,
            length,
        ) - 1] == '\n',
    decreases s.len() - from,
{
    if from < s.len() && !closes(line_at(s, from), marker, length) {
        text::lemma_first_at(s, '\n', from);
        lemma_closing_line(s, line_end(s, from), marker, length);
        lemma_closing_starts_line(s, line_end(s, from), marker, length);
    }
}

proof fn lemma_bodies_end_lines(s: Seq<char>, start: int, line: int)
    requires
        0 <= start <= line <= s.len(),
    ensures
        forall|i: int|
            0 <= i < parts_from(s, start, line).len() ==> match #[trigger] parts_from(
                s,
                start,
                line,
            )[i] {
                PartView::Text(_) => true,
                PartView::Code { opening: _, body, closing: _ } => body.len() == 0 || ends_line(
                    body,
                ),
            },
    decreases s.len() - line,
{
    if line < s.len() {
        lemma_line_end(s, line);
        let next = line_end(s, line);
        match fence_of(line_at(s, line)) {
            None => {
                lemma_bodies_end_lines(s, start, next);
            },
            Some((marker, length, _)) => {
                let closing = closing_line(s, next, marker, length);
                lemma_closing_line(s, next, marker, length);
                if closing >= s.len() {
                    lemma_bodies_end_lines(s, start, next);
                } else {
                    lemma_line_end(s, closing);
                    lemma_closing_starts_line(s, next, marker, length);
                    let end = line_end(s, closing);
                    lemma_bodies_end_lines(s, end, end);
                    let all = parts_from(s, start, line);
                    let tail = parts_from(s, end, end);
                    let shift = all.len() - tail.len();
                    assert forall|i: int| 0 <= i < all.len() implies match #[trigger] all[i] {
                        PartView::Text(_) => true,
                        PartView::Code { opening: _, body, closing: _ } => body.len() == 0
                            || ends_line(body),
                    } by {
                        if i >= shift {
                            assert(all[i] == tail[i - shift]);
                        }
                    }
                }
            },
        }
    }
}

proof fn lemma_next_part_fits(value: Seq<char>, i: int)
    requires
        0 <= i < parts_of(value).len(),
    ensures
        parts_text(parts_of(value).take(i + 1)) == parts_text(parts_of(value).take(i)) + part_text(
            parts_of(value)[i],
        ),
        parts_text(parts_of(value).take(i + 1)).len() <= value.len(),
{
    let all = parts_of(value);
    let show = |part: PartView| part_text(part);
    parts_preserve_the_text(value);
    assert(all.take(i + 1) + all.skip(i + 1) =~= all);
    lemma_parts_text_add(all.take(i + 1), all.skip(i + 1));
    assert(all.take(i) + seq![all[i]] =~= all.take(i + 1));
    lemma_parts_text_add(all.take(i), seq![all[i]]);
    assert(seq![all[i]].map_values(show) =~= seq![part_text(all[i])]);
    text::lemma_joined_one(part_text(all[i]));
}

proof fn lemma_nothing_shown(shown: Seq<Seq<char>>, parts: Seq<PartView>)
    requires
        shows_parts(shown, parts),
        text::joined(shown).len() == 0,
        forall|j: int|
            0 <= j < parts.len() ==> match #[trigger] parts[j] {
                PartView::Text(value) => value.len() > 0,
                PartView::Code { opening, body: _, closing: _ } => opening.len() > 0,
            },
    ensures
        parts.len() == 0,
{
    if parts.len() > 0 {
        text::lemma_joined_first(shown);
        assert(shows_part(shown[0], parts[0]));
        match parts[0] {
            PartView::Text(value) => {},
            PartView::Code { opening, body, closing } => {
                let bodies = choose|bodies: Seq<Seq<char>>|
                    #![trigger fenced_all(bodies, opening, closing)]
                    bodies.len() > 0 && text::joined(bodies) == body && shown[0] == text::joined(
                        fenced_all(bodies, opening, closing),
                    );
                text::lemma_joined_first(fenced_all(bodies, opening, closing));
            },
        }
    }
}

/// Splits text into Discord-sized Unicode-safe chunks while preserving fenced
/// code blocks in every message that contains part of one. A text that fits is
/// one message, as it is unless it holds an empty block.
pub fn split_message(value: &str, limit: usize) -> (messages: Vec<String>)
    ensures
        text::texts(messages@) == split_of(value@, limit as nat),
        messages@.len() > 0,
        limit > 0 ==> presents(text::texts(messages@), value@),
        limit > 0 && fences_leave_room(value@, limit as nat) ==> (forall|i: int|
            0 <= i < messages@.len() ==> (#[trigger] messages@[i])@.len() <= limit),
        limit > 0 && value@.len() > 0 ==> (forall|i: int|
            0 <= i < messages@.len() ==> (#[trigger] messages@[i])@.len() > 0),
        0 < value@.len() <= limit && blocks_hold_code(value@) ==> text::texts(messages@) == seq![
            value@,
        ],
{
    let mut messages: Vec<String> = Vec::new();
    if value.is_empty() || limit == 0 {
        messages.push(String::new());
        proof {
            assert(text::texts(messages@) =~= seq![Seq::<char>::empty()]);
            if limit > 0 {
                let shown = Seq::<Seq<char>>::empty();
                assert(parts_of(value@) =~= Seq::<PartView>::empty());
                assert(shows_parts(shown, parts_of(value@)));
                text::lemma_joined_one(Seq::empty());
            }
        }
        return messages;
    }
    let mut current = String::new();
    let parts = message_parts(value);
    let ghost all = parts_of(value@);
    let ghost mut shown: Seq<Seq<char>> = Seq::empty();
    let ghost whole = value@.len() <= limit && blocks_hold_code(value@);
    let mut i: usize = 0;
    proof {
        lemma_opening_not_empty(value@, 0, 0);
        lemma_bodies_end_lines(value@, 0, 0);
        assert(parts_text(all.take(0)) =~= Seq::<char>::empty());
        assert(all.take(0) =~= Seq::<PartView>::empty());
        assert(text::texts(messages@) =~= Seq::<Seq<char>>::empty());
        assert(packed(current, messages@) == unpacked());
        assert(unpacked().content() =~= text::joined(shown));
    }
    while i < parts.len()
        invariant
            i <= parts@.len(),
            limit > 0,
            all == parts_of(value@),
            part_views(parts@) == all,
            forall|j: int|
                0 <= j < all.len() ==> match #[trigger] all[j] {
                    PartView::Text(value) => value.len() > 0,
                    PartView::Code { opening, body: _, closing: _ } => opening.len() > 0,
                },
            packed(current, messages@) == unpacked().add_parts(all.take(i as int), limit as nat),
            shows_parts(shown, all.take(i as int)),
            packed(current, messages@).content() == text::joined(shown),
            fences_leave_room(value@, limit as nat) ==> packed(current, messages@).bounded(
                limit as nat,
            ),
            packed(current, messages@).filled(),
            whole == (value@.len() <= limit && blocks_hold_code(value@)),
            forall|j: int|
                0 <= j < all.len() ==> match #[trigger] all[j] {
                    PartView::Text(_) => true,
                    PartView::Code { opening: _, body, closing: _ } => body.len() == 0
                        || ends_line(body),
                },
            whole ==> packed(current, messages@) == unpacked().extend(
                parts_text(all.take(i as int)),
            ),
        decreases parts@.len() - i,
    {
        let ghost before = packed(current, messages@);
        let ghost part = all[i as int];
        proof {
            lemma_next_part_fits(value@, i as int);
            assert(whole ==> before.current =~= parts_text(all.take(i as int)));
        }
        let ghost mut added: Seq<char> = Seq::empty();
        assert(part == parts@[i as int]@);
        match &parts[i] {
            MessagePart::Text(value_part) => {
                append_text_parts(value_part.as_str(), &mut current, &mut messages, limit);
                proof {
                    added = value_part@;
                }
            },
            MessagePart::Code { opening, body, closing } => {
                append_code_parts(
                    opening.as_str(),
                    body.as_str(),
                    closing.as_str(),
                    &mut current,
                    &mut messages,
                    limit,
                );
                proof {
                    added = choose|added: Seq<char>|
                        #![trigger shows_block(added, opening@, body@, closing@)]
                        shows_block(added, opening@, body@, closing@) && packed(
                            current,
                            messages@,
                        ).content() == before.content() + added;
                }
            },
        }
        proof {
            let next = all.take(i + 1);
            assert(next =~= all.take(i as int).push(part));
            assert(next.drop_last() =~= all.take(i as int));
            text::lemma_joined_push(shown, added);
            shown = shown.push(added);
            assert(shows_parts(shown, next));
            if whole {
                assert(packed(current, messages@) == before.extend(part_text(part)));
                assert(packed(current, messages@).current =~= parts_text(next));
            }
        }
        i += 1;
    }
    let ghost state = packed(current, messages@);
    proof {
        parts_preserve_the_text(value@);
        assert(all.take(i as int) =~= all);
        assert(whole ==> state.current =~= value@);
    }
    assert(all.take(i as int) =~= all);
    proof {
        if value@.len() > 0 && state.content().len() == 0 {
            parts_preserve_the_text(value@);
            lemma_nothing_shown(shown, all);
            assert(false);
        }
    }
    if !current.as_str().is_empty() {
        messages.push(current);
        proof {
            assert(text::texts(messages@) =~= state.messages.push(state.current));
            text::lemma_joined_push(state.messages, state.current);
        }
    } else {
        assert(state.content() =~= text::joined(state.messages));
        assert(messages@.len() > 0) by {
            if messages@.len() == 0 {
                assert(text::texts(messages@) =~= Seq::<Seq<char>>::empty());
            }
        }
    }
    assert forall|j: int| 0 <= j < messages@.len() implies (#[trigger] messages@[j])@.len() > 0 by {
        assert(text::texts(messages@)[j] == messages@[j]@);
    }
    assert(fences_leave_room(value@, limit as nat) ==> (forall|j: int|
        0 <= j < messages@.len() ==> (#[trigger] messages@[j])@.len() <= limit)) by {
        assert forall|j: int|
            fences_leave_room(value@, limit as nat) && 0 <= j < messages@.len() implies (
        #[trigger] messages@[j])@.len() <= limit by {
            assert(text::texts(messages@)[j] == messages@[j]@);
        }
    }
    messages
}

} // verus!
