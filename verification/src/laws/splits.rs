//! Laws of code blocks in messages.

use vstd::prelude::*;

use crate::discord::split;
use crate::discord::split::{Packed, PartView};
use crate::laws::settings;
use crate::text;

verus! {

/// A text of spaces and tabs.
pub open spec fn is_indent(s: Seq<char>) -> bool {
    forall|i: int| 0 <= i < s.len() ==> #[trigger] s[i] == ' ' || s[i] == '\t'
}

/// A text of line ends.
pub open spec fn is_ending(s: Seq<char>) -> bool {
    forall|i: int| 0 <= i < s.len() ==> #[trigger] s[i] == '\r' || s[i] == '\n'
}

/// A character as often as told.
pub open spec fn run_of(mark: char, count: nat) -> Seq<char> {
    Seq::new(count, |i: int| mark)
}

proof fn lemma_ending(line: Seq<char>, ending: Seq<char>)
    requires
        is_ending(ending),
        line.len() > 0 ==> line.last() != '\r' && line.last() != '\n',
    ensures
        split::without_line_ending(line + ending) == line,
    decreases ending.len(),
{
    let all = line + ending;
    if ending.len() > 0 {
        assert(all.last() == ending[ending.len() - 1]);
        assert(all.drop_last() =~= line + ending.drop_last());
        lemma_ending(line, ending.drop_last());
    } else {
        assert(all =~= line);
    }
}

proof fn lemma_indent(indent: Seq<char>, rest: Seq<char>)
    requires
        is_indent(indent),
        rest.len() > 0 ==> rest[0] != ' ' && rest[0] != '\t',
    ensures
        split::without_indent(indent + rest) == rest,
    decreases indent.len(),
{
    let all = indent + rest;
    if indent.len() > 0 {
        assert(all[0] == indent[0]);
        assert(all.drop_first() =~= indent.drop_first() + rest);
        lemma_indent(indent.drop_first(), rest);
    } else {
        assert(all =~= rest);
    }
}

proof fn lemma_run(mark: char, count: nat, rest: Seq<char>)
    requires
        rest.len() > 0 ==> rest[0] != mark,
    ensures
        split::run_length(run_of(mark, count) + rest, mark) == count,
    decreases count,
{
    let all = run_of(mark, count) + rest;
    if count > 0 {
        assert(all[0] == mark);
        assert(all.drop_first() =~= run_of(mark, (count - 1) as nat) + rest);
        lemma_run(mark, (count - 1) as nat, rest);
    } else {
        assert(all =~= rest);
    }
}

/// A line is a fence exactly where, behind any spaces and tabs, it starts with three or
/// more backticks or three or more tildes; it can close a block where nothing visible
/// follows them.
pub proof fn a_fence_is_three_marks_or_more(
    indent: Seq<char>,
    mark: char,
    count: nat,
    rest: Seq<char>,
    ending: Seq<char>,
)
    requires
        is_indent(indent),
        is_ending(ending),
        mark == '`' || mark == '~',
        count > 0,
        rest.len() > 0 ==> rest[0] != mark && rest.last() != '\r' && rest.last() != '\n',
    ensures
        split::fence_of(indent + run_of(mark, count) + rest + ending) == if count >= 3 {
            Some((mark, count, text::is_blank(rest)))
        } else {
            None
        },
{
    let bare = run_of(mark, count) + rest;
    let line = indent + bare;
    assert(indent + run_of(mark, count) + rest + ending =~= line + ending);
    assert(bare.last() == if rest.len() > 0 {
        rest.last()
    } else {
        mark
    });
    assert(line.last() == bare.last());
    lemma_ending(line, ending);
    assert(bare[0] == mark);
    lemma_indent(indent, bare);
    lemma_run(mark, count, rest);
    assert(bare.skip(count as int) =~= rest);
}

/// A line that starts with anything else behind its spaces and tabs is no fence.
pub proof fn other_lines_are_no_fences(indent: Seq<char>, rest: Seq<char>, ending: Seq<char>)
    requires
        is_indent(indent),
        is_ending(ending),
        rest.len() > 0,
        rest[0] != '`' && rest[0] != '~' && rest[0] != ' ' && rest[0] != '\t',
        rest.last() != '\r' && rest.last() != '\n',
    ensures
        split::fence_of(indent + rest + ending) is None,
{
    let line = indent + rest;
    assert(line.last() == rest.last());
    lemma_ending(line, ending);
    lemma_indent(indent, rest);
}

/// A line of a text: from its start or behind a line feed to its end or the next one.
pub open spec fn is_line(s: Seq<char>, from: int, to: int) -> bool {
    &&& 0 <= from < to <= s.len()
    &&& from == 0 || s[from - 1] == '\n'
    &&& to == s.len() || s[to - 1] == '\n'
    &&& forall|i: int| from <= i < to - 1 ==> #[trigger] s[i] != '\n'
}

/// A line can close a block that a fence opened: with the same mark, at least as often,
/// and nothing visible behind it.
pub open spec fn can_close(line: Seq<char>, mark: char, count: nat) -> bool {
    split::fence_of(line) matches Some((own, times, bare)) && bare && own == mark && times >= count
}

proof fn lemma_line_end(s: Seq<char>, from: int, to: int)
    requires
        is_line(s, from, to),
    ensures
        split::line_end(s, from) == to,
{
    if s[to - 1] == '\n' {
        text::lemma_first_at_unique(s, '\n', from, to - 1);
    } else {
        text::lemma_first_at_unique(s, '\n', from, to);
    }
}

proof fn lemma_some_line(s: Seq<char>, from: int)
    requires
        0 <= from < s.len(),
        from == 0 || s[from - 1] == '\n',
    ensures
        is_line(s, from, split::line_end(s, from)),
{
    text::lemma_first_at(s, '\n', from);
}

proof fn lemma_line_end_shift(a: Seq<char>, b: Seq<char>, from: int)
    requires
        0 <= from <= b.len(),
    ensures
        split::line_end(a + b, a.len() + from) == a.len() + split::line_end(b, from),
{
    settings::lemma_first_shift(a, b, '\n', from);
}

proof fn lemma_closing_shift(a: Seq<char>, b: Seq<char>, from: int, mark: char, count: nat)
    requires
        0 <= from <= b.len(),
    ensures
        split::closing_line(a + b, a.len() + from, mark, count) == a.len() + split::closing_line(
            b,
            from,
            mark,
            count,
        ),
    decreases b.len() - from,
{
    let s = a + b;
    if from < b.len() {
        lemma_line_end_shift(a, b, from);
        text::lemma_first_at(b, '\n', from);
        let end = split::line_end(b, from);
        assert(s.subrange(a.len() + from, a.len() + end) =~= b.subrange(from, end));
        if !split::closes(split::line_at(b, from), mark, count) {
            lemma_closing_shift(a, b, end, mark, count);
        }
    }
}

proof fn lemma_parts_shift(a: Seq<char>, b: Seq<char>, start: int, line: int)
    requires
        0 <= start <= line <= b.len(),
    ensures
        split::parts_from(a + b, a.len() + start, a.len() + line) == split::parts_from(
            b,
            start,
            line,
        ),
    decreases b.len() - line,
{
    let s = a + b;
    let n = a.len() as int;
    if line >= b.len() {
        assert(s.skip(n + start) =~= b.skip(start));
    } else {
        lemma_line_end_shift(a, b, line);
        text::lemma_first_at(b, '\n', line);
        let next = split::line_end(b, line);
        assert(s.subrange(n + line, n + next) =~= b.subrange(line, next));
        match split::fence_of(split::line_at(b, line)) {
            None => lemma_parts_shift(a, b, start, next),
            Some((mark, count, _)) => {
                lemma_closing_shift(a, b, next, mark, count);
                split::lemma_closing_line(b, next, mark, count);
                let closing = split::closing_line(b, next, mark, count);
                if closing >= b.len() {
                    lemma_parts_shift(a, b, start, next);
                } else {
                    lemma_line_end_shift(a, b, closing);
                    text::lemma_first_at(b, '\n', closing);
                    let end = split::line_end(b, closing);
                    lemma_parts_shift(a, b, end, end);
                    assert(s.subrange(n + next, n + closing) =~= b.subrange(next, closing));
                    assert(s.subrange(n + closing, n + end) =~= b.subrange(closing, end));
                    assert(s.subrange(n + start, n + line) =~= b.subrange(start, line));
                }
            },
        }
    }
}

/// A text of whole lines: empty, or with a line feed at its end.
pub open spec fn is_whole(s: Seq<char>) -> bool {
    s.len() > 0 ==> s.last() == '\n'
}

/// No line of a text is a fence.
pub open spec fn has_no_fence(s: Seq<char>) -> bool {
    forall|from: int, to: int|
        #[trigger] is_line(s, from, to) ==> split::fence_of(s.subrange(from, to)) is None
}

/// No line of a text can close a block.
pub open spec fn stays_open(s: Seq<char>, mark: char, count: nat) -> bool {
    forall|from: int, to: int|
        #[trigger] is_line(s, from, to) ==> !can_close(s.subrange(from, to), mark, count)
}

proof fn lemma_prefix_line(head: Seq<char>, tail: Seq<char>, from: int)
    requires
        is_whole(head),
        0 <= from < head.len(),
        from == 0 || head[from - 1] == '\n',
    ensures
        ({
            let to = split::line_end(head, from);
            &&& is_line(head, from, to)
            &&& split::line_end(head + tail, from) == to
            &&& split::line_at(head + tail, from) == head.subrange(from, to)
            &&& to == head.len() || head[to - 1] == '\n'
        }),
{
    let s = head + tail;
    lemma_some_line(head, from);
    let to = split::line_end(head, from);
    assert(head[to - 1] == '\n') by {
        if to == head.len() {
            assert(head.last() == head[to - 1]);
        }
    }
    assert(is_line(s, from, to)) by {
        if from > 0 {
            assert(s[from - 1] == head[from - 1]);
        }
        assert(s[to - 1] == head[to - 1]);
        assert forall|i: int| from <= i < to - 1 implies #[trigger] s[i] != '\n' by {
            assert(s[i] == head[i]);
        }
    }
    lemma_line_end(s, from, to);
    assert(s.subrange(from, to) =~= head.subrange(from, to));
}

proof fn lemma_walk_text(head: Seq<char>, tail: Seq<char>, from: int)
    requires
        is_whole(head),
        has_no_fence(head),
        0 <= from <= head.len(),
        from == 0 || head[from - 1] == '\n',
    ensures
        split::parts_from(head + tail, 0, from) == split::parts_from(
            head + tail,
            0,
            head.len() as int,
        ),
    decreases head.len() - from,
{
    if from < head.len() {
        lemma_prefix_line(head, tail, from);
        let to = split::line_end(head, from);
        lemma_walk_text(head, tail, to);
    }
}

proof fn lemma_walk_body(
    body: Seq<char>,
    tail: Seq<char>,
    from: int,
    mark: char,
    count: nat,
)
    requires
        is_whole(body),
        stays_open(body, mark, count),
        0 <= from <= body.len(),
        from == 0 || body[from - 1] == '\n',
    ensures
        split::closing_line(body + tail, from, mark, count) == split::closing_line(
            body + tail,
            body.len() as int,
            mark,
            count,
        ),
    decreases body.len() - from,
{
    if from < body.len() {
        lemma_prefix_line(body, tail, from);
        let to = split::line_end(body, from);
        assert(!can_close(body.subrange(from, to), mark, count));
        lemma_walk_body(body, tail, to, mark, count);
    }
}

/// A fenced block is kept apart: of a text without fences, a fence, lines that cannot
/// close it, a line that can, and a rest, the first is text, the next three are a code
/// block, and the rest is taken apart as if it stood alone.
pub proof fn a_fenced_block_is_code(
    before: Seq<char>,
    opening: Seq<char>,
    body: Seq<char>,
    closing: Seq<char>,
    after: Seq<char>,
    mark: char,
    count: nat,
    bare: bool,
)
    requires
        is_whole(before),
        has_no_fence(before),
        is_line(opening, 0, opening.len() as int),
        is_whole(opening),
        split::fence_of(opening) == Some((mark, count, bare)),
        is_whole(body),
        stays_open(body, mark, count),
        is_line(closing, 0, closing.len() as int),
        can_close(closing, mark, count),
        is_whole(closing) || after.len() == 0,
    ensures
        split::parts_of(before + opening + body + closing + after) == (if before.len() > 0 {
            seq![PartView::Text(before)]
        } else {
            Seq::empty()
        }) + seq![PartView::Code { opening, body, closing }] + split::parts_of(after),
{
    let last = closing + after;
    let rest = body + last;
    let tail = opening + rest;
    let s = before + tail;
    assert(before + opening + body + closing + after =~= s);
    lemma_walk_text(before, tail, 0);
    let at = before.len() as int;
    // The opening line.
    lemma_prefix_line(opening, rest, 0);
    lemma_line_end(opening, 0, opening.len() as int);
    assert(opening.subrange(0, opening.len() as int) =~= opening);
    lemma_line_end_shift(before, tail, 0);
    let next = at + opening.len();
    assert(split::line_end(s, at) == next);
    assert(s.subrange(at, next) =~= opening);
    // The body.
    let head = before + opening;
    assert(s =~= head + rest);
    lemma_walk_body(body, last, 0, mark, count);
    lemma_closing_shift(head, rest, 0, mark, count);
    lemma_closing_shift(body, last, 0, mark, count);
    // The closing line.
    assert(split::line_end(last, 0) == closing.len()) by {
        if is_whole(closing) {
            lemma_prefix_line(closing, after, 0);
            lemma_line_end(closing, 0, closing.len() as int);
        } else {
            assert(last =~= closing);
            lemma_line_end(closing, 0, closing.len() as int);
        }
    }
    assert(last.subrange(0, closing.len() as int) =~= closing);
    assert(split::closing_line(last, 0, mark, count) == 0);
    let close = next + body.len();
    assert(split::closing_line(s, next, mark, count) == close);
    let lead = head + body;
    assert(s =~= lead + last);
    lemma_line_end_shift(lead, last, 0);
    let end = close + closing.len();
    assert(split::line_end(s, close) == end);
    assert(s.subrange(next, close) =~= body);
    assert(s.subrange(close, end) =~= closing);
    assert(s.subrange(0, at) =~= before);
    let all = lead + closing;
    assert(s =~= all + after);
    lemma_parts_shift(all, after, 0, 0);
    assert(split::parts_from(s, end, end) == split::parts_of(after));
    let code = PartView::Code { opening, body, closing };
    if at > 0 {
        assert(seq![PartView::Text(before), code] + split::parts_of(after) =~= seq![
            PartView::Text(before),
        ] + seq![code] + split::parts_of(after));
    } else {
        assert(Seq::<PartView>::empty() + seq![code] =~= seq![code]);
    }
}

/// A text of whole lines without a fence is text.
pub proof fn a_text_without_fences_is_text(s: Seq<char>)
    requires
        is_whole(s),
        has_no_fence(s),
        s.len() > 0,
    ensures
        split::parts_of(s) == seq![PartView::Text(s)],
{
    let none = Seq::<char>::empty();
    assert(s + none =~= s);
    lemma_walk_text(s, none, 0);
    assert(s.skip(0) =~= s);
}

/// A fenced chunk opens with its opening, closes with its closing on a line of its own,
/// and holds the body in between.
pub proof fn a_fenced_chunk_holds_its_body(
    opening: Seq<char>,
    body: Seq<char>,
    closing: Seq<char>,
)
    ensures
        text::starts_with(split::fenced(opening, body, closing), opening + body),
        text::ends_with(split::fenced(opening, body, closing), closing),
        body.len() > 0 ==> ({
            let block = split::fenced(opening, body, closing);
            let before = block[block.len() - closing.len() - 1];
            before == '\n' || before == '\r'
        }),
        split::fenced(opening, body, closing).len() <= opening.len() + body.len() + closing.len()
            + 1,
{
    let block = split::fenced(opening, body, closing);
    assert(block.subrange(0, (opening + body).len() as int) =~= opening + body);
    assert(block.subrange(block.len() - closing.len(), block.len() as int) =~= closing);
}

/// A chunk joins the message before it wherever both fit together; where they do not,
/// that message is finished as it is, and the chunk begins the next one.
pub proof fn a_chunk_joins_the_message_where_it_fits(state: Packed, chunk: Seq<char>, limit: nat)
    requires
        chunk.len() > 0,
        chunk.len() <= limit,
    ensures
        ({
            let next = state.add_chunk(chunk, limit);
            if state.current.len() + chunk.len() <= limit {
                next.messages == state.messages && next.current == state.current + chunk
            } else {
                next.messages == state.messages.push(state.current) && next.current == chunk
            }
        }),
        state.finish().len() > 0,
        state.current.len() > 0 ==> state.finish() == state.messages.push(state.current),
        state.current.len() == 0 && state.messages.len() > 0 ==> state.finish() == state.messages,
{
    assert(Seq::<char>::empty() + chunk =~= chunk);
}

} // verus!
