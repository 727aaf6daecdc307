//! Laws of rendered file diffs.

use vstd::prelude::*;

use crate::discord::present;
use crate::json::JsonView;
use crate::text;

verus! {

/// The lines of a text: what stands before each line feed, and what is left behind
/// the last one. Of a carriage return and a line feed together, neither belongs to
/// the line.
pub open spec fn lines_of(s: Seq<char>) -> Seq<Seq<char>>
    decreases s.len(),
{
    if s.len() == 0 {
        Seq::empty()
    } else {
        proof {
            text::lemma_first_at(s, '\n', 0);
        }
        let at = text::first_at(s, '\n', 0);
        if at >= s.len() {
            seq![s]
        } else if at > 0 && s[at - 1] == '\r' {
            seq![s.take(at - 1)] + lines_of(s.skip(at + 1))
        } else {
            seq![s.take(at)] + lines_of(s.skip(at + 1))
        }
    }
}

/// What stands between the line feeds of a text, without what is left empty behind
/// the last one.
pub open spec fn cut_at_feeds(s: Seq<char>) -> Seq<Seq<char>>
    decreases s.len(),
{
    if s.len() == 0 {
        Seq::empty()
    } else {
        proof {
            text::lemma_first_at(s, '\n', 0);
        }
        let at = text::first_at(s, '\n', 0);
        if at >= s.len() {
            seq![s]
        } else {
            seq![s.take(at)] + cut_at_feeds(s.skip(at + 1))
        }
    }
}

/// The lines that start with a sign, in order and without it.
pub open spec fn behind_sign(lines: Seq<Seq<char>>, sign: char) -> Seq<Seq<char>>
    decreases lines.len(),
{
    if lines.len() == 0 {
        Seq::empty()
    } else if lines[0].len() > 0 && lines[0][0] == sign {
        seq![lines[0].skip(1)] + behind_sign(lines.drop_first(), sign)
    } else {
        behind_sign(lines.drop_first(), sign)
    }
}

/// The lines of an optional text, none where there is no text.
pub open spec fn lines_in(value: Option<Seq<char>>) -> Seq<Seq<char>> {
    match value {
        Some(s) => lines_of(s),
        None => Seq::empty(),
    }
}

/// A text that starts with one whole line is cut into that line and the rest.
proof fn lemma_cut_line(line: Seq<char>, rest: Seq<char>)
    requires
        forall|i: int| 0 <= i < line.len() ==> line[i] != '\n',
    ensures
        cut_at_feeds(line + seq!['\n'] + rest) == seq![line] + cut_at_feeds(rest),
{
    let s = line + seq!['\n'] + rest;
    assert forall|i: int| 0 <= i < line.len() implies s[i] != '\n' by {
        assert(s[i] == line[i]);
    }
    assert(s[line.len() as int] == '\n');
    text::lemma_first_at_unique(s, '\n', 0, line.len() as int);
    assert(s.take(line.len() as int) =~= line);
    assert(s.skip(line.len() as int + 1) =~= rest);
}

/// Signed lines are cut into the lines of the text, each behind the sign.
proof fn lemma_signed_lines(s: Seq<char>, sign: char, rest: Seq<char>)
    requires
        sign != '\n',
    ensures
        behind_sign(cut_at_feeds(present::signed_lines(s, sign) + rest), sign) == lines_of(s)
            + behind_sign(cut_at_feeds(rest), sign),
        forall|other: char|
            other != sign ==> #[trigger] behind_sign(
                cut_at_feeds(present::signed_lines(s, sign) + rest),
                other,
            ) == behind_sign(cut_at_feeds(rest), other),
    decreases s.len(),
{
    if s.len() == 0 {
        assert(present::signed_lines(s, sign) + rest =~= rest);
        assert(lines_of(s) + behind_sign(cut_at_feeds(rest), sign) =~= behind_sign(
            cut_at_feeds(rest),
            sign,
        ));
    } else {
        text::lemma_first_at(s, '\n', 0);
        let at = text::first_at(s, '\n', 0);
        let line = if at >= s.len() {
            s
        } else if at > 0 && s[at - 1] == '\r' {
            s.take(at - 1)
        } else {
            s.take(at)
        };
        let after = if at >= s.len() {
            Seq::<char>::empty()
        } else {
            s.skip(at + 1)
        };
        let signed = seq![sign] + line;
        let tail = present::signed_lines(after, sign) + rest;
        lemma_signed_lines(after, sign, rest);
        assert(present::signed_lines(s, sign) + rest =~= signed + seq!['\n'] + tail);
        lemma_cut_line(signed, tail);
        let cut = seq![signed] + cut_at_feeds(tail);
        assert(cut.drop_first() =~= cut_at_feeds(tail));
        assert(signed.skip(1) =~= line);
        assert(lines_of(s) =~= seq![line] + lines_of(after));
        assert(seq![line] + (lines_of(after) + behind_sign(cut_at_feeds(rest), sign))
            =~= lines_of(s) + behind_sign(cut_at_feeds(rest), sign));
        assert forall|other: char| other != sign implies #[trigger] behind_sign(
            cut_at_feeds(present::signed_lines(s, sign) + rest),
            other,
        ) == behind_sign(cut_at_feeds(rest), other) by {
            assert(behind_sign(cut, other) == behind_sign(cut.drop_first(), other));
            assert(behind_sign(cut_at_feeds(tail), other) == behind_sign(
                cut_at_feeds(rest),
                other,
            ));
        }
    }
}

/// A rendered diff is a header that names the file and, behind it, the lines of
/// both texts: those that start with a minus are exactly the lines of the old text,
/// those that start with a plus exactly the lines of the new one, each in order.
pub proof fn a_diff_tells_both_texts(diff: JsonView)
    ensures
        ({
            let path = match diff.str_at("path"@) {
                Some(named) => named,
                None => "file"@,
            };
            let header = if diff.str_at("oldText"@) is Some {
                "--- a/"@ + path + "\n+++ b/"@ + path + "\n"@
            } else {
                "--- /dev/null\n+++ b/"@ + path + "\n"@
            };
            let shown = present::diff_text(diff);
            let body = cut_at_feeds(shown.skip(header.len() as int));
            &&& text::starts_with(shown, header)
            &&& behind_sign(body, '-') == lines_in(diff.str_at("oldText"@))
            &&& behind_sign(body, '+') == lines_in(diff.str_at("newText"@))
            &&& body.len() == lines_in(diff.str_at("oldText"@)).len() + lines_in(
                diff.str_at("newText"@),
            ).len()
        }),
{
    let path = match diff.str_at("path"@) {
        Some(named) => named,
        None => "file"@,
    };
    let header = if diff.str_at("oldText"@) is Some {
        "--- a/"@ + path + "\n+++ b/"@ + path + "\n"@
    } else {
        "--- /dev/null\n+++ b/"@ + path + "\n"@
    };
    let none = Seq::<char>::empty();
    let removed = match diff.str_at("oldText"@) {
        Some(s) => present::signed_lines(s, '-'),
        None => none,
    };
    let added = match diff.str_at("newText"@) {
        Some(s) => present::signed_lines(s, '+'),
        None => none,
    };
    let shown = present::diff_text(diff);
    assert(shown =~= header + (removed + added));
    assert(shown.skip(header.len() as int) =~= removed + added);
    assert(shown.subrange(0, header.len() as int) =~= header);
    let old_lines = lines_in(diff.str_at("oldText"@));
    let new_lines = lines_in(diff.str_at("newText"@));
    assert(added =~= added + none);
    assert(cut_at_feeds(none) =~= Seq::<Seq<char>>::empty());
    if let Some(s) = diff.str_at("newText"@) {
        lemma_signed_lines(s, '+', none);
        lemma_signed_count(s, '+', none);
    }
    assert(behind_sign(cut_at_feeds(added), '+') =~= new_lines);
    assert(behind_sign(cut_at_feeds(added), '-') =~= Seq::<Seq<char>>::empty());
    if let Some(s) = diff.str_at("oldText"@) {
        lemma_signed_lines(s, '-', added);
        lemma_signed_count(s, '-', added);
        assert(behind_sign(cut_at_feeds(removed + added), '+') == new_lines);
    } else {
        assert(removed + added =~= added);
    }
    assert(old_lines + Seq::<Seq<char>>::empty() =~= old_lines);
}

/// Signed lines are as many as the lines of the text.
proof fn lemma_signed_count(s: Seq<char>, sign: char, rest: Seq<char>)
    requires
        sign != '\n',
    ensures
        cut_at_feeds(present::signed_lines(s, sign) + rest).len() == lines_of(s).len()
            + cut_at_feeds(rest).len(),
    decreases s.len(),
{
    if s.len() == 0 {
        assert(present::signed_lines(s, sign) + rest =~= rest);
    } else {
        text::lemma_first_at(s, '\n', 0);
        let at = text::first_at(s, '\n', 0);
        let line = if at >= s.len() {
            s
        } else if at > 0 && s[at - 1] == '\r' {
            s.take(at - 1)
        } else {
            s.take(at)
        };
        let after = if at >= s.len() {
            Seq::<char>::empty()
        } else {
            s.skip(at + 1)
        };
        let signed = seq![sign] + line;
        let tail = present::signed_lines(after, sign) + rest;
        lemma_signed_count(after, sign, rest);
        assert(present::signed_lines(s, sign) + rest =~= signed + seq!['\n'] + tail);
        lemma_cut_line(signed, tail);
        assert(lines_of(s) =~= seq![line] + lines_of(after));
    }
}

} // verus!
