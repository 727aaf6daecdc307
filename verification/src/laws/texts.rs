//! Laws of texts: trimming, shortening and replacing.

use vstd::prelude::*;

use crate::numbers;
use crate::text;

verus! {

proof fn lemma_trim_start(s: Seq<char>)
    ensures
        exists|before: Seq<char>| #[trigger] text::is_blank(before) && s == before
            + text::trim_start(s),
        text::trim_start(s).len() > 0 ==> !text::is_space(text::trim_start(s)[0]),
    decreases s.len(),
{
    if s.len() > 0 && text::is_space(s[0]) {
        let rest = s.drop_first();
        lemma_trim_start(rest);
        let before = choose|before: Seq<char>| #[trigger] text::is_blank(before) && rest == before
            + text::trim_start(rest);
        let more = seq![s[0]] + before;
        assert forall|i: int| 0 <= i < more.len() implies text::is_space(#[trigger] more[i]) by {
            if i > 0 {
                assert(more[i] == before[i - 1]);
            }
        }
        assert(text::is_blank(more));
        assert(s =~= seq![s[0]] + rest);
        assert(seq![s[0]] + (before + text::trim_start(rest)) =~= more + text::trim_start(rest));
    } else {
        let none = Seq::<char>::empty();
        assert(text::is_blank(none));
        assert(s =~= none + text::trim_start(s));
    }
}

proof fn lemma_trim_end(s: Seq<char>)
    ensures
        exists|after: Seq<char>| #[trigger] text::is_blank(after) && s == text::trim_end(s) + after,
        text::trim_end(s).len() > 0 ==> !text::is_space(text::trim_end(s).last())
            && text::trim_end(s)[0] == s[0],
    decreases s.len(),
{
    if s.len() > 0 && text::is_space(s.last()) {
        let rest = s.drop_last();
        lemma_trim_end(rest);
        let after = choose|after: Seq<char>| #[trigger] text::is_blank(after) && rest
            == text::trim_end(rest) + after;
        let more = after.push(s.last());
        assert forall|i: int| 0 <= i < more.len() implies text::is_space(#[trigger] more[i]) by {
            if i < after.len() {
                assert(more[i] == after[i]);
            }
        }
        assert(text::is_blank(more));
        assert(s =~= rest.push(s.last()));
        assert((text::trim_end(rest) + after).push(s.last()) =~= text::trim_end(rest) + more);
    } else {
        let none = Seq::<char>::empty();
        assert(text::is_blank(none));
        assert(s =~= text::trim_end(s) + none);
    }
}

/// Trimming takes away white space at both ends, all of it and nothing else, and what
/// is trimmed stays as it is when it is trimmed again.
pub proof fn trimming_takes_away_outer_space(s: Seq<char>)
    ensures
        exists|before: Seq<char>, after: Seq<char>|
            #[trigger] text::is_blank(before) && #[trigger] text::is_blank(after) && s == before
                + text::trimmed(s) + after,
        text::trimmed(s).len() > 0 ==> !text::is_space(text::trimmed(s)[0]) && !text::is_space(
            text::trimmed(s).last(),
        ),
        text::trimmed(text::trimmed(s)) == text::trimmed(s),
{
    lemma_trim_start(s);
    let inner = text::trim_start(s);
    lemma_trim_end(inner);
    let before = choose|before: Seq<char>| #[trigger] text::is_blank(before) && s == before + inner;
    let after = choose|after: Seq<char>| #[trigger] text::is_blank(after) && inner
        == text::trim_end(inner) + after;
    assert(text::trimmed(s) == text::trim_end(inner));
    assert(s =~= before + text::trimmed(s) + after);
    text::lemma_trimmed_fixed(text::trimmed(s));
}

/// A text that fits is not shortened; one that does not is cut to the limit, and its
/// last character tells that it was.
pub proof fn a_shortened_text_fits(s: Seq<char>, limit: nat)
    requires
        limit > 0,
    ensures
        s.len() <= limit ==> text::ellipsized(s, limit) == s,
        s.len() > limit ==> {
            let cut = text::ellipsized(s, limit);
            &&& cut.len() == limit
            &&& cut.last() == '…'
            &&& forall|i: int| 0 <= i < limit - 1 ==> #[trigger] cut[i] == s[i]
        },
        text::capped(s, limit).len() <= limit,
        forall|i: int|
            0 <= i < text::capped(s, limit).len() ==> #[trigger] text::capped(s, limit)[i] == s[i],
        s.len() <= limit ==> text::capped(s, limit) == s,
        s.len() > limit ==> text::capped(s, limit).len() == limit,
{
}

/// Replacing a character changes its occurrences and nothing else.
pub proof fn replacing_changes_the_character_alone(s: Seq<char>, from: char, to: char)
    ensures
        text::replaced(s, from, to).len() == s.len(),
        forall|i: int|
            0 <= i < s.len() ==> #[trigger] text::replaced(s, from, to)[i] == if s[i] == from {
                to
            } else {
                s[i]
            },
        forall|i: int|
            0 <= i < s.len() ==> #[trigger] text::without_controls(s)[i] == if text::is_control(
                s[i],
            ) {
                ' '
            } else {
                s[i]
            },
        text::without_controls(s).len() == s.len(),
{
}

/// Taking out two characters leaves all others in order.
pub proof fn taking_out_characters_keeps_the_others(s: Seq<char>, first: char, second: char)
    ensures
        text::without2(s, first, second) == s.filter(|c: char| c != first && c != second),
    decreases s.len(),
{
    reveal(Seq::filter);
    if s.len() > 0 {
        taking_out_characters_keeps_the_others(s.drop_last(), first, second);
    }
}

proof fn lemma_filter_add(left: Seq<char>, right: Seq<char>, kept: spec_fn(char) -> bool)
    ensures
        (left + right).filter(kept) == left.filter(kept) + right.filter(kept),
    decreases right.len(),
{
    reveal(Seq::filter);
    if right.len() == 0 {
        assert(left + right =~= left);
        assert(left.filter(kept) + right.filter(kept) =~= left.filter(kept));
    } else {
        lemma_filter_add(left, right.drop_last(), kept);
        assert((left + right).drop_last() =~= left + right.drop_last());
        assert((left + right).last() == right.last());
        if kept(right.last()) {
            assert((left.filter(kept) + right.drop_last().filter(kept)).push(right.last())
                =~= left.filter(kept) + right.drop_last().filter(kept).push(right.last()));
        }
    }
}

proof fn lemma_filter_all(s: Seq<char>, kept: spec_fn(char) -> bool, all: bool)
    requires
        forall|i: int| 0 <= i < s.len() ==> kept(#[trigger] s[i]) == all,
    ensures
        s.filter(kept) == if all {
            s
        } else {
            Seq::empty()
        },
    decreases s.len(),
{
    reveal(Seq::filter);
    if s.len() > 0 {
        lemma_filter_all(s.drop_last(), kept, all);
        assert(kept(s[s.len() - 1]) == all);
        assert(s.drop_last().push(s.last()) =~= s);
    }
}

proof fn lemma_next_space_between(s: Seq<char>, from: int, space: bool)
    requires
        0 <= from <= s.len(),
    ensures
        forall|i: int|
            from <= i < text::next_space(s, from, space) ==> text::is_space(#[trigger] s[i])
                != space,
    decreases s.len() - from,
{
    if from < s.len() && text::is_space(s[from]) != space {
        lemma_next_space_between(s, from + 1, space);
    }
}

/// The words of a text are what is left of it without its white space, and none of
/// them is empty or holds any.
pub proof fn words_are_what_space_separates(s: Seq<char>, from: int)
    requires
        0 <= from <= s.len(),
    ensures
        text::joined(text::words_from(s, from)) == s.skip(from).filter(
            |c: char| !text::is_space(c),
        ),
        forall|i: int|
            0 <= i < text::words_from(s, from).len() ==> (#[trigger] text::words_from(
                s,
                from,
            )[i]).len() > 0 && (forall|k: int|
                0 <= k < text::words_from(s, from)[i].len() ==> !text::is_space(
                    #[trigger] text::words_from(s, from)[i][k],
                )),
    decreases s.len() - from,
{
    let kept = |c: char| !text::is_space(c);
    let start = text::next_space(s, from, false);
    let end = text::next_space(s, start, true);
    text::lemma_next_space(s, from, false);
    lemma_next_space_between(s, from, false);
    let gap = s.subrange(from, start);
    lemma_filter_all(gap, kept, false);
    if start >= s.len() {
        assert(s.skip(from) =~= gap);
    } else {
        text::lemma_next_space(s, start, true);
        lemma_next_space_between(s, start, true);
        let word = s.subrange(start, end);
        words_are_what_space_separates(s, end);
        assert forall|i: int| 0 <= i < word.len() implies kept(#[trigger] word[i]) by {
            assert(word[i] == s[start + i]);
        }
        lemma_filter_all(word, kept, true);
        lemma_filter_add(gap, word + s.skip(end), kept);
        lemma_filter_add(word, s.skip(end), kept);
        assert(s.skip(from) =~= gap + (word + s.skip(end)));
        let rest = text::words_from(s, end);
        text::lemma_joined_one(word);
        text::lemma_joined_add(seq![word], rest);
        assert(Seq::<char>::empty() + (word + s.skip(end).filter(kept)) =~= word + s.skip(
            end,
        ).filter(kept));
        let all = text::words_from(s, from);
        assert(all =~= seq![word] + rest);
        assert forall|i: int| 0 <= i < all.len() implies (#[trigger] all[i]).len() > 0 && (forall|
            k: int,
        | 0 <= k < all[i].len() ==> !text::is_space(#[trigger] all[i][k])) by {
            if i > 0 {
                assert(all[i] == rest[i - 1]);
            } else {
                assert forall|k: int| 0 <= k < word.len() implies !text::is_space(
                    #[trigger] all[i][k],
                ) by {
                    assert(kept(word[k]));
                }
            }
        }
    }
}

/// Where two texts part: they agree before a place, and there the one ends or has the
/// smaller character.
pub open spec fn parts_at(left: Seq<char>, right: Seq<char>, at: int) -> bool {
    &&& 0 <= at <= left.len()
    &&& at < right.len()
    &&& forall|i: int| 0 <= i < at ==> #[trigger] left[i] == right[i]
    &&& at == left.len() || left[at] < right[at]
}

/// A text comes before another exactly where it is the smaller one at the first place at
/// which they differ.
pub proof fn the_first_difference_orders_texts(left: Seq<char>, right: Seq<char>)
    ensures
        text::precedes(left, right) <==> exists|at: int| #[trigger] parts_at(left, right, at),
    decreases left.len(),
{
    if left.len() == 0 {
        if right.len() > 0 {
            assert(parts_at(left, right, 0));
        }
    } else if right.len() > 0 {
        if left[0] == right[0] {
            let l = left.drop_first();
            let r = right.drop_first();
            the_first_difference_orders_texts(l, r);
            if text::precedes(left, right) {
                let at = choose|at: int| #[trigger] parts_at(l, r, at);
                assert forall|i: int| 0 <= i < at + 1 implies #[trigger] left[i] == right[i] by {
                    if i > 0 {
                        assert(l[i - 1] == r[i - 1]);
                    }
                }
                assert(parts_at(left, right, at + 1));
            }
            if exists|at: int| #[trigger] parts_at(left, right, at) {
                let at = choose|at: int| #[trigger] parts_at(left, right, at);
                assert(at > 0);
                assert forall|i: int| 0 <= i < at - 1 implies #[trigger] l[i] == r[i] by {
                    assert(left[i + 1] == right[i + 1]);
                }
                assert(parts_at(l, r, at - 1));
            }
        } else {
            if left[0] < right[0] {
                assert(parts_at(left, right, 0));
            }
            if exists|at: int| #[trigger] parts_at(left, right, at) {
                let at = choose|at: int| #[trigger] parts_at(left, right, at);
                if at > 0 {
                    assert(left[0] == right[0]);
                }
            }
        }
    }
}

/// Small letters differ from capitals in the letters of the English alphabet alone.
pub proof fn small_letters_stand_for_capitals(s: Seq<char>)
    ensures
        text::ascii_lowered(s).len() == s.len(),
        forall|i: int|
            0 <= i < s.len() ==> #[trigger] text::ascii_lowered(s)[i] == if 'A' <= s[i] && s[i]
                <= 'Z' {
                (s[i] as u32 + 32) as char
            } else {
                s[i]
            },
{
}

/// An integer that is written reads back, and what reads as an integer is digits behind
/// at most one sign.
pub proof fn a_written_integer_reads_back(n: i64, s: Seq<char>)
    ensures
        numbers::signed_in(numbers::signed_decimal(n as int)) == Some(n as int),
        numbers::signed_in(s) matches Some(read) ==> i64::MIN <= read <= i64::MAX && s.len() > 0 && (
        forall|i: int| 1 <= i < s.len() ==> '0' <= #[trigger] s[i] && s[i] <= '9') && (s[0] == '-'
            || s[0] == '+' || ('0' <= s[0] && s[0] <= '9')) && (s[0] == '-' ==> read <= 0) && (s[0]
            != '-' ==> read >= 0),
{
    if n < 0 {
        let digits = numbers::decimal((-n) as nat);
        numbers::lemma_decimal_digits((-n) as nat);
        let shown = numbers::signed_decimal(n as int);
        assert(shown[0] == '-');
        assert(shown.skip(1) =~= digits);
    } else {
        numbers::lemma_decimal_digits(n as nat);
        numbers::decimal_reads_back(n as nat, 0x7fff_ffff_ffff_ffff);
        assert(numbers::is_digit(numbers::decimal(n as nat)[0]));
    }
    if let Some(read) = numbers::signed_in(s) {
        let digits = if s.len() > 1 && (s[0] == '-' || s[0] == '+') {
            s.skip(1)
        } else {
            s
        };
        assert(numbers::is_digits(digits));
        assert forall|i: int| 1 <= i < s.len() implies '0' <= #[trigger] s[i] && s[i] <= '9' by {
            if digits.len() == s.len() {
                assert(numbers::is_digit(digits[i]));
            } else {
                assert(digits[i - 1] == s[i]);
                assert(numbers::is_digit(digits[i - 1]));
            }
        }
        if digits.len() == s.len() {
            assert(numbers::is_digit(digits[0]));
        }
    }
}

} // verus!
