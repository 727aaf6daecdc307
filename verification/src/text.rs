//! Text primitives over Unicode scalar values.
//!
//! Every function is specified over the sequence of characters of its
//! arguments, so counts and positions are counts of characters and never of
//! bytes.

use vstd::prelude::*;

verus! {

/// `String::push` appends one character.
pub assume_specification[ String::push ](string: &mut String, ch: char)
    ensures
        final(string)@ == old(string)@.push(ch),
;

/// The contents of a list of strings.
pub open spec fn texts(values: Seq<String>) -> Seq<Seq<char>> {
    values.map_values(|value: String| value@)
}

/// The content of an optional string.
pub open spec fn opt_text(value: Option<String>) -> Option<Seq<char>> {
    match value {
        Some(text) => Some(text@),
        None => None,
    }
}

/// The content of an optional string slice.
pub open spec fn opt_str(value: Option<&str>) -> Option<Seq<char>> {
    match value {
        Some(text) => Some(text@),
        None => None,
    }
}

/// Concatenates texts in order.
pub open spec fn joined(parts: Seq<Seq<char>>) -> Seq<char>
    decreases parts.len(),
{
    if parts.len() == 0 {
        Seq::empty()
    } else {
        joined(parts.drop_last()) + parts.last()
    }
}

/// Appending one text extends the concatenation by it.
pub proof fn lemma_joined_push(parts: Seq<Seq<char>>, part: Seq<char>)
    ensures
        joined(parts.push(part)) == joined(parts) + part,
{
    assert(parts.push(part).drop_last() =~= parts);
}

/// The concatenation of two lists is the concatenation of their texts.
pub proof fn lemma_joined_add(left: Seq<Seq<char>>, right: Seq<Seq<char>>)
    ensures
        joined(left + right) == joined(left) + joined(right),
    decreases right.len(),
{
    if right.len() == 0 {
        assert(left + right =~= left);
        assert(joined(left) + joined(right) =~= joined(left));
    } else {
        lemma_joined_add(left, right.drop_last());
        assert((left + right).drop_last() =~= left + right.drop_last());
        assert((left + right).last() == right.last());
        assert(joined(left) + joined(right.drop_last()) + right.last() =~= joined(left) + (joined(
            right.drop_last(),
        ) + right.last()));
    }
}

/// The concatenation of a list is its first text and the concatenation of the
/// rest.
pub proof fn lemma_joined_first(parts: Seq<Seq<char>>)
    requires
        parts.len() > 0,
    ensures
        joined(parts) == parts[0] + joined(parts.drop_first()),
{
    lemma_joined_one(parts[0]);
    lemma_joined_add(seq![parts[0]], parts.drop_first());
    assert(seq![parts[0]] + parts.drop_first() =~= parts);
}

/// The concatenation of a single text is that text.
pub proof fn lemma_joined_one(part: Seq<char>)
    ensures
        joined(seq![part]) == part,
{
    assert(seq![part] =~= Seq::<Seq<char>>::empty().push(part));
    lemma_joined_push(Seq::empty(), part);
    assert(Seq::<char>::empty() + part =~= part);
}

/// Copies the characters of a string.
pub fn chars_of(value: &str) -> (chars: Vec<char>)
    ensures
        chars@ == value@,
{
    let mut chars: Vec<char> = Vec::new();
    for c in iter: value.chars()
        invariant
            chars@ == value@.take(iter.index() as int),
            iter.seq() == value@,
    {
        chars.push(c);
    }
    chars
}

/// Builds a string from the characters at positions `from..to`.
pub fn string_of(chars: &Vec<char>, from: usize, to: usize) -> (value: String)
    requires
        from <= to <= chars@.len(),
    ensures
        value@ == chars@.subrange(from as int, to as int),
{
    let mut value = String::new();
    let mut i: usize = from;
    while i < to
        invariant
            from <= i <= to <= chars@.len(),
            value@ == chars@.subrange(from as int, i as int),
        decreases to - i,
    {
        value.push(chars[i]);
        i += 1;
    }
    value
}

/// Compares two texts.
pub fn same(left: &str, right: &str) -> (equal: bool)
    ensures
        equal == (left@ == right@),
{
    left.to_owned() == right.to_owned()
}

/// Copies a text.
pub fn copy(value: &str) -> (copied: String)
    ensures
        copied@ == value@,
{
    value.to_owned()
}

/// Copies an optional text.
pub fn copy_opt(value: &Option<String>) -> (copied: Option<String>)
    ensures
        opt_text(copied) == opt_text(*value),
{
    match value {
        Some(text) => Some(copy(text.as_str())),
        None => None,
    }
}

/// Concatenates two texts.
pub fn join2(a: &str, b: &str) -> (value: String)
    ensures
        value@ == a@ + b@,
{
    a.to_owned().concat(b)
}

/// Concatenates three texts.
pub fn join3(a: &str, b: &str, c: &str) -> (value: String)
    ensures
        value@ == a@ + b@ + c@,
{
    a.to_owned().concat(b).concat(c)
}

/// Concatenates four texts.
pub fn join4(a: &str, b: &str, c: &str, d: &str) -> (value: String)
    ensures
        value@ == a@ + b@ + c@ + d@,
{
    a.to_owned().concat(b).concat(c).concat(d)
}

/// Concatenates five texts.
pub fn join5(a: &str, b: &str, c: &str, d: &str, e: &str) -> (value: String)
    ensures
        value@ == a@ + b@ + c@ + d@ + e@,
{
    a.to_owned().concat(b).concat(c).concat(d).concat(e)
}

/// Characters with the Unicode `White_Space` property.
pub open spec fn is_space(c: char) -> bool {
    let n = c as u32;
    ||| 0x09 <= n <= 0x0d
    ||| n == 0x20
    ||| n == 0x85
    ||| n == 0xa0
    ||| n == 0x1680
    ||| 0x2000 <= n <= 0x200a
    ||| n == 0x2028
    ||| n == 0x2029
    ||| n == 0x202f
    ||| n == 0x205f
    ||| n == 0x3000
}

/// Tests a character for the Unicode `White_Space` property.
pub fn char_is_space(c: char) -> (space: bool)
    ensures
        space == is_space(c),
{
    let n: u32 = c as u32;
    (0x09 <= n && n <= 0x0d) || n == 0x20 || n == 0x85 || n == 0xa0 || n == 0x1680 || (0x2000 <= n
        && n <= 0x200a) || n == 0x2028 || n == 0x2029 || n == 0x202f || n == 0x205f || n == 0x3000
}

/// Characters in the Unicode general category `Cc`.
pub open spec fn is_control(c: char) -> bool {
    let n = c as u32;
    n <= 0x1f || 0x7f <= n <= 0x9f
}

/// Tests a character for the Unicode general category `Cc`.
pub fn char_is_control(c: char) -> (control: bool)
    ensures
        control == is_control(c),
{
    let n: u32 = c as u32;
    n <= 0x1f || (0x7f <= n && n <= 0x9f)
}

/// A text without its leading white space.
pub open spec fn trim_start(s: Seq<char>) -> Seq<char>
    decreases s.len(),
{
    if s.len() > 0 && is_space(s[0]) {
        trim_start(s.drop_first())
    } else {
        s
    }
}

/// A text without its trailing white space.
pub open spec fn trim_end(s: Seq<char>) -> Seq<char>
    decreases s.len(),
{
    if s.len() > 0 && is_space(s.last()) {
        trim_end(s.drop_last())
    } else {
        s
    }
}

/// A text without leading and trailing white space.
pub open spec fn trimmed(s: Seq<char>) -> Seq<char> {
    trim_end(trim_start(s))
}

/// A text that holds only white space.
pub open spec fn is_blank(s: Seq<char>) -> bool {
    forall|i: int| 0 <= i < s.len() ==> is_space(#[trigger] s[i])
}

proof fn lemma_trim_start_blank(s: Seq<char>)
    ensures
        trim_start(s).len() == 0 <==> is_blank(s),
    decreases s.len(),
{
    if s.len() > 0 && is_space(s[0]) {
        lemma_trim_start_blank(s.drop_first());
        if is_blank(s.drop_first()) {
            assert forall|i: int| 0 <= i < s.len() implies is_space(#[trigger] s[i]) by {
                if i > 0 {
                    assert(s[i] == s.drop_first()[i - 1]);
                }
            }
        } else {
            assert(forall|i: int|
                0 <= i < s.drop_first().len() ==> s.drop_first()[i] == #[trigger] s[i + 1]);
        }
    }
}

proof fn lemma_trim_end_keeps_head(s: Seq<char>)
    requires
        s.len() > 0,
        !is_space(s[0]),
    ensures
        trim_end(s).len() > 0,
        trim_end(s)[0] == s[0],
    decreases s.len(),
{
    if is_space(s.last()) {
        lemma_trim_end_keeps_head(s.drop_last());
    }
}

proof fn lemma_trim_start_head(s: Seq<char>)
    ensures
        trim_start(s).len() > 0 ==> !is_space(trim_start(s)[0]),
        trim_start(s).len() <= s.len(),
    decreases s.len(),
{
    if s.len() > 0 && is_space(s[0]) {
        lemma_trim_start_head(s.drop_first());
    }
}

/// Trimming leaves a text without outer white space as it is.
pub proof fn lemma_trimmed_fixed(s: Seq<char>)
    requires
        s.len() == 0 || (!is_space(s[0]) && !is_space(s.last())),
    ensures
        trimmed(s) == s,
{
}

proof fn lemma_trim_start_step(s: Seq<char>, from: int)
    requires
        0 <= from < s.len(),
        is_space(s[from]),
    ensures
        trim_start(s.skip(from)) == trim_start(s.skip(from + 1)),
{
    assert(s.skip(from).drop_first() =~= s.skip(from + 1));
}

proof fn lemma_trim_end_step(s: Seq<char>, from: int, to: int)
    requires
        0 <= from < to <= s.len(),
        is_space(s[to - 1]),
    ensures
        trim_end(s.subrange(from, to)) == trim_end(s.subrange(from, to - 1)),
{
    assert(s.subrange(from, to).drop_last() =~= s.subrange(from, to - 1));
}

/// Finds the first character that is no white space.
pub fn first_visible(value: &str) -> (found: Option<char>)
    ensures
        match found {
            Some(c) => !is_blank(value@) && c == trim_start(value@)[0],
            None => is_blank(value@),
        },
{
    let chars = chars_of(value);
    let mut from: usize = 0;
    assert(chars@.skip(0) =~= chars@);
    while from < chars.len()
        invariant
            from <= chars@.len(),
            chars@ == value@,
            trim_start(value@) == trim_start(chars@.skip(from as int)),
        decreases chars@.len() - from,
    {
        if !char_is_space(chars[from]) {
            proof {
                lemma_trim_start_blank(value@);
            }
            return Some(chars[from]);
        }
        proof {
            lemma_trim_start_step(chars@, from as int);
        }
        from += 1;
    }
    proof {
        lemma_trim_start_blank(value@);
    }
    None
}

/// Removes leading and trailing white space.
pub fn trim(value: &str) -> (result: String)
    ensures
        result@ == trimmed(value@),
{
    let chars = chars_of(value);
    let mut from: usize = 0;
    assert(chars@.skip(0) =~= chars@);
    while from < chars.len() && char_is_space(chars[from])
        invariant
            from <= chars@.len(),
            trim_start(chars@.skip(from as int)) == trim_start(chars@),
        decreases chars@.len() - from,
    {
        proof {
            lemma_trim_start_step(chars@, from as int);
        }
        from += 1;
    }
    let mut to: usize = chars.len();
    assert(chars@.skip(from as int) =~= chars@.subrange(from as int, to as int));
    while to > from && char_is_space(chars[to - 1])
        invariant
            from <= to <= chars@.len(),
            trim_end(chars@.subrange(from as int, to as int)) == trimmed(chars@),
        decreases to,
    {
        proof {
            lemma_trim_end_step(chars@, from as int, to as int);
        }
        to -= 1;
    }
    string_of(&chars, from, to)
}

/// Reports whether a text holds only white space.
pub fn blank(value: &str) -> (result: bool)
    ensures
        result == is_blank(value@),
{
    for c in iter: value.chars()
        invariant
            iter.seq() == value@,
            forall|i: int| 0 <= i < iter.index() ==> is_space(#[trigger] value@[i]),
    {
        if !char_is_space(c) {
            assert(value@[iter.index() as int] == c);
            return false;
        }
    }
    true
}

/// A text cut to at most `limit` characters, ending in an ellipsis when cut.
pub open spec fn ellipsized(s: Seq<char>, limit: nat) -> Seq<char> {
    if s.len() <= limit {
        s
    } else if limit == 0 {
        seq!['…']
    } else {
        s.take(limit - 1).push('…')
    }
}

/// Truncates without splitting a Unicode scalar value.
pub fn truncate_end(value: &str, limit: usize) -> (result: String)
    ensures
        result@ == ellipsized(value@, limit as nat),
{
    if value.unicode_len() <= limit {
        return copy(value);
    }
    let keep: usize = if limit == 0 {
        0
    } else {
        limit - 1
    };
    let mut result = copy(value.substring_char(0, keep));
    result.push('…');
    result
}

/// The first `limit` characters of a text.
pub open spec fn capped(s: Seq<char>, limit: nat) -> Seq<char> {
    if s.len() <= limit {
        s
    } else {
        s.take(limit as int)
    }
}

/// Keeps the first `limit` characters.
pub fn cap(value: &str, limit: usize) -> (result: String)
    ensures
        result@ == capped(value@, limit as nat),
{
    if value.unicode_len() <= limit {
        copy(value)
    } else {
        copy(value.substring_char(0, limit))
    }
}

/// A text in which one character is replaced by another.
pub open spec fn replaced(s: Seq<char>, from: char, to: char) -> Seq<char> {
    s.map_values(
        |c: char|
            if c == from {
                to
            } else {
                c
            },
    )
}

/// Replaces every occurrence of one character by another.
pub fn replace_char(value: &str, from: char, to: char) -> (result: String)
    ensures
        result@ == replaced(value@, from, to),
{
    let mut result = String::new();
    for c in iter: value.chars()
        invariant
            iter.seq() == value@,
            result@ == replaced(value@, from, to).take(iter.index() as int),
    {
        result.push(
            if c == from {
                to
            } else {
                c
            },
        );
    }
    assert(replaced(value@, from, to).take(value@.len() as int) =~= replaced(value@, from, to));
    result
}

/// A text in which control characters are replaced by spaces.
pub open spec fn without_controls(s: Seq<char>) -> Seq<char> {
    s.map_values(
        |c: char|
            if is_control(c) {
                ' '
            } else {
                c
            },
    )
}

/// Replaces control characters by spaces.
pub fn blank_controls(value: &str) -> (result: String)
    ensures
        result@ == without_controls(value@),
{
    let mut result = String::new();
    for c in iter: value.chars()
        invariant
            iter.seq() == value@,
            result@ == without_controls(value@).take(iter.index() as int),
    {
        result.push(
            if char_is_control(c) {
                ' '
            } else {
                c
            },
        );
    }
    assert(without_controls(value@).take(value@.len() as int) =~= without_controls(value@));
    result
}

/// A text without two given characters.
pub open spec fn without2(s: Seq<char>, first: char, second: char) -> Seq<char>
    decreases s.len(),
{
    if s.len() == 0 {
        s
    } else if s.last() == first || s.last() == second {
        without2(s.drop_last(), first, second)
    } else {
        without2(s.drop_last(), first, second).push(s.last())
    }
}

/// Removes every occurrence of two characters.
pub fn remove2(value: &str, first: char, second: char) -> (result: String)
    ensures
        result@ == without2(value@, first, second),
{
    let mut result = String::new();
    for c in iter: value.chars()
        invariant
            iter.seq() == value@,
            result@ == without2(value@.take(iter.index() as int), first, second),
    {
        proof {
            assert(value@.take(iter.index() + 1).drop_last() =~= value@.take(iter.index() as int));
        }
        if c != first && c != second {
            result.push(c);
        }
    }
    assert(value@.take(value@.len() as int) =~= value@);
    result
}

/// `needle` occurs in `s` at position `at`.
pub open spec fn occurs_at(s: Seq<char>, needle: Seq<char>, at: int) -> bool {
    &&& 0 <= at
    &&& at + needle.len() <= s.len()
    &&& s.subrange(at, at + needle.len()) == needle
}

/// `needle` occurs in `s`.
pub open spec fn contains(s: Seq<char>, needle: Seq<char>) -> bool {
    exists|at: int| #[trigger] occurs_at(s, needle, at)
}

fn matches_at(chars: &Vec<char>, needle: &Vec<char>, at: usize) -> (found: bool)
    requires
        at <= chars@.len(),
    ensures
        found == occurs_at(chars@, needle@, at as int),
{
    if needle.len() > chars.len() - at {
        return false;
    }
    let mut i: usize = 0;
    while i < needle.len()
        invariant
            i <= needle@.len(),
            at + needle@.len() <= chars.len(),
            forall|j: int| 0 <= j < i ==> #[trigger] needle@[j] == chars@[at + j],
        decreases needle@.len() - i,
    {
        if needle[i] != chars[at + i] {
            assert(chars@.subrange(at as int, at + needle@.len())[i as int] != needle@[i as int]);
            return false;
        }
        i += 1;
    }
    assert(chars@.subrange(at as int, at + needle@.len()) =~= needle@);
    true
}

/// Reports whether `needle` occurs in `value`.
pub fn has(value: &str, needle: &str) -> (found: bool)
    ensures
        found == contains(value@, needle@),
{
    let chars = chars_of(value);
    let wanted = chars_of(needle);
    let mut at: usize = 0;
    loop
        invariant
            chars@ == value@,
            wanted@ == needle@,
            at <= chars@.len(),
            forall|i: int| 0 <= i < at ==> !#[trigger] occurs_at(value@, needle@, i),
        decreases chars@.len() - at,
    {
        if matches_at(&chars, &wanted, at) {
            return true;
        }
        if at == chars.len() {
            return false;
        }
        at += 1;
    }
}

/// `prefix` starts `s`.
pub open spec fn starts_with(s: Seq<char>, prefix: Seq<char>) -> bool {
    occurs_at(s, prefix, 0)
}

/// `suffix` ends `s`.
pub open spec fn ends_with(s: Seq<char>, suffix: Seq<char>) -> bool {
    occurs_at(s, suffix, s.len() - suffix.len())
}

/// Reports whether `value` starts with `prefix`.
pub fn starts(value: &str, prefix: &str) -> (result: bool)
    ensures
        result == starts_with(value@, prefix@),
{
    matches_at(&chars_of(value), &chars_of(prefix), 0)
}

/// Tells whether a text ends with another one.
pub fn ends(value: &str, suffix: &str) -> (result: bool)
    ensures
        result == ends_with(value@, suffix@),
{
    let length = value.unicode_len();
    let count = suffix.unicode_len();
    if length < count {
        return false;
    }
    same(value.substring_char(length - count, length), suffix)
}

/// Removes `prefix` where `value` starts with it.
pub fn strip_start(value: &str, prefix: &str) -> (rest: Option<String>)
    ensures
        match rest {
            Some(text) => starts_with(value@, prefix@) && text@ == value@.skip(prefix@.len() as int),
            None => !starts_with(value@, prefix@),
        },
{
    let chars = chars_of(value);
    let head = chars_of(prefix);
    if matches_at(&chars, &head, 0) {
        let rest = string_of(&chars, head.len(), chars.len());
        assert(rest@ =~= value@.skip(prefix@.len() as int));
        Some(rest)
    } else {
        None
    }
}

/// The position of the first `c` in `s` at or after `from`, or the length.
pub open spec fn first_at(s: Seq<char>, c: char, from: int) -> int
    decreases s.len() - from,
{
    if from >= s.len() {
        s.len() as int
    } else if s[from] == c {
        from
    } else {
        first_at(s, c, from + 1)
    }
}

/// What `first_at` finds is the first occurrence.
pub proof fn lemma_first_at(s: Seq<char>, c: char, from: int)
    requires
        0 <= from <= s.len(),
    ensures
        from <= first_at(s, c, from) <= s.len(),
        first_at(s, c, from) < s.len() ==> s[first_at(s, c, from)] == c,
        forall|i: int| from <= i < first_at(s, c, from) ==> s[i] != c,
    decreases s.len() - from,
{
    if from < s.len() && s[from] != c {
        lemma_first_at(s, c, from + 1);
    }
}

/// A position before which `c` does not occur, and at which it does or the
/// text ends, is the one `first_at` finds.
pub proof fn lemma_first_at_unique(s: Seq<char>, c: char, from: int, at: int)
    requires
        0 <= from <= at <= s.len(),
        at < s.len() ==> s[at] == c,
        forall|i: int| from <= i < at ==> s[i] != c,
    ensures
        first_at(s, c, from) == at,
    decreases s.len() - from,
{
    if from < at {
        lemma_first_at_unique(s, c, from + 1, at);
    }
}

/// Finds the first `c` at or after `from`, or the length.
pub fn find_char(chars: &Vec<char>, c: char, from: usize) -> (at: usize)
    requires
        from <= chars@.len(),
    ensures
        at == first_at(chars@, c, from as int),
        from <= at <= chars@.len(),
        at < chars@.len() ==> chars@[at as int] == c,
        forall|i: int| from <= i < at ==> chars@[i] != c,
{
    let mut at: usize = from;
    while at < chars.len() && chars[at] != c
        invariant
            from <= at <= chars@.len(),
            forall|i: int| from <= i < at ==> chars@[i] != c,
        decreases chars@.len() - at,
    {
        at += 1;
    }
    proof {
        lemma_first_at_unique(chars@, c, from as int, at as int);
    }
    at
}

/// A lower-case ASCII letter for an upper-case one, any other character as is.
pub open spec fn ascii_lower(c: char) -> char {
    if 'A' <= c && c <= 'Z' {
        (c as u32 + 32) as char
    } else {
        c
    }
}

/// A text with its ASCII letters in lower case.
pub open spec fn ascii_lowered(s: Seq<char>) -> Seq<char> {
    s.map_values(|c: char| ascii_lower(c))
}

/// Lowers an ASCII letter.
pub fn lower_char(c: char) -> (result: char)
    ensures
        result == ascii_lower(c),
{
    if 'A' <= c && c <= 'Z' {
        let n: u8 = c as u8 + 32;
        n as char
    } else {
        c
    }
}

/// Lowers the ASCII letters of a text.
pub fn to_ascii_lowercase(value: &str) -> (result: String)
    ensures
        result@ == ascii_lowered(value@),
{
    let chars = chars_of(value);
    let mut result = String::new();
    let mut i: usize = 0;
    assert(ascii_lowered(value@.take(0)) =~= Seq::<char>::empty());
    while i < chars.len()
        invariant
            chars@ == value@,
            i <= chars@.len(),
            result@ == ascii_lowered(value@.take(i as int)),
        decreases chars@.len() - i,
    {
        result.push(lower_char(chars[i]));
        i += 1;
        assert(result@ =~= ascii_lowered(value@.take(i as int)));
    }
    assert(value@.take(i as int) =~= value@);
    result
}

/// Compares two texts without regard to the case of ASCII letters.
pub fn same_ignoring_case(left: &str, right: &str) -> (equal: bool)
    ensures
        equal == (ascii_lowered(left@) == ascii_lowered(right@)),
{
    let a = chars_of(left);
    let b = chars_of(right);
    if a.len() != b.len() {
        assert(ascii_lowered(left@).len() != ascii_lowered(right@).len());
        return false;
    }
    let mut i: usize = 0;
    while i < a.len()
        invariant
            a@ == left@,
            b@ == right@,
            a@.len() == b@.len(),
            i <= a@.len(),
            forall|j: int| 0 <= j < i ==> ascii_lower(#[trigger] a@[j]) == ascii_lower(b@[j]),
        decreases a@.len() - i,
    {
        if lower_char(a[i]) != lower_char(b[i]) {
            assert(ascii_lowered(left@)[i as int] != ascii_lowered(right@)[i as int]);
            return false;
        }
        i += 1;
    }
    assert(ascii_lowered(left@) =~= ascii_lowered(right@));
    true
}

/// What `str::to_lowercase` returns for a text.
pub uninterp spec fn lowercase(s: Seq<char>) -> Seq<char>;

/// `str::to_lowercase`: the lower-case equivalent by Unicode's derived
/// property `Lowercase`, a function of the text alone.
#[verifier::external_body]
pub(crate) fn to_lowercase(value: &str) -> (result: String)
    ensures
        result@ == lowercase(value@),
{
    value.to_lowercase()
}

/// The order of texts by their characters.
pub open spec fn precedes(left: Seq<char>, right: Seq<char>) -> bool
    decreases left.len(),
{
    if right.len() == 0 {
        false
    } else if left.len() == 0 {
        true
    } else if left[0] != right[0] {
        left[0] < right[0]
    } else {
        precedes(left.drop_first(), right.drop_first())
    }
}

/// No text precedes itself.
pub proof fn lemma_precedes_irreflexive(value: Seq<char>)
    ensures
        !precedes(value, value),
    decreases value.len(),
{
    if value.len() > 0 {
        lemma_precedes_irreflexive(value.drop_first());
    }
}

/// Of two different texts one precedes the other.
pub proof fn lemma_precedes_total(left: Seq<char>, right: Seq<char>)
    ensures
        left == right || precedes(left, right) || precedes(right, left),
    decreases left.len(),
{
    if left.len() > 0 && right.len() > 0 && left[0] == right[0] {
        lemma_precedes_total(left.drop_first(), right.drop_first());
        if left.drop_first() == right.drop_first() {
            assert(left =~= seq![left[0]] + left.drop_first());
            assert(right =~= seq![right[0]] + right.drop_first());
        }
    } else if left.len() == 0 && right.len() == 0 {
        assert(left =~= right);
    }
}

/// The order of texts is transitive.
pub proof fn lemma_precedes_transitive(a: Seq<char>, b: Seq<char>, c: Seq<char>)
    requires
        precedes(a, b),
        precedes(b, c),
    ensures
        precedes(a, c),
    decreases a.len(),
{
    if a.len() > 0 && b.len() > 0 && c.len() > 0 && a[0] == b[0] && b[0] == c[0] {
        lemma_precedes_transitive(a.drop_first(), b.drop_first(), c.drop_first());
    }
}

/// Reports whether a text precedes another.
pub fn comes_before(left: &str, right: &str) -> (result: bool)
    ensures
        result == precedes(left@, right@),
{
    let a = chars_of(left);
    let b = chars_of(right);
    let mut i: usize = 0;
    assert(a@.skip(0) =~= a@);
    assert(b@.skip(0) =~= b@);
    while i < a.len() && i < b.len() && a[i] == b[i]
        invariant
            i <= a@.len(),
            i <= b@.len(),
            precedes(left@, right@) == precedes(a@.skip(i as int), b@.skip(i as int)),
        decreases a@.len() - i,
    {
        proof {
            assert(a@.skip(i as int).drop_first() =~= a@.skip(i + 1));
            assert(b@.skip(i as int).drop_first() =~= b@.skip(i + 1));
        }
        i += 1;
    }
    if i == b.len() {
        false
    } else if i == a.len() {
        true
    } else {
        a[i] < b[i]
    }
}

/// A sorted list of texts with one more: where it belongs, unless it is there.
pub open spec fn with_text(sorted: Seq<Seq<char>>, value: Seq<char>) -> Seq<Seq<char>>
    decreases sorted.len(),
{
    if sorted.len() == 0 {
        seq![value]
    } else if sorted[0] == value {
        sorted
    } else if precedes(value, sorted[0]) {
        seq![value] + sorted
    } else {
        seq![sorted[0]] + with_text(sorted.drop_first(), value)
    }
}

/// The texts of a list, sorted and without repetition.
pub open spec fn sorted_texts(values: Seq<Seq<char>>) -> Seq<Seq<char>>
    decreases values.len(),
{
    if values.len() == 0 {
        Seq::empty()
    } else {
        with_text(sorted_texts(values.drop_last()), values.last())
    }
}

/// Texts in increasing order.
pub open spec fn increasing(values: Seq<Seq<char>>) -> bool {
    forall|i: int, j: int|
        0 <= i < j < values.len() ==> precedes(#[trigger] values[i], #[trigger] values[j])
}

fn insert_text(sorted: &mut Vec<String>, value: String)
    ensures
        texts(final(sorted)@) == with_text(texts(old(sorted)@), value@),
{
    let ghost all = texts(sorted@);
    let ghost wanted = with_text(all, value@);
    let mut at: usize = 0;
    assert(all.skip(0) =~= all);
    assert(all.take(0) + with_text(all.skip(0), value@) =~= wanted);
    while at < sorted.len() && !same(sorted[at].as_str(), value.as_str()) && !comes_before(
        value.as_str(),
        sorted[at].as_str(),
    )
        invariant
            at <= sorted@.len(),
            all == texts(sorted@),
            all == texts(old(sorted)@),
            wanted == with_text(all, value@),
            all.take(at as int) + with_text(all.skip(at as int), value@) == wanted,
        decreases sorted@.len() - at,
    {
        proof {
            let rest = all.skip(at as int);
            assert(rest[0] == sorted@[at as int]@);
            assert(rest.drop_first() =~= all.skip(at + 1));
            let tail = with_text(all.skip(at + 1), value@);
            assert(all.take(at as int) + (seq![rest[0]] + tail) =~= all.take(at + 1) + tail);
        }
        at += 1;
    }
    let ghost rest = all.skip(at as int);
    if at < sorted.len() && same(sorted[at].as_str(), value.as_str()) {
        assert(rest[0] == value@);
        assert(all.take(at as int) + rest =~= all);
        return ;
    }
    sorted.insert(at, value);
    proof {
        assert(texts(sorted@) =~= all.insert(at as int, value@));
        if at < all.len() {
            assert(rest[0] == all[at as int]);
            assert(all.take(at as int) + (seq![value@] + rest) =~= all.insert(at as int, value@));
        } else {
            assert(rest =~= Seq::<Seq<char>>::empty());
            assert(all.take(at as int) + seq![value@] =~= all.insert(at as int, value@));
        }
    }
}

/// Sorts texts and removes repetitions.
pub fn sort_texts(values: &Vec<String>) -> (sorted: Vec<String>)
    ensures
        texts(sorted@) == sorted_texts(texts(values@)),
{
    let ghost all = texts(values@);
    let mut sorted: Vec<String> = Vec::new();
    let mut i: usize = 0;
    assert(texts(sorted@) =~= sorted_texts(all.take(0)));
    while i < values.len()
        invariant
            i <= values@.len(),
            all == texts(values@),
            texts(sorted@) == sorted_texts(all.take(i as int)),
        decreases values@.len() - i,
    {
        assert(all.take(i + 1).drop_last() =~= all.take(i as int));
        assert(all.take(i + 1).last() == values@[i as int]@);
        insert_text(&mut sorted, copy(values[i].as_str()));
        i += 1;
    }
    assert(all.take(i as int) =~= all);
    sorted
}

proof fn lemma_with_text(sorted: Seq<Seq<char>>, value: Seq<char>)
    requires
        increasing(sorted),
    ensures
        increasing(with_text(sorted, value)),
        forall|x: Seq<char>| #[trigger]
            with_text(sorted, value).contains(x) <==> sorted.contains(x) || x == value,
    decreases sorted.len(),
{
    let all = with_text(sorted, value);
    if sorted.len() == 0 {
        assert(all[0] == value);
        assert forall|x: Seq<char>| #[trigger] all.contains(x) <==> sorted.contains(x) || x
            == value by {
            if x == value {
                assert(all[0] == x);
            }
        }
    } else {
        let rest = sorted.drop_first();
        assert(increasing(rest)) by {
            assert forall|i: int, j: int| 0 <= i < j < rest.len() implies precedes(
                #[trigger] rest[i],
                #[trigger] rest[j],
            ) by {
                assert(rest[i] == sorted[i + 1] && rest[j] == sorted[j + 1]);
            }
        }
        if sorted[0] == value {
            assert forall|x: Seq<char>| #[trigger] all.contains(x) <==> sorted.contains(x) || x
                == value by {
                if x == value {
                    assert(sorted[0] == x);
                }
            }
        } else if precedes(value, sorted[0]) {
            assert forall|i: int, j: int| 0 <= i < j < all.len() implies precedes(
                #[trigger] all[i],
                #[trigger] all[j],
            ) by {
                assert(all[j] == sorted[j - 1]);
                if i == 0 {
                    if j > 1 {
                        lemma_precedes_transitive(value, sorted[0], sorted[j - 1]);
                    }
                } else {
                    assert(all[i] == sorted[i - 1]);
                }
            }
            assert forall|x: Seq<char>| #[trigger] all.contains(x) <==> sorted.contains(x) || x
                == value by {
                if x == value {
                    assert(all[0] == x);
                }
                if sorted.contains(x) {
                    let i = choose|i: int| 0 <= i < sorted.len() && sorted[i] == x;
                    assert(all[i + 1] == x);
                }
                if all.contains(x) {
                    let i = choose|i: int| 0 <= i < all.len() && all[i] == x;
                    if i > 0 {
                        assert(sorted[i - 1] == x);
                    }
                }
            }
        } else {
            lemma_precedes_total(value, sorted[0]);
            lemma_with_text(rest, value);
            let tail = with_text(rest, value);
            assert forall|i: int, j: int| 0 <= i < j < all.len() implies precedes(
                #[trigger] all[i],
                #[trigger] all[j],
            ) by {
                assert(all[j] == tail[j - 1]);
                if i == 0 {
                    assert(tail.contains(tail[j - 1]));
                    if tail[j - 1] != value {
                        let k = choose|k: int| 0 <= k < rest.len() && rest[k] == tail[j - 1];
                        assert(rest[k] == sorted[k + 1]);
                    }
                } else {
                    assert(all[i] == tail[i - 1]);
                }
            }
            assert forall|x: Seq<char>| #[trigger] all.contains(x) <==> sorted.contains(x) || x
                == value by {
                if all.contains(x) {
                    let i = choose|i: int| 0 <= i < all.len() && all[i] == x;
                    if i == 0 {
                        assert(sorted[0] == x);
                    } else {
                        assert(tail[i - 1] == x);
                        assert(tail.contains(x));
                        if x != value {
                            let k = choose|k: int| 0 <= k < rest.len() && rest[k] == x;
                            assert(sorted[k + 1] == x);
                        }
                    }
                }
                if sorted.contains(x) || x == value {
                    if x == sorted[0] {
                        assert(all[0] == x);
                    } else {
                        if sorted.contains(x) {
                            let k = choose|k: int| 0 <= k < sorted.len() && sorted[k] == x;
                            assert(rest[k - 1] == x);
                        }
                        assert(tail.contains(x));
                        let k = choose|k: int| 0 <= k < tail.len() && tail[k] == x;
                        assert(all[k + 1] == x);
                    }
                }
            }
        }
    }
}

/// Sorted texts increase and are the texts of the list.
pub proof fn sorted_texts_are_the_texts(values: Seq<Seq<char>>)
    ensures
        increasing(sorted_texts(values)),
        forall|x: Seq<char>| #[trigger] sorted_texts(values).contains(x) <==> values.contains(x),
    decreases values.len(),
{
    if values.len() > 0 {
        let before = sorted_texts(values.drop_last());
        sorted_texts_are_the_texts(values.drop_last());
        lemma_with_text(before, values.last());
        assert forall|x: Seq<char>| #[trigger] sorted_texts(values).contains(x)
            <==> values.contains(x) by {
            assert(with_text(before, values.last()).contains(x) <==> before.contains(x) || x
                == values.last());
            assert(before.contains(x) <==> values.drop_last().contains(x));
            if values.contains(x) {
                let i = choose|i: int| 0 <= i < values.len() && values[i] == x;
                if i < values.len() - 1 {
                    assert(values.drop_last()[i] == x);
                }
            }
            if values.drop_last().contains(x) {
                let i = choose|i: int|
                    0 <= i < values.drop_last().len() && values.drop_last()[i] == x;
                assert(values[i] == x);
            }
        }
    }
}

/// A list of keyed texts with one more: behind all whose keys do not come after
/// its own.
pub open spec fn with_keyed(
    sorted: Seq<(Seq<char>, Seq<char>)>,
    item: (Seq<char>, Seq<char>),
) -> Seq<(Seq<char>, Seq<char>)>
    decreases sorted.len(),
{
    if sorted.len() == 0 {
        seq![item]
    } else if precedes(item.0, sorted[0].0) {
        seq![item] + sorted
    } else {
        seq![sorted[0]] + with_keyed(sorted.drop_first(), item)
    }
}

/// Keyed texts in the order of their keys; those with the same key stay in their
/// order.
pub open spec fn sorted_keyed(items: Seq<(Seq<char>, Seq<char>)>) -> Seq<(Seq<char>, Seq<char>)>
    decreases items.len(),
{
    if items.len() == 0 {
        Seq::empty()
    } else {
        with_keyed(sorted_keyed(items.drop_last()), items.last())
    }
}

/// The content of keyed texts.
pub open spec fn keyed_views(items: Seq<(String, String)>) -> Seq<(Seq<char>, Seq<char>)> {
    items.map_values(|item: (String, String)| (item.0@, item.1@))
}

/// No key comes after a later one.
pub open spec fn keys_in_order(items: Seq<(Seq<char>, Seq<char>)>) -> bool {
    forall|i: int, j: int|
        0 <= i < j < items.len() ==> !precedes(
            (#[trigger] items[j]).0,
            (#[trigger] items[i]).0,
        )
}

fn insert_keyed(sorted: &mut Vec<(String, String)>, item: (String, String))
    ensures
        keyed_views(final(sorted)@) == with_keyed(keyed_views(old(sorted)@), (item.0@, item.1@)),
{
    let ghost all = keyed_views(sorted@);
    let ghost added = (item.0@, item.1@);
    let ghost wanted = with_keyed(all, added);
    let mut at: usize = 0;
    assert(all.skip(0) =~= all);
    assert(all.take(0) + with_keyed(all.skip(0), added) =~= wanted);
    while at < sorted.len() && !comes_before(item.0.as_str(), sorted[at].0.as_str())
        invariant
            at <= sorted@.len(),
            all == keyed_views(sorted@),
            all == keyed_views(old(sorted)@),
            added == (item.0@, item.1@),
            wanted == with_keyed(all, added),
            all.take(at as int) + with_keyed(all.skip(at as int), added) == wanted,
        decreases sorted@.len() - at,
    {
        proof {
            let rest = all.skip(at as int);
            assert(rest[0] == (sorted@[at as int].0@, sorted@[at as int].1@));
            assert(rest.drop_first() =~= all.skip(at + 1));
            let tail = with_keyed(all.skip(at + 1), added);
            assert(all.take(at as int) + (seq![rest[0]] + tail) =~= all.take(at + 1) + tail);
        }
        at += 1;
    }
    let ghost rest = all.skip(at as int);
    sorted.insert(at, item);
    proof {
        assert(keyed_views(sorted@) =~= all.insert(at as int, added));
        if at < all.len() {
            assert(rest[0] == all[at as int]);
            assert(all.take(at as int) + (seq![added] + rest) =~= all.insert(at as int, added));
        } else {
            assert(rest =~= Seq::<(Seq<char>, Seq<char>)>::empty());
            assert(all.take(at as int) + seq![added] =~= all.insert(at as int, added));
        }
    }
}

/// Sorts keyed texts by their keys, without disturbing the order of equal keys.
pub fn sort_keyed(items: Vec<(String, String)>) -> (sorted: Vec<(String, String)>)
    ensures
        keyed_views(sorted@) == sorted_keyed(keyed_views(items@)),
{
    let ghost all = keyed_views(items@);
    let mut items = items;
    let mut sorted: Vec<(String, String)> = Vec::new();
    let ghost mut done: int = 0;
    assert(keyed_views(sorted@) =~= sorted_keyed(all.take(0)));
    while items.len() > 0
        invariant
            0 <= done <= all.len(),
            items@.len() == all.len() - done,
            keyed_views(items@) == all.skip(done),
            keyed_views(sorted@) == sorted_keyed(all.take(done)),
        decreases items@.len(),
    {
        let ghost rest = keyed_views(items@);
        let item = items.remove(0);
        proof {
            assert(rest[0] == (item.0@, item.1@));
            assert(keyed_views(items@) =~= rest.drop_first());
            assert(rest.drop_first() =~= all.skip(done + 1));
            assert(all.take(done + 1).drop_last() =~= all.take(done));
            assert(all.take(done + 1).last() == rest[0]);
            done = done + 1;
        }
        insert_keyed(&mut sorted, item);
    }
    assert(all.take(done) =~= all);
    sorted
}

proof fn lemma_with_keyed(sorted: Seq<(Seq<char>, Seq<char>)>, item: (Seq<char>, Seq<char>))
    requires
        keys_in_order(sorted),
    ensures
        keys_in_order(with_keyed(sorted, item)),
        with_keyed(sorted, item).to_multiset() == sorted.to_multiset().insert(item),
        forall|i: int|
            0 <= i < with_keyed(sorted, item).len() ==> (#[trigger] with_keyed(sorted, item)[i])
                == item || sorted.contains(with_keyed(sorted, item)[i]),
    decreases sorted.len(),
{
    broadcast use vstd::seq_lib::group_to_multiset_ensures;

    let all = with_keyed(sorted, item);
    if sorted.len() == 0 {
        assert(all =~= sorted.push(item));
    } else if precedes(item.0, sorted[0].0) {
        assert forall|i: int, j: int| 0 <= i < j < all.len() implies !precedes(
            (#[trigger] all[j]).0,
            (#[trigger] all[i]).0,
        ) by {
            assert(all[j] == sorted[j - 1]);
            if i == 0 {
                if precedes(all[j].0, item.0) {
                    lemma_precedes_transitive(all[j].0, item.0, sorted[0].0);
                    if j == 1 {
                        lemma_precedes_irreflexive(sorted[0].0);
                    } else {
                        assert(!precedes(sorted[j - 1].0, sorted[0].0));
                    }
                }
            } else {
                assert(all[i] == sorted[i - 1]);
            }
        }
        assert(all =~= sorted.insert(0, item));
        sorted.to_multiset_ensures();
        vstd::seq_lib::lemma_multiset_commutative(seq![item], sorted);
        assert(seq![item] =~= Seq::empty().push(item));
        assert(all.to_multiset() =~= sorted.to_multiset().insert(item));
        assert forall|i: int| 0 <= i < all.len() implies (#[trigger] all[i]) == item
            || sorted.contains(all[i]) by {
            if i > 0 {
                assert(all[i] == sorted[i - 1]);
            }
        }
    } else {
        let rest = sorted.drop_first();
        assert(keys_in_order(rest)) by {
            assert forall|i: int, j: int| 0 <= i < j < rest.len() implies !precedes(
                (#[trigger] rest[j]).0,
                (#[trigger] rest[i]).0,
            ) by {
                assert(rest[i] == sorted[i + 1] && rest[j] == sorted[j + 1]);
            }
        }
        lemma_with_keyed(rest, item);
        let tail = with_keyed(rest, item);
        assert forall|i: int, j: int| 0 <= i < j < all.len() implies !precedes(
            (#[trigger] all[j]).0,
            (#[trigger] all[i]).0,
        ) by {
            assert(all[j] == tail[j - 1]);
            if i == 0 {
                assert(tail[j - 1] == item || rest.contains(tail[j - 1]));
                if tail[j - 1] != item {
                    let k = choose|k: int| 0 <= k < rest.len() && rest[k] == tail[j - 1];
                    assert(rest[k] == sorted[k + 1]);
                }
            } else {
                assert(all[i] == tail[i - 1]);
            }
        }
        vstd::seq_lib::lemma_multiset_commutative(seq![sorted[0]], rest);
        vstd::seq_lib::lemma_multiset_commutative(seq![sorted[0]], tail);
        assert(seq![sorted[0]] + rest =~= sorted);
        assert(seq![sorted[0]] =~= Seq::empty().push(sorted[0]));
        assert(all.to_multiset() =~= sorted.to_multiset().insert(item));
        assert forall|i: int| 0 <= i < all.len() implies (#[trigger] all[i]) == item
            || sorted.contains(all[i]) by {
            if i == 0 {
                assert(sorted[0] == all[0]);
            } else {
                assert(all[i] == tail[i - 1]);
                if tail[i - 1] != item {
                    let k = choose|k: int| 0 <= k < rest.len() && rest[k] == tail[i - 1];
                    assert(sorted[k + 1] == all[i]);
                }
            }
        }
    }
}

/// Sorting keeps the texts, each as often as before, and brings their keys into
/// order.
pub proof fn sorting_keeps_the_texts(items: Seq<(Seq<char>, Seq<char>)>)
    ensures
        keys_in_order(sorted_keyed(items)),
        sorted_keyed(items).to_multiset() == items.to_multiset(),
    decreases items.len(),
{
    broadcast use vstd::seq_lib::group_to_multiset_ensures;

    if items.len() > 0 {
        sorting_keeps_the_texts(items.drop_last());
        lemma_with_keyed(sorted_keyed(items.drop_last()), items.last());
        assert(items.drop_last().push(items.last()) =~= items);
    } else {
        assert(items =~= Seq::empty());
    }
}

/// The position of the first character at or after `from` that is white space, or
/// is not, or the length.
pub open spec fn next_space(s: Seq<char>, from: int, space: bool) -> int
    decreases s.len() - from,
{
    if from < 0 || from >= s.len() {
        s.len() as int
    } else if is_space(s[from]) == space {
        from
    } else {
        next_space(s, from + 1, space)
    }
}

/// What `next_space` finds.
pub proof fn lemma_next_space(s: Seq<char>, from: int, space: bool)
    requires
        0 <= from <= s.len(),
    ensures
        from <= next_space(s, from, space) <= s.len(),
        next_space(s, from, space) < s.len() ==> is_space(s[next_space(s, from, space)]) == space,
        from < s.len() && is_space(s[from]) != space ==> next_space(s, from, space) > from,
    decreases s.len() - from,
{
    if from < s.len() && is_space(s[from]) != space {
        lemma_next_space(s, from + 1, space);
    }
}

/// The words of a text from a position on: what white space separates.
pub open spec fn words_from(s: Seq<char>, from: int) -> Seq<Seq<char>>
    decreases s.len() - from,
{
    if from < 0 || from > s.len() {
        Seq::empty()
    } else {
        let start = next_space(s, from, false);
        let end = next_space(s, start, true);
        if start >= s.len() {
            Seq::empty()
        } else {
            proof {
                lemma_next_space(s, from, false);
                lemma_next_space(s, start, true);
            }
            seq![s.subrange(start, end)] + words_from(s, end)
        }
    }
}

/// The words of a text.
pub open spec fn words(s: Seq<char>) -> Seq<Seq<char>> {
    words_from(s, 0)
}

fn find_space(chars: &Vec<char>, from: usize, space: bool) -> (at: usize)
    requires
        from <= chars@.len(),
    ensures
        at == next_space(chars@, from as int, space),
        from <= at <= chars@.len(),
{
    let mut at: usize = from;
    while at < chars.len() && char_is_space(chars[at]) != space
        invariant
            from <= at <= chars@.len(),
            next_space(chars@, from as int, space) == next_space(chars@, at as int, space),
        decreases chars@.len() - at,
    {
        at += 1;
    }
    at
}

/// Splits a text at white space.
pub fn split_whitespace(value: &str) -> (parts: Vec<String>)
    ensures
        texts(parts@) == words(value@),
{
    let chars = chars_of(value);
    let mut parts: Vec<String> = Vec::new();
    let mut from: usize = 0;
    assert(texts(parts@) + words_from(value@, 0) =~= words(value@));
    loop
        invariant
            chars@ == value@,
            from <= chars@.len(),
            texts(parts@) + words_from(value@, from as int) == words(value@),
        decreases chars@.len() - from,
    {
        let start = find_space(&chars, from, false);
        if start >= chars.len() {
            assert(words_from(value@, from as int) =~= Seq::<Seq<char>>::empty());
            assert(texts(parts@) =~= words(value@));
            return parts;
        }
        proof {
            lemma_next_space(value@, from as int, false);
            lemma_next_space(value@, start as int, true);
        }
        let end = find_space(&chars, start, true);
        let ghost before = texts(parts@);
        let word = string_of(&chars, start, end);
        let ghost added = word@;
        parts.push(word);
        proof {
            assert(texts(parts@) =~= before.push(added));
            let rest = words_from(value@, end as int);
            assert(before + (seq![added] + rest) =~= before.push(added) + rest);
        }
        from = end;
    }
}

/// What `String::from_utf8_lossy` makes of bytes.
pub uninterp spec fn lossy_text(bytes: Seq<u8>) -> Seq<char>;

/// `String::from_utf8_lossy`: the text of bytes, with a replacement character for
/// each invalid sequence, a function of the bytes alone.
#[verifier::external_body]
pub(crate) fn from_utf8_lossy(bytes: &Vec<u8>) -> (value: String)
    ensures
        value@ == lossy_text(bytes@),
{
    String::from_utf8_lossy(bytes).into_owned()
}

/// Whether a text is among others.
pub fn among(values: &Vec<String>, wanted: &str) -> (found: bool)
    ensures
        found == texts(values@).contains(wanted@),
{
    let ghost all = texts(values@);
    let mut i: usize = 0;
    while i < values.len()
        invariant
            i <= values@.len(),
            all == texts(values@),
            forall|j: int| 0 <= j < i ==> (#[trigger] all[j]) != wanted@,
        decreases values@.len() - i,
    {
        if same(values[i].as_str(), wanted) {
            assert(all[i as int] == wanted@);
            return true;
        }
        i += 1;
    }
    false
}

} // verus!
