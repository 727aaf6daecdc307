//! Decimal numbers in text.

use vstd::prelude::*;

use crate::text;

verus! {

/// The decimal digit of a number below ten.
pub open spec fn digit(n: nat) -> char {
    ('0' as u32 + n) as char
}

/// The decimal form of a number.
pub open spec fn decimal(n: nat) -> Seq<char>
    decreases n,
{
    if n < 10 {
        seq![digit(n)]
    } else {
        decimal(n / 10).push(digit(n % 10))
    }
}

/// The decimal form of an integer, with a minus sign where it is negative.
pub open spec fn signed_decimal(n: int) -> Seq<char> {
    if n < 0 {
        seq!['-'] + decimal((-n) as nat)
    } else {
        decimal(n as nat)
    }
}

/// Characters that are ASCII digits.
pub open spec fn is_digit(c: char) -> bool {
    '0' <= c && c <= '9'
}

/// Texts that consist of at least one digit and nothing else.
pub open spec fn is_digits(s: Seq<char>) -> bool {
    s.len() > 0 && forall|i: int| 0 <= i < s.len() ==> is_digit(#[trigger] s[i])
}

/// The number that a text of digits stands for.
pub open spec fn digits_value(s: Seq<char>) -> nat
    decreases s.len(),
{
    if s.len() == 0 {
        0
    } else {
        digits_value(s.drop_last()) * 10 + (s.last() as u32 - '0' as u32) as nat
    }
}

/// A text without one leading plus sign that something follows.
pub open spec fn without_plus(s: Seq<char>) -> Seq<char> {
    if s.len() > 1 && s[0] == '+' {
        s.skip(1)
    } else {
        s
    }
}

/// The number that a text holds, where it is at most `max`.
pub open spec fn unsigned_in(s: Seq<char>, max: nat) -> Option<nat> {
    let digits = without_plus(s);
    if is_digits(digits) && digits_value(digits) <= max {
        Some(digits_value(digits))
    } else {
        None
    }
}

/// The integer that a text holds, where it lies within 64 bits.
pub open spec fn signed_in(s: Seq<char>) -> Option<int> {
    if s.len() > 1 && s[0] == '-' {
        let digits = s.skip(1);
        if is_digits(digits) && digits_value(digits) <= 0x8000_0000_0000_0000 {
            Some(-(digits_value(digits) as int))
        } else {
            None
        }
    } else {
        match unsigned_in(s, 0x7fff_ffff_ffff_ffff) {
            Some(n) => Some(n as int),
            None => None,
        }
    }
}

fn digit_char(n: u64) -> (c: char)
    requires
        n < 10,
    ensures
        c == digit(n as nat),
{
    let byte: u8 = 48 + n as u8;
    byte as char
}

/// Formats a number in decimal.
pub fn format_u64(n: u64) -> (value: String)
    ensures
        value@ == decimal(n as nat),
    decreases n,
{
    if n < 10 {
        let mut value = String::new();
        value.push(digit_char(n));
        assert(value@ =~= seq![digit(n as nat)]);
        value
    } else {
        let mut value = format_u64(n / 10);
        value.push(digit_char(n % 10));
        value
    }
}

/// Formats a size in decimal.
pub fn format_usize(n: usize) -> (value: String)
    ensures
        value@ == decimal(n as nat),
{
    format_u64(n as u64)
}

/// Formats an integer in decimal.
pub fn format_i64(n: i64) -> (value: String)
    ensures
        value@ == signed_decimal(n as int),
{
    if n >= 0 {
        format_u64(n as u64)
    } else {
        let magnitude: u64 = if n == i64::MIN {
            0x8000_0000_0000_0000
        } else {
            (-n) as u64
        };
        let mut value = String::new();
        value.push('-');
        let result = value.concat(format_u64(magnitude).as_str());
        assert(seq!['-'] =~= Seq::<char>::empty().push('-'));
        result
    }
}

proof fn lemma_digits_grow(s: Seq<char>, to: int)
    requires
        0 <= to <= s.len(),
    ensures
        digits_value(s.take(to)) <= digits_value(s),
    decreases s.len() - to,
{
    if to < s.len() {
        lemma_digits_grow(s, to + 1);
        assert(s.take(to + 1).drop_last() =~= s.take(to));
    } else {
        assert(s.take(to) =~= s);
    }
}

fn parse_digits(chars: &Vec<char>, from: usize, max: u64) -> (value: Option<u64>)
    requires
        from <= chars@.len(),
    ensures
        match value {
            Some(n) => is_digits(chars@.skip(from as int)) && n == digits_value(
                chars@.skip(from as int),
            ) && n <= max,
            None => !is_digits(chars@.skip(from as int)) || digits_value(chars@.skip(from as int))
                > max,
        },
{
    let ghost all = chars@.skip(from as int);
    if from == chars.len() {
        return None;
    }
    let mut total: u64 = 0;
    let mut i: usize = from;
    assert(all.take(0) =~= Seq::<char>::empty());
    while i < chars.len()
        invariant
            from <= i <= chars@.len(),
            all == chars@.skip(from as int),
            forall|j: int| 0 <= j < i - from ==> is_digit(#[trigger] all[j]),
            total == digits_value(all.take(i - from)),
            total <= max,
        decreases chars@.len() - i,
    {
        let c: char = chars[i];
        assert(all[i - from] == c);
        if c < '0' || c > '9' {
            return None;
        }
        let n: u64 = (c as u32 - 48) as u64;
        proof {
            assert(all.take(i - from + 1).drop_last() =~= all.take(i - from));
            lemma_digits_grow(all, i - from + 1);
        }
        if total > max / 10 || n > max - total * 10 {
            return None;
        }
        total = total * 10 + n;
        i += 1;
    }
    assert(all.take(i - from) =~= all);
    Some(total)
}

/// Reads a number that is at most `max`.
pub fn parse_u64_upto(value: &str, max: u64) -> (result: Option<u64>)
    ensures
        match result {
            Some(n) => unsigned_in(value@, max as nat) == Some(n as nat),
            None => unsigned_in(value@, max as nat) is None,
        },
{
    let chars = text::chars_of(value);
    let from: usize = if chars.len() > 1 && chars[0] == '+' {
        1
    } else {
        0
    };
    assert(chars@.skip(from as int) =~= without_plus(value@));
    parse_digits(&chars, from, max)
}

/// Reads a signed 64-bit number.
pub fn parse_i64(value: &str) -> (result: Option<i64>)
    ensures
        match result {
            Some(n) => signed_in(value@) == Some(n as int),
            None => signed_in(value@) is None,
        },
{
    let chars = text::chars_of(value);
    if chars.len() > 1 && chars[0] == '-' {
        assert(chars@.skip(1) =~= value@.skip(1));
        match parse_digits(&chars, 1, 0x8000_0000_0000_0000) {
            Some(n) => {
                if n == 0x8000_0000_0000_0000 {
                    Some(i64::MIN)
                } else {
                    Some(-(n as i64))
                }
            },
            None => None,
        }
    } else {
        match parse_u64_upto(value, 0x7fff_ffff_ffff_ffff) {
            Some(n) => Some(n as i64),
            None => None,
        }
    }
}

/// The decimal form of a number is made of digits.
pub proof fn lemma_decimal_digits(n: nat)
    ensures
        is_digits(decimal(n)),
        digits_value(decimal(n)) == n,
    decreases n,
{
    if n < 10 {
        assert(decimal(n).drop_last() =~= Seq::<char>::empty());
        assert(digits_value(decimal(n).drop_last()) == 0);
    } else {
        lemma_decimal_digits(n / 10);
        assert(decimal(n).drop_last() =~= decimal(n / 10));
        assert forall|i: int| 0 <= i < decimal(n).len() implies is_digit(
            #[trigger] decimal(n)[i],
        ) by {
            if i < decimal(n / 10).len() {
                assert(decimal(n)[i] == decimal(n / 10)[i]);
            }
        }
    }
}

/// A number read back from its decimal form is the number.
pub proof fn decimal_reads_back(n: nat, max: nat)
    requires
        n <= max,
    ensures
        unsigned_in(decimal(n), max) == Some(n),
{
    lemma_decimal_digits(n);
    assert(is_digit(decimal(n)[0]));
}

/// Two numbers with the same decimal form are the same.
pub proof fn decimal_is_injective(left: nat, right: nat)
    requires
        decimal(left) == decimal(right),
    ensures
        left == right,
{
    lemma_decimal_digits(left);
    lemma_decimal_digits(right);
}

/// Why a text is no unsigned 64-bit number.
#[derive(Clone, Copy, Debug, PartialEq, Eq, Structural)]
pub enum ParseIntError {
    /// There is nothing to read.
    Empty,
    /// A character is not a digit.
    InvalidDigit,
    /// The digits stand for a number that does not fit.
    TooLarge,
}

impl ParseIntError {
    /// The text shown for the error.
    pub open spec fn text(self) -> Seq<char> {
        match self {
            ParseIntError::Empty => "cannot parse integer from empty string"@,
            ParseIntError::InvalidDigit => "invalid digit found in string"@,
            ParseIntError::TooLarge => "number too large to fit in target type"@,
        }
    }

    /// Returns the text shown for the error.
    pub fn message(self) -> (message: &'static str)
        ensures
            message@ == self.text(),
    {
        match self {
            ParseIntError::Empty => "cannot parse integer from empty string",
            ParseIntError::InvalidDigit => "invalid digit found in string",
            ParseIntError::TooLarge => "number too large to fit in target type",
        }
    }
}

/// The digits that a text starts with.
pub open spec fn leading_digits(s: Seq<char>) -> Seq<char>
    decreases s.len(),
{
    if s.len() == 0 || !is_digit(s[0]) {
        Seq::empty()
    } else {
        seq![s[0]] + leading_digits(s.drop_first())
    }
}

/// What reading an unsigned 64-bit number from a text gives.
pub open spec fn read_of(s: Seq<char>) -> Result<u64, ParseIntError> {
    let body = without_plus(s);
    if s.len() == 0 {
        Err(ParseIntError::Empty)
    } else if digits_value(leading_digits(body)) > u64::MAX {
        Err(ParseIntError::TooLarge)
    } else if !is_digits(body) {
        Err(ParseIntError::InvalidDigit)
    } else {
        Ok(digits_value(body) as u64)
    }
}

proof fn lemma_leading_digits(s: Seq<char>, n: int)
    requires
        0 <= n <= s.len(),
        forall|i: int| 0 <= i < n ==> is_digit(#[trigger] s[i]),
        n < s.len() ==> !is_digit(s[n]),
    ensures
        leading_digits(s) == s.take(n),
    decreases n,
{
    if n > 0 {
        assert(is_digit(s[0]));
        let rest = s.drop_first();
        assert forall|i: int| 0 <= i < n - 1 implies is_digit(#[trigger] rest[i]) by {
            assert(rest[i] == s[i + 1]);
        }
        lemma_leading_digits(rest, n - 1);
        assert(seq![s[0]] + rest.take(n - 1) =~= s.take(n));
    } else {
        assert(s.take(n) =~= Seq::<char>::empty());
    }
}

/// Reads an unsigned 64-bit number, or tells why a text is none.
pub fn read_u64(value: &str) -> (result: Result<u64, ParseIntError>)
    ensures
        result == read_of(value@),
        result is Ok <==> unsigned_in(value@, u64::MAX as nat) is Some,
{
    let chars = text::chars_of(value);
    if chars.len() == 0 {
        return Err(ParseIntError::Empty);
    }
    let from: usize = if chars.len() > 1 && chars[0] == '+' {
        1
    } else {
        0
    };
    let ghost body = without_plus(value@);
    assert(chars@.skip(from as int) =~= body);
    let mut to: usize = from;
    while to < chars.len() && '0' <= chars[to] && chars[to] <= '9'
        invariant
            from <= to <= chars@.len(),
            body == chars@.skip(from as int),
            forall|i: int| 0 <= i < to - from ==> is_digit(#[trigger] body[i]),
        decreases chars@.len() - to,
    {
        to += 1;
    }
    let mut head: Vec<char> = Vec::new();
    let mut i: usize = from;
    while i < to
        invariant
            from <= i <= to <= chars@.len(),
            head@ == chars@.subrange(from as int, i as int),
        decreases to - i,
    {
        head.push(chars[i]);
        i += 1;
    }
    proof {
        if to < chars@.len() {
            assert(body[to - from] == chars@[to as int]);
        }
        lemma_leading_digits(body, to - from);
        assert(head@ =~= body.take(to - from));
        assert(head@.skip(0) =~= head@);
        assert(to == chars@.len() ==> head@ =~= body);
        if to < chars@.len() {
            assert(!is_digit(body[to - from]));
            assert(!is_digits(body));
        }
    }
    if head.len() == 0 {
        assert(digits_value(head@) == 0);
        return Err(ParseIntError::InvalidDigit);
    }
    assert forall|j: int| 0 <= j < head@.len() implies is_digit(#[trigger] head@[j]) by {
        assert(head@[j] == body[j]);
    }
    match parse_digits(&head, 0, u64::MAX) {
        None => {
            proof {
                if to < chars@.len() {
                    assert(!is_digits(body));
                }
            }
            Err(ParseIntError::TooLarge)
        },
        Some(n) => {
            if to < chars.len() {
                Err(ParseIntError::InvalidDigit)
            } else {
                Ok(n)
            }
        },
    }
}

/// The decimal text of a number is read as the number.
pub proof fn a_written_number_reads_back(n: u64)
    ensures
        read_of(decimal(n as nat)) == Ok::<u64, ParseIntError>(n),
{
    let s = decimal(n as nat);
    lemma_decimal_digits(n as nat);
    assert(is_digit(s[0]));
    lemma_leading_digits(s, s.len() as int);
    assert(s.take(s.len() as int) =~= s);
}

} // verus!
