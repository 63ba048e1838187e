//! Decimal notation for unsigned numbers: an optional `+`, then digits.

use vstd::prelude::*;
use crate::text::chars_of;

verus! {

/// Why a text is not the decimal notation of a `usize`.
#[derive(Clone, Copy, Debug, PartialEq, Eq, Structural)]
pub enum DigitFault {
    /// The text is empty.
    Empty,
    /// A character is not a decimal digit, or a sign stands alone.
    InvalidDigit,
    /// The digits read so far already exceed `usize::MAX`.
    TooLarge,
}

impl DigitFault {
    /// The fault in words.
    pub open spec fn words(self) -> Seq<char> {
        match self {
            DigitFault::Empty => "cannot parse integer from empty string"@,
            DigitFault::InvalidDigit => "invalid digit found in string"@,
            DigitFault::TooLarge => "number too large to fit in target type"@,
        }
    }

    /// The fault in words.
    pub fn describe(&self) -> (words: &'static str)
        ensures
            words@ == self.words(),
    {
        match self {
            DigitFault::Empty => "cannot parse integer from empty string",
            DigitFault::InvalidDigit => "invalid digit found in string",
            DigitFault::TooLarge => "number too large to fit in target type",
        }
    }
}

pub open spec fn is_digit(c: char) -> bool {
    '0' <= c && c <= '9'
}

pub open spec fn digit_value(c: char) -> nat {
    (c as int - '0' as int) as nat
}

/// Reads `s` on from position `at`, `acc` being the value of the digits before it.
/// The leftmost offence decides: a character that is no digit, or a digit with
/// which the value leaves the range of `usize`.
pub open spec fn read_digits(s: Seq<char>, at: int, acc: nat) -> Result<nat, DigitFault>
    decreases s.len() - at,
{
    if at < 0 || at >= s.len() {
        Ok(acc)
    } else if !is_digit(s[at]) {
        Err(DigitFault::InvalidDigit)
    } else if 10 * acc + digit_value(s[at]) > usize::MAX {
        Err(DigitFault::TooLarge)
    } else {
        read_digits(s, at + 1, 10 * acc + digit_value(s[at]))
    }
}

/// The number that `s` denotes, or why it denotes none.
pub open spec fn decimal(s: Seq<char>) -> Result<nat, DigitFault> {
    if s.len() == 0 {
        Err(DigitFault::Empty)
    } else if s[0] == '+' {
        if s.len() == 1 {
            Err(DigitFault::InvalidDigit)
        } else {
            read_digits(s, 1, 0)
        }
    } else {
        read_digits(s, 0, 0)
    }
}

/// The value of a run of digits in positional notation.
pub open spec fn positional(digits: Seq<char>) -> nat
    decreases digits.len(),
{
    if digits.len() == 0 {
        0
    } else {
        10 * positional(digits.drop_last()) + digit_value(digits.last())
    }
}

/// `true` where the outcome `r` of the executable reader is the outcome `expected` of the model.
pub open spec fn agrees(r: Result<usize, DigitFault>, expected: Result<nat, DigitFault>) -> bool {
    match r {
        Ok(n) => expected == Ok::<nat, DigitFault>(n as nat),
        Err(fault) => expected == Err::<nat, DigitFault>(fault),
    }
}

/// Reads a `usize` from its decimal notation.
pub fn parse_decimal(s: &str) -> (r: Result<usize, DigitFault>)
    ensures
        agrees(r, decimal(s@)),
{
    let chars = chars_of(s);
    if chars.len() == 0 {
        return Err(DigitFault::Empty);
    }
    let mut at: usize = 0;
    if chars[0] == '+' {
        if chars.len() == 1 {
            return Err(DigitFault::InvalidDigit);
        }
        at = 1;
    }
    let mut acc: usize = 0;
    while at < chars.len()
        invariant
            at <= chars.len(),
            chars@ == s@,
            decimal(s@) == read_digits(s@, at as int, acc as nat),
        decreases chars.len() - at,
    {
        let c = chars[at];
        if c < '0' || c > '9' {
            return Err(DigitFault::InvalidDigit);
        }
        let d: usize = (c as u32 - '0' as u32) as usize;
        assert(d == digit_value(c));
        if acc > (usize::MAX - d) / 10 {
            return Err(DigitFault::TooLarge);
        }
        acc = 10 * acc + d;
        at = at + 1;
    }
    Ok(acc)
}

/// A text that is read as a number consists of digits, after the optional `+`,
/// and the number is their value in positional notation.
pub proof fn lemma_decimal_is_positional(s: Seq<char>)
    requires
        decimal(s) is Ok,
    ensures
        s.len() > 0,
        forall|i: int| (if s[0] == '+' { 1 } else { 0int }) <= i < s.len() ==> is_digit(#[trigger] s[i]),
        decimal(s)->Ok_0 == positional(if s[0] == '+' { s.drop_first() } else { s }),
        decimal(s)->Ok_0 <= usize::MAX,
{
    let from: int = if s[0] == '+' { 1 } else { 0 };
    lemma_read_digits(s, from, from, 0);
    assert(s.subrange(from, from) =~= Seq::<char>::empty());
    assert(s.subrange(from, s.len() as int) =~= if s[0] == '+' { s.drop_first() } else { s });
}

proof fn lemma_read_digits(s: Seq<char>, from: int, at: int, acc: nat)
    requires
        0 <= from <= at <= s.len(),
        read_digits(s, at, acc) is Ok,
        acc == positional(s.subrange(from, at)),
        acc <= usize::MAX,
    ensures
        forall|i: int| at <= i < s.len() ==> is_digit(#[trigger] s[i]),
        read_digits(s, at, acc)->Ok_0 == positional(s.subrange(from, s.len() as int)),
        read_digits(s, at, acc)->Ok_0 <= usize::MAX,
    decreases s.len() - at,
{
    if at < s.len() {
        let next = 10 * acc + digit_value(s[at]);
        assert(s.subrange(from, at + 1).drop_last() =~= s.subrange(from, at));
        lemma_read_digits(s, from, at + 1, next);
    }
}

} // verus!
