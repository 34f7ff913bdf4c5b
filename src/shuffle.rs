//! The configured scramble: its length, the current sequence, and the
//! validation of a typed length.

use crate::seq_gen::{is_scramble, shuffler};
use vstd::prelude::*;

verus! {

/// Why a typed length was refused.
#[derive(Clone, Copy, Debug, PartialEq, Eq, Structural)]
pub enum LengthError {
    /// Nothing was typed.
    Empty,
    /// A character that is not a decimal digit.
    InvalidDigit,
    /// The number does not fit in 64 bits.
    Overflow,
}

pub open spec fn digit_value(c: char) -> int {
    c as int - '0' as int
}

pub open spec fn is_digit(c: char) -> bool {
    '0' <= c <= '9'
}

/// Reads `digits` left to right onto `acc`: the first character that is no
/// digit, or the first prefix whose value exceeds `u64::MAX`, decides the
/// error.
pub open spec fn scan_digits(digits: Seq<char>, acc: int) -> Result<u64, LengthError>
    decreases digits.len(),
{
    if digits.len() == 0 {
        Ok(acc as u64)
    } else if !is_digit(digits[0]) {
        Err(LengthError::InvalidDigit)
    } else {
        let next = acc * 10 + digit_value(digits[0]);
        if next > u64::MAX {
            Err(LengthError::Overflow)
        } else {
            scan_digits(digits.subrange(1, digits.len() as int), next)
        }
    }
}

/// A length typed as decimal digits, with an optional leading `+`.
pub open spec fn parsed_length(s: Seq<char>) -> Result<u64, LengthError> {
    if s.len() == 0 {
        Err(LengthError::Empty)
    } else if (s[0] == '+' || s[0] == '-') && s.len() == 1 {
        Err(LengthError::InvalidDigit)
    } else if s[0] == '+' {
        scan_digits(s.subrange(1, s.len() as int), 0)
    } else {
        scan_digits(s, 0)
    }
}

/// The message shown for a refused length.
pub open spec fn error_text(e: LengthError) -> Seq<char> {
    match e {
        LengthError::Empty => "Invalid input: cannot parse integer from empty string"@,
        LengthError::InvalidDigit => "Invalid input: invalid digit found in string"@,
        LengthError::Overflow => "Invalid input: number too large to fit in target type"@,
    }
}

impl LengthError {
    /// The message shown for this error.
    pub fn message(&self) -> (r: String)
        ensures
            r@ == error_text(*self),
    {
        match self {
            LengthError::Empty => String::from_str("Invalid input: cannot parse integer from empty string"),
            LengthError::InvalidDigit => String::from_str("Invalid input: invalid digit found in string"),
            LengthError::Overflow => String::from_str("Invalid input: number too large to fit in target type"),
        }
    }
}

/// Reads a scramble length from typed text.
pub fn parse_length(s: &str) -> (r: Result<u64, LengthError>)
    ensures
        r == parsed_length(s@),
{
    let n = s.unicode_len();
    if n == 0 {
        return Err(LengthError::Empty);
    }
    let first = s.get_char(0);
    if (first == '+' || first == '-') && n == 1 {
        return Err(LengthError::InvalidDigit);
    }
    let mut i: usize = if first == '+' { 1 } else { 0 };
    let ghost digits = s@.subrange(i as int, n as int);
    let mut acc: u64 = 0;
    assert(s@.subrange(0, n as int) =~= s@);
    assert(parsed_length(s@) == scan_digits(digits, 0));
    while i < n
        invariant
            n == s@.len(),
            parsed_length(s@) == scan_digits(digits, 0),
            0 <= i <= n,
            scan_digits(digits, 0) == scan_digits(s@.subrange(i as int, n as int), acc as int),
        decreases n - i,
    {
        let c = s.get_char(i);
        let ghost rest = s@.subrange(i as int, n as int);
        assert(rest[0] == c);
        assert(rest.subrange(1, rest.len() as int) =~= s@.subrange(i + 1, n as int));
        if !('0' <= c && c <= '9') {
            return Err(LengthError::InvalidDigit);
        }
        let d = (c as u32 - '0' as u32) as u64;
        let next = match acc.checked_mul(10) {
            Some(m) => m.checked_add(d),
            None => None,
        };
        match next {
            Some(v) => {
                acc = v;
            },
            None => {
                return Err(LengthError::Overflow);
            },
        }
        i = i + 1;
    }
    assert(s@.subrange(i as int, n as int).len() == 0);
    Ok(acc)
}

/// The scramble on show and the length that new scrambles take.
pub struct Shuffle {
    pub sequence: Vec<String>,
    pub length: u64,
    pub error: String,
}

impl Shuffle {
    /// A fresh scramble of `length` turns.
    pub fn new(length: u64) -> (r: Self)
        ensures
            r.length == length,
            r.sequence@.len() == length,
            is_scramble(r.sequence@),
            r.error@.len() == 0,
    {
        Self { sequence: shuffler(length), length, error: String::new() }
    }

    /// Draws a new scramble of the configured length.
    pub fn regenerate(&mut self)
        ensures
            final(self).length == old(self).length,
            final(self).error@ == old(self).error@,
            final(self).sequence@.len() == old(self).length,
            is_scramble(final(self).sequence@),
    {
        self.sequence = shuffler(self.length);
    }

    /// Applies the typed length `input` and draws a new scramble. A valid
    /// number becomes the length, clears the error and is returned for
    /// keeping; empty input keeps the length; anything else keeps the
    /// scramble and shows the error.
    pub fn generate_shuffle(&mut self, input: &str) -> (r: Option<u64>)
        ensures
            match parsed_length(input@) {
                Ok(v) => {
                    &&& r == Some(v)
                    &&& final(self).length == v
                    &&& final(self).error@.len() == 0
                    &&& final(self).sequence@.len() == v
                    &&& is_scramble(final(self).sequence@)
                },
                Err(LengthError::Empty) => {
                    &&& r.is_none()
                    &&& final(self).length == old(self).length
                    &&& final(self).error@ == old(self).error@
                    &&& final(self).sequence@.len() == old(self).length
                    &&& is_scramble(final(self).sequence@)
                },
                Err(e) => {
                    &&& r.is_none()
                    &&& final(self).length == old(self).length
                    &&& final(self).error@ == error_text(e)
                    &&& final(self).sequence@ == old(self).sequence@
                },
            },
    {
        match parse_length(input) {
            Ok(v) => {
                self.error = String::new();
                self.length = v;
                self.sequence = shuffler(v);
                Some(v)
            },
            Err(LengthError::Empty) => {
                self.sequence = shuffler(self.length);
                None
            },
            Err(e) => {
                self.error = e.message();
                None
            },
        }
    }
}

} // verus!
