//! Failures to read a source text, and their wording.

use vstd::prelude::*;
use vstd::string::*;
use crate::grammar::{Expected, Parsed};
use crate::text::push_char;

verus! {

/// Where and why a source text cannot be read.
#[derive(Debug, PartialEq, Eq, Clone, Copy)]
pub struct ParseError {
    /// The index of the character at which reading stopped.
    pub position: usize,
    /// What should have stood there.
    pub expected: Expected,
}

/// Whether `model` is the failure that `error` reports.
pub open spec fn failed<V>(model: Parsed<V>, error: ParseError) -> bool {
    model == Parsed::<V>::Failed(error.position as int, error.expected)
}

/// Whether `model` is the construct `value`, ending at `end`.
pub open spec fn done<V>(model: Parsed<V>, value: V, end: usize) -> bool {
    model == Parsed::Done(value, end as int)
}

/// The numeral of a number below ten.
pub open spec fn digit_text(d: nat) -> Seq<char> {
    if d == 0 {
        "0"@
    } else if d == 1 {
        "1"@
    } else if d == 2 {
        "2"@
    } else if d == 3 {
        "3"@
    } else if d == 4 {
        "4"@
    } else if d == 5 {
        "5"@
    } else if d == 6 {
        "6"@
    } else if d == 7 {
        "7"@
    } else if d == 8 {
        "8"@
    } else {
        "9"@
    }
}

/// The decimal numeral of `n`, without leading zeros.
pub open spec fn decimal_text(n: nat) -> Seq<char>
    decreases n,
{
    if n < 10 {
        digit_text(n)
    } else {
        decimal_text(n / 10) + digit_text(n % 10)
    }
}

/// The words for what was expected.
pub open spec fn expectation_text(expected: Expected) -> Seq<char> {
    match expected {
        Expected::Value => "a value"@,
        Expected::Identifier => "an identifier"@,
        Expected::Name => "a name"@,
        Expected::Symbol(c) => "`"@ + seq![c] + "`"@,
        Expected::In => "`in`"@,
        Expected::ClosingQuote => "a closing quote"@,
        Expected::EndOfInput => "the end of the input"@,
        Expected::ShallowerNesting => "less nesting"@,
    }
}

/// The message for a failure at `position`.
pub open spec fn message_text(position: int, expected: Expected) -> Seq<char> {
    "expected "@ + expectation_text(expected) + " at position "@ + decimal_text(position as nat)
}

/// The numeral of a number below ten.
fn digit(d: usize) -> (numeral: &'static str)
    requires
        d < 10,
    ensures
        numeral@ == digit_text(d as nat),
{
    if d == 0 {
        "0"
    } else if d == 1 {
        "1"
    } else if d == 2 {
        "2"
    } else if d == 3 {
        "3"
    } else if d == 4 {
        "4"
    } else if d == 5 {
        "5"
    } else if d == 6 {
        "6"
    } else if d == 7 {
        "7"
    } else if d == 8 {
        "8"
    } else {
        "9"
    }
}

/// Writes `n` as a decimal numeral.
pub fn decimal(n: usize) -> (numeral: String)
    ensures
        numeral@ == decimal_text(n as nat),
    decreases n,
{
    if n < 10 {
        String::from_str(digit(n))
    } else {
        let mut numeral = decimal(n / 10);
        numeral.append(digit(n % 10));
        numeral
    }
}

impl Expected {
    /// The words for what was expected.
    pub fn describe(&self) -> (words: String)
        ensures
            words@ == expectation_text(*self),
    {
        match self {
            Expected::Value => String::from_str("a value"),
            Expected::Identifier => String::from_str("an identifier"),
            Expected::Name => String::from_str("a name"),
            Expected::Symbol(c) => {
                let mut words = String::from_str("`");
                push_char(&mut words, *c);
                words.append("`");
                assert(words@ =~= "`"@ + seq![*c] + "`"@);
                words
            },
            Expected::In => String::from_str("`in`"),
            Expected::ClosingQuote => String::from_str("a closing quote"),
            Expected::EndOfInput => String::from_str("the end of the input"),
            Expected::ShallowerNesting => String::from_str("less nesting"),
        }
    }
}

impl ParseError {
    /// The message for the failure: what was expected, and where.
    pub fn message(&self) -> (message: String)
        ensures
            message@ == message_text(self.position as int, self.expected),
    {
        let mut message = String::from_str("expected ");
        message.append(self.expected.describe().as_str());
        message.append(" at position ");
        message.append(decimal(self.position).as_str());
        message
    }
}

} // verus!
