//! Errors surfaced while resolving a relative-time expression.

use vstd::prelude::*;

use crate::calendar::CalValue;
use crate::parsing::TokenType;
use crate::time_components::TimeComponents;

verus! {

/// Why a numeric literal was rejected.
#[derive(Debug, Clone, Copy, PartialEq, Eq, Structural)]
pub enum NumberError {
    /// The digit run does not fit in an unsigned 32-bit integer.
    TooLarge,
}

/// Every failure the resolver can report. Each variant carries the byte
/// offset or value needed to point at the offending part of the input.
#[derive(Debug, Clone)]
pub enum Error {
    /// An unrecognized character, with its byte offset.
    UnexpectedCharacter(usize, char),
    /// A digit run that is not a valid 32-bit number, with the literal.
    InvalidNumber(String, NumberError),
    /// The computed date value cannot be represented.
    InvalidTimestamp(TimeComponents),
    /// A grammar violation: byte offset, expected kind, found kind.
    InvalidFormat(usize, TokenType, TokenType),
    /// The expression contains no `now` reference.
    MissingNow,
    /// The expression contains more than one `now` reference.
    MultipleNow,
    /// A floor operation appears before the `now` reference.
    FloorBeforeNow,
}

/// Specification-level mirror of `Error`: the same variants over
/// mathematical values, so that contracts can state exactly which error
/// an input produces.
pub ghost enum ErrSpec {
    Char { pos: int, c: char },
    Num { lit: Seq<char> },
    Format { pos: int, expected: TokenType, found: TokenType },
    NoNow,
    ManyNow,
    EarlyFloor,
    Time { t: CalValue },
}

/// Whether the executable error `e` denotes the specification-level
/// error `s`.
pub open spec fn matches_err(e: Error, s: ErrSpec) -> bool {
    match e {
        Error::UnexpectedCharacter(p, ch) => s matches ErrSpec::Char { pos, c } && pos == p && c
            == ch,
        Error::InvalidNumber(text, k) => s matches ErrSpec::Num { lit } && lit == text@ && k
            == NumberError::TooLarge,
        Error::InvalidTimestamp(t) => s matches ErrSpec::Time { t: tv } && tv == t@,
        Error::InvalidFormat(p, exp, fnd) => s matches ErrSpec::Format { pos, expected, found }
            && pos == p && expected == exp && found == fnd,
        Error::MissingNow => s is NoNow,
        Error::MultipleNow => s is ManyNow,
        Error::FloorBeforeNow => s is EarlyFloor,
    }
}

} // verus!
