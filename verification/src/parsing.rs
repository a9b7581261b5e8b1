//! Position-tagged tokens and the step grammar built from them: an
//! expression is a sequence of steps, each an add, subtract, or floor of
//! a unit, where only the first step may omit its leading operator.

use vstd::prelude::*;
use vstd::string::StringExecFns;

use crate::error::{matches_err, ErrSpec, Error};
use crate::lexer;
use crate::lexer::{bytes_up_to, spec_scan, Lexer, ScanStep};

verus! {

/// A lexeme together with the byte offset where it started.
#[derive(Debug, Clone, Copy, PartialEq, Eq, Structural)]
pub enum Token {
    Value(usize, Value),
    Operator(usize, Operator),
    Unit(usize, Unit),
}

/// Coarse kind of a token, used by format errors to say what was
/// expected and what was found.
#[derive(Debug, Clone, Copy, PartialEq, Eq, Structural)]
pub enum TokenType {
    Value,
    Operator,
    Unit,
    Nothing,
}

impl TokenType {
    /// The kind's name as shown in format errors.
    pub open spec fn description_spec(&self) -> Seq<char> {
        match self {
            TokenType::Value => "number or now"@,
            TokenType::Operator => "operator"@,
            TokenType::Unit => "unit"@,
            TokenType::Nothing => "nothing"@,
        }
    }

    /// The kind's name as shown in format errors.
    pub fn description(&self) -> (r: String)
        ensures
            r@ == self.description_spec(),
    {
        match self {
            TokenType::Value => String::from_str("number or now"),
            TokenType::Operator => String::from_str("operator"),
            TokenType::Unit => String::from_str("unit"),
            TokenType::Nothing => String::from_str("nothing"),
        }
    }
}

/// An operand: the reference instant or a plain number.
#[derive(Debug, Clone, Copy, PartialEq, Eq, Structural)]
pub enum Value {
    Now,
    Number(u32),
}

/// What a step does.
#[derive(Debug, Clone, Copy, PartialEq, Eq, Structural)]
pub enum Operator {
    Add,
    Sub,
    Floor,
}

/// The calendar unit a step acts on.
#[derive(Debug, Clone, Copy, PartialEq, Eq, Structural)]
pub enum Unit {
    Year,
    Month,
    Week,
    Day,
    Hour,
    Minute,
    Second,
}

/// One well-formed operation of an expression.
#[derive(Debug, Clone, Copy, PartialEq, Eq, Structural)]
pub enum Step {
    Add(Value, Unit),
    Sub(Value, Unit),
    Floor(Unit),
}

/// The kind of a bare lexeme.
pub open spec fn token_kind(t: lexer::Token) -> TokenType {
    match t {
        lexer::Token::Now => TokenType::Value,
        lexer::Token::Value(_) => TokenType::Value,
        lexer::Token::Add => TokenType::Operator,
        lexer::Token::Sub => TokenType::Operator,
        lexer::Token::Floor => TokenType::Operator,
        _ => TokenType::Unit,
    }
}

/// The operand a value lexeme denotes.
pub open spec fn token_value(t: lexer::Token) -> Value {
    match t {
        lexer::Token::Now => Value::Now,
        lexer::Token::Value(n) => Value::Number(n),
        _ => Value::Now,
    }
}

/// The operator an operator lexeme denotes.
pub open spec fn token_operator(t: lexer::Token) -> Operator {
    match t {
        lexer::Token::Add => Operator::Add,
        lexer::Token::Sub => Operator::Sub,
        _ => Operator::Floor,
    }
}

/// The unit a unit lexeme denotes.
pub open spec fn token_unit(t: lexer::Token) -> Unit {
    match t {
        lexer::Token::Year => Unit::Year,
        lexer::Token::Month => Unit::Month,
        lexer::Token::Week => Unit::Week,
        lexer::Token::Day => Unit::Day,
        lexer::Token::Hour => Unit::Hour,
        lexer::Token::Minute => Unit::Minute,
        _ => Unit::Second,
    }
}

/// The position-tagged token for a lexeme scanned at byte offset `pos`.
pub open spec fn wide_token(pos: int, t: lexer::Token) -> Token {
    match token_kind(t) {
        TokenType::Value => Token::Value(pos as usize, token_value(t)),
        TokenType::Operator => Token::Operator(pos as usize, token_operator(t)),
        _ => Token::Unit(pos as usize, token_unit(t)),
    }
}

/// The tokenizer that yields position-tagged tokens.
pub struct TokenIterator {
    inner: Lexer,
}

impl TokenIterator {
    /// The scanned text as a character sequence.
    pub closed spec fn text(&self) -> Seq<char> {
        self.inner.text()
    }

    /// The index of the next character to scan.
    pub closed spec fn cursor(&self) -> int {
        self.inner.cursor()
    }

    /// The inner scanner is well formed.
    pub closed spec fn wf(&self) -> bool {
        self.inner.wf()
    }

    /// Start scanning at the beginning of `text`.
    pub fn new(text: &str) -> (r: TokenIterator)
        ensures
            r.wf(),
            r.text() == text@,
            r.cursor() == 0,
    {
        TokenIterator { inner: Lexer::new(text) }
    }

    /// Byte length of the whole text.
    pub fn byte_len(&self) -> (r: usize)
        requires
            self.wf(),
        ensures
            r == bytes_up_to(self.text(), self.text().len() as int),
    {
        self.inner.byte_len()
    }

    /// Scan the next position-tagged token, `None` at the end of the
    /// text, or the error that stops the scan.
    pub fn next(&mut self) -> (r: Option<Result<Token, Error>>)
        requires
            old(self).wf(),
        ensures
            final(self).wf(),
            final(self).text() == old(self).text(),
            match spec_scan(old(self).text(), old(self).cursor()) {
                ScanStep::End => r is None && final(self).cursor() == old(self).text().len(),
                ScanStep::Tok { pos, tok, next } => {
                    &&& 0 <= pos <= usize::MAX
                    &&& r == Some(Ok::<Token, Error>(wide_token(pos, tok)))
                    &&& final(self).cursor() == next
                },
                ScanStep::Fail { err } => r matches Some(re) && re matches Err(e) && matches_err(
                    e,
                    err,
                ),
            },
    {
        match self.inner.next() {
            Option::None => Option::None,
            Option::Some(Err(e)) => Option::Some(Err(e)),
            Option::Some(Ok((pos, tok))) => Option::Some(
                Ok(
                    match tok {
                        lexer::Token::Now => Token::Value(pos, Value::Now),
                        lexer::Token::Value(n) => Token::Value(pos, Value::Number(n)),
                        lexer::Token::Add => Token::Operator(pos, Operator::Add),
                        lexer::Token::Sub => Token::Operator(pos, Operator::Sub),
                        lexer::Token::Floor => Token::Operator(pos, Operator::Floor),
                        lexer::Token::Year => Token::Unit(pos, Unit::Year),
                        lexer::Token::Month => Token::Unit(pos, Unit::Month),
                        lexer::Token::Week => Token::Unit(pos, Unit::Week),
                        lexer::Token::Day => Token::Unit(pos, Unit::Day),
                        lexer::Token::Hour => Token::Unit(pos, Unit::Hour),
                        lexer::Token::Minute => Token::Unit(pos, Unit::Minute),
                        lexer::Token::Second => Token::Unit(pos, Unit::Second),
                    },
                ),
            ),
        }
    }
}

/// Outcome of reading one operand token.
pub ghost enum ValueScan {
    Val { v: Value, next: int },
    Fail { err: ErrSpec },
}

/// Outcome of reading one unit token.
pub ghost enum UnitScan {
    Unit { u: Unit, next: int },
    Fail { err: ErrSpec },
}

/// Outcome of reading one whole step.
pub ghost enum StepScan {
    Done,
    Item { st: Step, next: int },
    Fail { err: ErrSpec },
}

/// Read an operand (a number or `now`) at character index `i`: anything
/// else, or the end of the text, is a format error naming what was found.
pub open spec fn spec_value_at(s: Seq<char>, i: int) -> ValueScan {
    match spec_scan(s, i) {
        ScanStep::End => ValueScan::Fail {
            err: ErrSpec::Format {
                pos: bytes_up_to(s, s.len() as int),
                expected: TokenType::Value,
                found: TokenType::Nothing,
            },
        },
        ScanStep::Fail { err } => ValueScan::Fail { err },
        ScanStep::Tok { pos, tok, next } => {
            if token_kind(tok) is Value {
                ValueScan::Val { v: token_value(tok), next }
            } else {
                ValueScan::Fail {
                    err: ErrSpec::Format {
                        pos,
                        expected: TokenType::Value,
                        found: token_kind(tok),
                    },
                }
            }
        },
    }
}

/// Read a unit token at character index `i`: anything else, or the end
/// of the text, is a format error naming what was found.
pub open spec fn spec_unit_at(s: Seq<char>, i: int) -> UnitScan {
    match spec_scan(s, i) {
        ScanStep::End => UnitScan::Fail {
            err: ErrSpec::Format {
                pos: bytes_up_to(s, s.len() as int),
                expected: TokenType::Unit,
                found: TokenType::Nothing,
            },
        },
        ScanStep::Fail { err } => UnitScan::Fail { err },
        ScanStep::Tok { pos, tok, next } => {
            if token_kind(tok) is Unit {
                UnitScan::Unit { u: token_unit(tok), next }
            } else {
                UnitScan::Fail {
                    err: ErrSpec::Format { pos, expected: TokenType::Unit, found: token_kind(tok) },
                }
            }
        },
    }
}

/// Read one whole step starting at character index `i`. The first step
/// may start with a bare operand, which counts as an implicit addition;
/// a leading floor is rejected; every other step must open with an
/// explicit operator. Add and subtract take an operand and a unit, floor
/// only a unit.
pub open spec fn spec_step_at(s: Seq<char>, i: int, first: bool) -> StepScan {
    match spec_scan(s, i) {
        ScanStep::End => StepScan::Done,
        ScanStep::Fail { err } => StepScan::Fail { err },
        ScanStep::Tok { pos, tok, next } => match token_kind(tok) {
            TokenType::Operator => {
                let op = token_operator(tok);
                if first && op is Floor {
                    StepScan::Fail {
                        err: ErrSpec::Format {
                            pos,
                            expected: TokenType::Operator,
                            found: TokenType::Operator,
                        },
                    }
                } else if op is Floor {
                    match spec_unit_at(s, next) {
                        UnitScan::Unit { u, next: n2 } => StepScan::Item {
                            st: Step::Floor(u),
                            next: n2,
                        },
                        UnitScan::Fail { err } => StepScan::Fail { err },
                    }
                } else {
                    match spec_value_at(s, next) {
                        ValueScan::Val { v, next: n2 } => match spec_unit_at(s, n2) {
                            UnitScan::Unit { u, next: n3 } => StepScan::Item {
                                st: if op is Add {
                                    Step::Add(v, u)
                                } else {
                                    Step::Sub(v, u)
                                },
                                next: n3,
                            },
                            UnitScan::Fail { err } => StepScan::Fail { err },
                        },
                        ValueScan::Fail { err } => StepScan::Fail { err },
                    }
                }
            },
            TokenType::Value => {
                if first {
                    match spec_unit_at(s, next) {
                        UnitScan::Unit { u, next: n2 } => StepScan::Item {
                            st: Step::Add(token_value(tok), u),
                            next: n2,
                        },
                        UnitScan::Fail { err } => StepScan::Fail { err },
                    }
                } else {
                    StepScan::Fail {
                        err: ErrSpec::Format {
                            pos,
                            expected: TokenType::Operator,
                            found: TokenType::Value,
                        },
                    }
                }
            },
            _ => StepScan::Fail {
                err: ErrSpec::Format {
                    pos,
                    expected: TokenType::Operator,
                    found: TokenType::Unit,
                },
            },
        },
    }
}

/// Groups tokens into steps.
pub struct StepIterator {
    first: bool,
    tokens: TokenIterator,
}

impl StepIterator {
    /// The scanned text as a character sequence.
    pub closed spec fn text(&self) -> Seq<char> {
        self.tokens.text()
    }

    /// The index of the next character to scan.
    pub closed spec fn cursor(&self) -> int {
        self.tokens.cursor()
    }

    /// Whether the next step read would be the first.
    pub closed spec fn at_first(&self) -> bool {
        self.first
    }

    /// The inner tokenizer is well formed.
    pub closed spec fn wf(&self) -> bool {
        self.tokens.wf()
    }

    /// Start reading steps at the beginning of `text`.
    pub fn new(text: &str) -> (r: StepIterator)
        ensures
            r.wf(),
            r.text() == text@,
            r.cursor() == 0,
            r.at_first(),
    {
        StepIterator { first: true, tokens: TokenIterator::new(text) }
    }

    /// Read the operand of a step.
    pub fn next_value(&mut self) -> (r: Result<Value, Error>)
        requires
            old(self).wf(),
        ensures
            final(self).wf(),
            final(self).text() == old(self).text(),
            final(self).at_first() == old(self).at_first(),
            match spec_value_at(old(self).text(), old(self).cursor()) {
                ValueScan::Val { v, next } => r == Ok::<Value, Error>(v) && final(self).cursor()
                    == next,
                ValueScan::Fail { err } => r matches Err(e) && matches_err(e, err),
            },
    {
        let ghost sv = spec_value_at(old(self).text(), old(self).cursor());
        let t = self.tokens.next();
        match t {
            Option::Some(Ok(Token::Value(_, value))) => {
                proof {
                    assert(sv matches ValueScan::Val { v, next } && v == value && self.cursor()
                        == next);
                }
                Ok(value)
            },
            Option::Some(Ok(Token::Operator(index, _))) => Err(
                Error::InvalidFormat(index, TokenType::Value, TokenType::Operator),
            ),
            Option::Some(Ok(Token::Unit(index, _))) => Err(
                Error::InvalidFormat(index, TokenType::Value, TokenType::Unit),
            ),
            Option::Some(Err(e)) => Err(e),
            Option::None => Err(
                Error::InvalidFormat(self.text_len(), TokenType::Value, TokenType::Nothing),
            ),
        }
    }

    /// Read the unit of a step.
    pub fn next_unit(&mut self) -> (r: Result<Unit, Error>)
        requires
            old(self).wf(),
        ensures
            final(self).wf(),
            final(self).text() == old(self).text(),
            final(self).at_first() == old(self).at_first(),
            match spec_unit_at(old(self).text(), old(self).cursor()) {
                UnitScan::Unit { u, next } => r == Ok::<Unit, Error>(u) && final(self).cursor()
                    == next,
                UnitScan::Fail { err } => r matches Err(e) && matches_err(e, err),
            },
    {
        match self.tokens.next() {
            Option::Some(Ok(Token::Unit(_, unit))) => Ok(unit),
            Option::Some(Ok(Token::Operator(index, _))) => Err(
                Error::InvalidFormat(index, TokenType::Unit, TokenType::Operator),
            ),
            Option::Some(Ok(Token::Value(index, _))) => Err(
                Error::InvalidFormat(index, TokenType::Unit, TokenType::Value),
            ),
            Option::Some(Err(e)) => Err(e),
            Option::None => Err(
                Error::InvalidFormat(self.text_len(), TokenType::Unit, TokenType::Nothing),
            ),
        }
    }

    /// Read the next whole step, `None` after the last one, or the error
    /// that stops the parse.
    pub fn next(&mut self) -> (r: Option<Result<Step, Error>>)
        requires
            old(self).wf(),
        ensures
            final(self).wf(),
            final(self).text() == old(self).text(),
            !final(self).at_first(),
            match spec_step_at(old(self).text(), old(self).cursor(), old(self).at_first()) {
                StepScan::Done => r is None,
                StepScan::Item { st, next } => {
                    &&& r == Some(Ok::<Step, Error>(st))
                    &&& final(self).cursor() == next
                },
                StepScan::Fail { err } => r matches Some(re) && re matches Err(e) && matches_err(
                    e,
                    err,
                ),
            },
    {
        let is_first = self.first;
        self.first = false;
        let t = self.tokens.next();
        match t {
            Option::None => Option::None,
            Option::Some(Err(e)) => Option::Some(Err(e)),
            Option::Some(Ok(tk)) => match tk {
                Token::Operator(index, operator) => {
                    if is_first && matches!(operator, Operator::Floor) {
                        Option::Some(
                            Err(
                                Error::InvalidFormat(
                                    index,
                                    TokenType::Operator,
                                    TokenType::Operator,
                                ),
                            ),
                        )
                    } else {
                        match operator {
                            Operator::Add => {
                                let value = match self.next_value() {
                                    Ok(v) => v,
                                    Err(e) => {
                                        return Option::Some(Err(e));
                                    },
                                };
                                let unit = match self.next_unit() {
                                    Ok(u) => u,
                                    Err(e) => {
                                        return Option::Some(Err(e));
                                    },
                                };
                                Option::Some(Ok(Step::Add(value, unit)))
                            },
                            Operator::Sub => {
                                let value = match self.next_value() {
                                    Ok(v) => v,
                                    Err(e) => {
                                        return Option::Some(Err(e));
                                    },
                                };
                                let unit = match self.next_unit() {
                                    Ok(u) => u,
                                    Err(e) => {
                                        return Option::Some(Err(e));
                                    },
                                };
                                Option::Some(Ok(Step::Sub(value, unit)))
                            },
                            Operator::Floor => {
                                let unit = match self.next_unit() {
                                    Ok(u) => u,
                                    Err(e) => {
                                        return Option::Some(Err(e));
                                    },
                                };
                                Option::Some(Ok(Step::Floor(unit)))
                            },
                        }
                    }
                },
                Token::Value(index, value) => {
                    if is_first {
                        let unit = match self.next_unit() {
                            Ok(u) => u,
                            Err(e) => {
                                return Option::Some(Err(e));
                            },
                        };
                        Option::Some(Ok(Step::Add(value, unit)))
                    } else {
                        Option::Some(
                            Err(Error::InvalidFormat(index, TokenType::Operator, TokenType::Value)),
                        )
                    }
                },
                Token::Unit(index, _) => Option::Some(
                    Err(Error::InvalidFormat(index, TokenType::Operator, TokenType::Unit)),
                ),
            },
        }
    }

    /// Byte length of the scanned text: the offset reported when the
    /// text ends where a token was expected.
    fn text_len(&self) -> (r: usize)
        requires
            self.wf(),
        ensures
            r == bytes_up_to(self.text(), self.text().len() as int),
    {
        self.tokens.byte_len()
    }
}

} // verus!
