//! The expression parser: groups tokens into expressions. An expression
//! stream opens with an optional implicit addition, requires an explicit
//! operator before every later step, and treats `now` as an operand that
//! only an addition may carry.

use vstd::prelude::*;
use vstd::string::StringExecFns;

use crate::error::{matches_err, ErrSpec, Error};
use crate::lexer;
use crate::lexer::{bytes_up_to, lemma_scan_progress, spec_scan, Lexer, ScanStep};
use crate::parsing::{token_kind, token_operator, TokenType};

verus! {

/// The calendar unit an expression acts on.
#[derive(Debug, Clone, Copy, PartialEq, Eq, Structural)]
pub enum Unit {
    Year,
    Month,
    Week,
    Day,
    Hour,
    Minute,
    Second,
}

/// What an expression does.
#[derive(Debug, Clone, Copy, PartialEq, Eq, Structural)]
enum Operator {
    Add,
    Sub,
    Floor,
}

/// One parsed operation: merge the reference instant in, or add,
/// subtract or floor by a unit.
#[derive(Debug, Clone, Copy, PartialEq, Eq, Structural)]
pub enum Expression {
    Now,
    Add(u32, Unit),
    Sub(u32, Unit),
    Floor(Unit),
}

impl Unit {
    /// The unit's name as a word.
    pub open spec fn name_spec(&self) -> Seq<char> {
        match self {
            Unit::Year => "year"@,
            Unit::Month => "month"@,
            Unit::Week => "week"@,
            Unit::Day => "day"@,
            Unit::Hour => "hour"@,
            Unit::Minute => "minute"@,
            Unit::Second => "second"@,
        }
    }

    /// The unit's name as a word.
    pub fn name(&self) -> (r: &'static str)
        ensures
            r@ == self.name_spec(),
    {
        match self {
            Unit::Year => "year",
            Unit::Month => "month",
            Unit::Week => "week",
            Unit::Day => "day",
            Unit::Hour => "hour",
            Unit::Minute => "minute",
            Unit::Second => "second",
        }
    }
}

impl Expression {
    /// A short description of the operation: the wording the resolver
    /// uses when an expression is shown to a person.
    pub open spec fn description_spec(&self) -> Seq<char> {
        match self {
            Expression::Now => "now"@,
            Expression::Add(_, unit) => "add "@ + unit.name_spec(),
            Expression::Sub(_, unit) => "subtract "@ + unit.name_spec(),
            Expression::Floor(unit) => "floor "@ + unit.name_spec(),
        }
    }

    /// A short description of the operation.
    pub fn description(&self) -> (r: String)
        ensures
            r@ == self.description_spec(),
    {
        match self {
            Expression::Now => String::from_str("now"),
            Expression::Add(_, unit) => {
                let mut s = String::from_str("add ");
                s.append(unit.name());
                s
            },
            Expression::Sub(_, unit) => {
                let mut s = String::from_str("subtract ");
                s.append(unit.name());
                s
            },
            Expression::Floor(unit) => {
                let mut s = String::from_str("floor ");
                s.append(unit.name());
                s
            },
        }
    }
}

/// The unit a unit lexeme denotes.
pub open spec fn unit_of_token(t: lexer::Token) -> Unit {
    match t {
        lexer::Token::Year => Unit::Year,
        lexer::Token::Month => Unit::Month,
        lexer::Token::Week => Unit::Week,
        lexer::Token::Day => Unit::Day,
        lexer::Token::Hour => Unit::Hour,
        lexer::Token::Minute => Unit::Minute,
        _ => Unit::Second,
    }
}

/// Outcome of reading one number token.
pub ghost enum NumScan {
    Num { n: u32, next: int },
    Fail { err: ErrSpec },
}

/// Outcome of reading one unit token.
pub ghost enum UnitScan {
    Unit { u: Unit, next: int },
    Fail { err: ErrSpec },
}

/// Outcome of reading one whole expression.
pub ghost enum ExprScan {
    Done,
    Item { e: Expression, next: int },
    Fail { err: ErrSpec },
}

/// Read a number at character index `i`: `now`, any other token, or the
/// end of the text is a format error naming what was found.
pub open spec fn spec_number_at(s: Seq<char>, i: int) -> NumScan {
    match spec_scan(s, i) {
        ScanStep::End => NumScan::Fail {
            err: ErrSpec::Format {
                pos: bytes_up_to(s, s.len() as int),
                expected: TokenType::Value,
                found: TokenType::Nothing,
            },
        },
        ScanStep::Fail { err } => NumScan::Fail { err },
        ScanStep::Tok { pos, tok, next } => match tok {
            lexer::Token::Value(n) => NumScan::Num { n, next },
            _ => NumScan::Fail {
                err: ErrSpec::Format { pos, expected: TokenType::Value, found: token_kind(tok) },
            },
        },
    }
}

/// Read a unit at character index `i`.
pub open spec fn spec_punit_at(s: Seq<char>, i: int) -> UnitScan {
    match spec_scan(s, i) {
        ScanStep::End => UnitScan::Fail {
            err: ErrSpec::Format {
                pos: bytes_up_to(s, s.len() as int),
                expected: TokenType::Unit,
                found: TokenType::Nothing,
            },
        },
        ScanStep::Fail { err } => UnitScan::Fail { err },
        ScanStep::Tok { pos, tok, next } => {
            if token_kind(tok) is Unit {
                UnitScan::Unit { u: unit_of_token(tok), next }
            } else {
                UnitScan::Fail {
                    err: ErrSpec::Format { pos, expected: TokenType::Unit, found: token_kind(tok) },
                }
            }
        },
    }
}

/// Read the operand of an addition at character index `i`: a bare `now`
/// merges the reference instant, anything else must be a number
/// followed by a unit.
pub open spec fn spec_add_operand_at(s: Seq<char>, i: int) -> ExprScan {
    match spec_scan(s, i) {
        ScanStep::Tok { pos, tok: lexer::Token::Now, next } => ExprScan::Item {
            e: Expression::Now,
            next,
        },
        _ => match spec_number_at(s, i) {
            NumScan::Num { n, next } => match spec_punit_at(s, next) {
                UnitScan::Unit { u, next: n2 } => ExprScan::Item {
                    e: Expression::Add(n, u),
                    next: n2,
                },
                UnitScan::Fail { err } => ExprScan::Fail { err },
            },
            NumScan::Fail { err } => ExprScan::Fail { err },
        },
    }
}

/// Read the operand of a subtraction: a number followed by a unit.
pub open spec fn spec_sub_operand_at(s: Seq<char>, i: int) -> ExprScan {
    match spec_number_at(s, i) {
        NumScan::Num { n, next } => match spec_punit_at(s, next) {
            UnitScan::Unit { u, next: n2 } => ExprScan::Item {
                e: Expression::Sub(n, u),
                next: n2,
            },
            UnitScan::Fail { err } => ExprScan::Fail { err },
        },
        NumScan::Fail { err } => ExprScan::Fail { err },
    }
}

/// Read one whole expression starting at character index `i`. The first
/// expression may start with a bare operand, which counts as an implicit
/// addition; every later one must open with an explicit operator.
pub open spec fn spec_expr_at(s: Seq<char>, i: int, first: bool) -> ExprScan {
    match spec_scan(s, i) {
        ScanStep::End => ExprScan::Done,
        ScanStep::Fail { err } => ExprScan::Fail { err },
        ScanStep::Tok { pos, tok, next } => {
            if first && token_kind(tok) is Value {
                spec_add_operand_at(s, i)
            } else {
                match token_kind(tok) {
                    TokenType::Operator => match token_operator(tok) {
                        crate::parsing::Operator::Add => spec_add_operand_at(s, next),
                        crate::parsing::Operator::Sub => spec_sub_operand_at(s, next),
                        _ => match spec_punit_at(s, next) {
                            UnitScan::Unit { u, next: n2 } => ExprScan::Item {
                                e: Expression::Floor(u),
                                next: n2,
                            },
                            UnitScan::Fail { err } => ExprScan::Fail { err },
                        },
                    },
                    _ => ExprScan::Fail {
                        err: ErrSpec::Format {
                            pos,
                            expected: TokenType::Operator,
                            found: token_kind(tok),
                        },
                    },
                }
            }
        },
    }
}

/// A bare `now` where a subtraction's number is expected is a format
/// error at the byte offset of that token: only an addition may carry
/// the reference instant, so a leading quantity followed by `-now`
/// cannot parse.
pub proof fn lemma_sub_rejects_now(s: Seq<char>, i: int)
    requires
        spec_scan(s, i) matches ScanStep::Tok { pos, tok, next } && tok == lexer::Token::Now,
    ensures
        spec_sub_operand_at(s, i) matches ExprScan::Fail { err } && err == (ErrSpec::Format {
            pos: spec_scan(s, i)->pos,
            expected: TokenType::Value,
            found: TokenType::Value,
        }),
{
}

/// A successfully read expression ends strictly past where it began and
/// inside the text.
pub proof fn lemma_expr_progress(s: Seq<char>, i: int, first: bool)
    requires
        0 <= i <= s.len(),
    ensures
        match spec_expr_at(s, i, first) {
            ExprScan::Item { e, next } => i < next <= s.len(),
            _ => true,
        },
{
    lemma_scan_progress(s, i);
    match spec_scan(s, i) {
        ScanStep::Tok { pos, tok, next } => {
            lemma_scan_progress(s, next);
            match spec_scan(s, next) {
                ScanStep::Tok { pos: p2, tok: t2, next: n2 } => {
                    lemma_scan_progress(s, n2);
                },
                _ => {},
            }
        },
        _ => {},
    }
}

/// The expression parser, with a one-token lookahead over the scanner.
pub struct Parser {
    first: bool,
    lexer: Lexer,
    peeked: Option<(usize, lexer::Token)>,
    base: Ghost<int>,
}

impl Parser {
    /// The parsed text as a character sequence.
    pub closed spec fn text(&self) -> Seq<char> {
        self.lexer.text()
    }

    /// The character index where the unread part of the stream starts.
    pub closed spec fn at(&self) -> int {
        self.base@
    }

    /// Whether the next expression read would be the first.
    pub closed spec fn at_first(&self) -> bool {
        self.first
    }

    /// The scanner is well formed and the lookahead, when filled, holds
    /// exactly the token scanned at the stream position.
    pub closed spec fn wf(&self) -> bool {
        &&& self.lexer.wf()
        &&& match self.peeked {
            Option::None => self.base@ == self.lexer.cursor(),
            Option::Some((p, t)) => {
                &&& 0 <= self.base@ <= self.lexer.text().len()
                &&& spec_scan(self.lexer.text(), self.base@) == (ScanStep::Tok {
                    pos: p as int,
                    tok: t,
                    next: self.lexer.cursor(),
                })
            },
        }
    }

    /// Start parsing at the beginning of `text`.
    pub fn new(text: &str) -> (r: Parser)
        ensures
            r.wf(),
            r.text() == text@,
            r.at() == 0,
            r.at_first(),
    {
        let lexer = Lexer::new(text);
        let base = Ghost(lexer.cursor());
        Parser { first: true, lexer, peeked: Option::None, base }
    }

    /// Take the next token, from the lookahead if it is filled.
    fn next_token(&mut self) -> (r: Option<Result<(usize, lexer::Token), Error>>)
        requires
            old(self).wf(),
        ensures
            final(self).wf(),
            final(self).text() == old(self).text(),
            final(self).at_first() == old(self).at_first(),
            final(self).peeked_none(),
            match spec_scan(old(self).text(), old(self).at()) {
                ScanStep::End => r is None && final(self).at() == old(self).text().len(),
                ScanStep::Tok { pos, tok, next } => {
                    &&& 0 <= pos <= usize::MAX
                    &&& r == Some(Ok::<(usize, lexer::Token), Error>((pos as usize, tok)))
                    &&& final(self).at() == next
                },
                ScanStep::Fail { err } => r matches Some(re) && re matches Err(e) && matches_err(
                    e,
                    err,
                ),
            },
    {
        match self.peeked {
            Option::Some((p, t)) => {
                self.peeked = Option::None;
                self.base = Ghost(self.lexer.cursor());
                Option::Some(Ok((p, t)))
            },
            Option::None => {
                let r = self.lexer.next();
                self.base = Ghost(self.lexer.cursor());
                r
            },
        }
    }

    /// The lookahead is empty.
    pub closed spec fn peeked_none(&self) -> bool {
        self.peeked is None
    }

    /// The stream position of a well-formed parser sits inside its text.
    proof fn lemma_at_in_text(&self)
        requires
            self.wf(),
        ensures
            0 <= self.at() <= self.text().len(),
    {
        if self.peeked is None {
            self.lexer.lemma_cursor_in_text();
        }
    }

    /// Put a just-taken token back into the lookahead.
    fn push_back(&mut self, p: usize, t: lexer::Token, Ghost(at0): Ghost<int>)
        requires
            old(self).wf(),
            old(self).peeked_none(),
            0 <= at0 <= old(self).text().len(),
            spec_scan(old(self).text(), at0) == (ScanStep::Tok {
                pos: p as int,
                tok: t,
                next: old(self).at(),
            }),
        ensures
            final(self).wf(),
            final(self).text() == old(self).text(),
            final(self).at_first() == old(self).at_first(),
            final(self).at() == at0,
    {
        self.peeked = Option::Some((p, t));
        self.base = Ghost(at0);
    }

    /// Read the operator that opens an expression. Before the first
    /// expression a pending operand makes the operator an implicit
    /// addition and stays unread.
    fn next_operator(&mut self) -> (r: Option<Result<Operator, Error>>)
        requires
            old(self).wf(),
        ensures
            final(self).wf(),
            final(self).text() == old(self).text(),
            !final(self).at_first(),
            match spec_scan(old(self).text(), old(self).at()) {
                ScanStep::End => r is None && final(self).at() == old(self).text().len(),
                ScanStep::Tok { pos, tok, next } => {
                    if old(self).at_first() && token_kind(tok) is Value {
                        r == Some(Ok::<Operator, Error>(Operator::Add)) && final(self).at() == old(
                            self,
                        ).at()
                    } else if token_kind(tok) is Operator {
                        &&& r == Some(
                            Ok::<Operator, Error>(
                                match token_operator(tok) {
                                    crate::parsing::Operator::Add => Operator::Add,
                                    crate::parsing::Operator::Sub => Operator::Sub,
                                    _ => Operator::Floor,
                                },
                            ),
                        )
                        &&& final(self).at() == next
                    } else {
                        r matches Some(re) && re matches Err(e) && matches_err(
                            e,
                            ErrSpec::Format {
                                pos,
                                expected: TokenType::Operator,
                                found: token_kind(tok),
                            },
                        )
                    }
                },
                ScanStep::Fail { err } => r matches Some(re) && re matches Err(e) && matches_err(
                    e,
                    err,
                ),
            },
    {
        proof {
            self.lemma_at_in_text();
        }
        let was_first = self.first;
        self.first = false;
        let ghost at0 = self.at();
        let t = self.next_token();
        match t {
            Option::None => Option::None,
            Option::Some(Err(e)) => Option::Some(Err(e)),
            Option::Some(Ok((p, tok))) => {
                if was_first {
                    match tok {
                        lexer::Token::Now => {
                            self.push_back(p, tok, Ghost(at0));
                            return Option::Some(Ok(Operator::Add));
                        },
                        lexer::Token::Value(_) => {
                            self.push_back(p, tok, Ghost(at0));
                            return Option::Some(Ok(Operator::Add));
                        },
                        _ => {},
                    }
                }
                match tok {
                    lexer::Token::Add => Option::Some(Ok(Operator::Add)),
                    lexer::Token::Sub => Option::Some(Ok(Operator::Sub)),
                    lexer::Token::Floor => Option::Some(Ok(Operator::Floor)),
                    lexer::Token::Now => Option::Some(
                        Err(Error::InvalidFormat(p, TokenType::Operator, TokenType::Value)),
                    ),
                    lexer::Token::Value(_) => Option::Some(
                        Err(Error::InvalidFormat(p, TokenType::Operator, TokenType::Value)),
                    ),
                    _ => Option::Some(
                        Err(Error::InvalidFormat(p, TokenType::Operator, TokenType::Unit)),
                    ),
                }
            },
        }
    }

    /// Read the numeric operand of an expression.
    fn next_value(&mut self) -> (r: Option<Result<u32, Error>>)
        requires
            old(self).wf(),
        ensures
            final(self).wf(),
            final(self).text() == old(self).text(),
            final(self).at_first() == old(self).at_first(),
            match spec_number_at(old(self).text(), old(self).at()) {
                NumScan::Num { n, next } => r == Some(Ok::<u32, Error>(n)) && final(self).at()
                    == next,
                NumScan::Fail { err } => r matches Some(re) && re matches Err(e) && matches_err(
                    e,
                    err,
                ),
            },
    {
        let t = self.next_token();
        match t {
            Option::Some(Ok((_, lexer::Token::Value(n)))) => Option::Some(Ok(n)),
            Option::Some(Ok((p, lexer::Token::Now))) => Option::Some(
                Err(Error::InvalidFormat(p, TokenType::Value, TokenType::Value)),
            ),
            Option::Some(Ok((p, lexer::Token::Add))) | Option::Some(Ok((p, lexer::Token::Sub)))
                | Option::Some(Ok((p, lexer::Token::Floor))) => Option::Some(
                Err(Error::InvalidFormat(p, TokenType::Value, TokenType::Operator)),
            ),
            Option::Some(Ok((p, _))) => Option::Some(
                Err(Error::InvalidFormat(p, TokenType::Value, TokenType::Unit)),
            ),
            Option::Some(Err(e)) => Option::Some(Err(e)),
            Option::None => Option::Some(
                Err(
                    Error::InvalidFormat(
                        self.lexer.byte_len(),
                        TokenType::Value,
                        TokenType::Nothing,
                    ),
                ),
            ),
        }
    }

    /// Read the unit of an expression.
    fn next_unit(&mut self) -> (r: Option<Result<Unit, Error>>)
        requires
            old(self).wf(),
        ensures
            final(self).wf(),
            final(self).text() == old(self).text(),
            final(self).at_first() == old(self).at_first(),
            match spec_punit_at(old(self).text(), old(self).at()) {
                UnitScan::Unit { u, next } => r == Some(Ok::<Unit, Error>(u)) && final(self).at()
                    == next,
                UnitScan::Fail { err } => r matches Some(re) && re matches Err(e) && matches_err(
                    e,
                    err,
                ),
            },
    {
        let t = self.next_token();
        match t {
            Option::Some(Ok((_, lexer::Token::Year))) => Option::Some(Ok(Unit::Year)),
            Option::Some(Ok((_, lexer::Token::Month))) => Option::Some(Ok(Unit::Month)),
            Option::Some(Ok((_, lexer::Token::Week))) => Option::Some(Ok(Unit::Week)),
            Option::Some(Ok((_, lexer::Token::Day))) => Option::Some(Ok(Unit::Day)),
            Option::Some(Ok((_, lexer::Token::Hour))) => Option::Some(Ok(Unit::Hour)),
            Option::Some(Ok((_, lexer::Token::Minute))) => Option::Some(Ok(Unit::Minute)),
            Option::Some(Ok((_, lexer::Token::Second))) => Option::Some(Ok(Unit::Second)),
            Option::Some(Ok((p, lexer::Token::Add))) | Option::Some(Ok((p, lexer::Token::Sub)))
                | Option::Some(Ok((p, lexer::Token::Floor))) => Option::Some(
                Err(Error::InvalidFormat(p, TokenType::Unit, TokenType::Operator)),
            ),
            Option::Some(Ok((p, _))) => Option::Some(
                Err(Error::InvalidFormat(p, TokenType::Unit, TokenType::Value)),
            ),
            Option::Some(Err(e)) => Option::Some(Err(e)),
            Option::None => Option::Some(
                Err(
                    Error::InvalidFormat(
                        self.lexer.byte_len(),
                        TokenType::Unit,
                        TokenType::Nothing,
                    ),
                ),
            ),
        }
    }

    /// Read the next whole expression, `None` after the last one, or the
    /// error that stops the parse.
    pub fn next_expression(&mut self) -> (r: Option<Result<Expression, Error>>)
        requires
            old(self).wf(),
        ensures
            final(self).wf(),
            final(self).text() == old(self).text(),
            !final(self).at_first(),
            match spec_expr_at(old(self).text(), old(self).at(), old(self).at_first()) {
                ExprScan::Done => r is None,
                ExprScan::Item { e, next } => {
                    &&& r == Some(Ok::<Expression, Error>(e))
                    &&& final(self).at() == next
                    &&& old(self).at() < next <= old(self).text().len()
                },
                ExprScan::Fail { err } => r matches Some(re) && re matches Err(e) && matches_err(
                    e,
                    err,
                ),
            },
    {
        proof {
            if old(self).peeked_none() {
                self.lexer.lemma_cursor_in_text();
            }
            lemma_expr_progress(self.text(), self.at(), self.at_first());
        }
        let ghost at0 = self.at();
        let op = match self.next_operator() {
            Option::None => {
                return Option::None;
            },
            Option::Some(Err(e)) => {
                return Option::Some(Err(e));
            },
            Option::Some(Ok(op)) => op,
        };
        match op {
            Operator::Add => {
                proof {
                    self.lemma_at_in_text();
                }
                let ghost at1 = self.at();
                let t = self.next_token();
                match t {
                    Option::Some(Ok((_, lexer::Token::Now))) => {
                        return Option::Some(Ok(Expression::Now));
                    },
                    Option::Some(Ok((p, tok))) => {
                        self.push_back(p, tok, Ghost(at1));
                    },
                    Option::Some(Err(e)) => {
                        return Option::Some(Err(e));
                    },
                    Option::None => {},
                }
                let value = match self.next_value() {
                    Option::Some(Ok(v)) => v,
                    Option::Some(Err(e)) => {
                        return Option::Some(Err(e));
                    },
                    Option::None => {
                        return Option::None;
                    },
                };
                let unit = match self.next_unit() {
                    Option::Some(Ok(u)) => u,
                    Option::Some(Err(e)) => {
                        return Option::Some(Err(e));
                    },
                    Option::None => {
                        return Option::None;
                    },
                };
                Option::Some(Ok(Expression::Add(value, unit)))
            },
            Operator::Sub => {
                let value = match self.next_value() {
                    Option::Some(Ok(v)) => v,
                    Option::Some(Err(e)) => {
                        return Option::Some(Err(e));
                    },
                    Option::None => {
                        return Option::None;
                    },
                };
                let unit = match self.next_unit() {
                    Option::Some(Ok(u)) => u,
                    Option::Some(Err(e)) => {
                        return Option::Some(Err(e));
                    },
                    Option::None => {
                        return Option::None;
                    },
                };
                Option::Some(Ok(Expression::Sub(value, unit)))
            },
            Operator::Floor => {
                let unit = match self.next_unit() {
                    Option::Some(Ok(u)) => u,
                    Option::Some(Err(e)) => {
                        return Option::Some(Err(e));
                    },
                    Option::None => {
                        return Option::None;
                    },
                };
                Option::Some(Ok(Expression::Floor(unit)))
            },
        }
    }
}

} // verus!
