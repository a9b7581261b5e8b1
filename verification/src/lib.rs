//! Resolver for compact relative-time expressions such as `now+1d-2h/w`.
//!
//! An expression is a sequence of steps — add, subtract, or floor by a
//! calendar unit — applied to a reference instant. The library scans the
//! text into tokens, groups the tokens into expressions, and applies
//! them with leap-year-aware calendar arithmetic on a decomposed time
//! value. Every expression must name `now` exactly once, before any
//! floor operation.

pub mod calendar;
pub mod error;
pub mod lexer;
pub mod parser;
pub mod parsing;
pub mod time_components;

use vstd::prelude::*;

use crate::calendar::{
    is_leap, lemma_month_start_of_own_month, lemma_split_in_month, lemma_split_in_month_loose,
    month_of, spec_add_days, spec_add_seconds, spec_add_years, spec_floor_days, spec_floor_hours,
    spec_floor_minutes, spec_floor_months, spec_floor_seconds, spec_floor_weeks, spec_floor_years,
    spec_shift_months, spec_sub_days, spec_sub_seconds, spec_sub_years, CalValue,
};
use vstd::arithmetic::div_mod::{lemma_fundamental_div_mod, lemma_fundamental_div_mod_converse};
use crate::error::{matches_err, ErrSpec, Error};
use crate::lexer::{chars_of, ws_end, ws_end_of};
use crate::parser::{lemma_expr_progress, spec_expr_at, ExprScan, Expression, Parser, Unit};
use crate::time_components::{wf, wf_strict, year_within_limit, TimeComponents, YEAR_LIMIT};

verus! {

pub const MONTHS_PER_YEAR: u32 = 12;

pub const DAYS_PER_WEEK: u32 = 7;

pub const HOURS_PER_DAY: u32 = 24;

pub const MINUTES_PER_HOUR: u32 = 60;

pub const SECONDS_PER_MINUTE: u32 = 60;

/// A source of the current instant.
pub trait RelativeTimeNow: Sized {
    fn now() -> Self;
}

/// A time type the resolver can drive: it must supply month and second
/// arithmetic and the floors; the other units are derived from those,
/// splitting oversized counts into chunks so that no multiplication can
/// overflow.
pub trait RelativeTime: Clone {
    fn add_months(self, value: u32) -> Result<Self, Error>;

    fn add_seconds(self, value: u32) -> Result<Self, Error>;

    fn sub_months(self, value: u32) -> Result<Self, Error>;

    fn sub_seconds(self, value: u32) -> Result<Self, Error>;

    fn floor_years(self) -> Result<Self, Error>;

    fn floor_months(self) -> Result<Self, Error>;

    fn floor_weeks(self) -> Result<Self, Error>;

    fn floor_days(self) -> Result<Self, Error>;

    fn floor_hours(self) -> Result<Self, Error>;

    fn floor_minutes(self) -> Result<Self, Error>;

    fn floor_seconds(self) -> Result<Self, Error>;

    fn add_years(self, value: u32) -> Result<Self, Error> {
        let mut t = self;
        let mut rem = value;
        while rem > 357_913_941
            decreases rem,
        {
            t = match t.add_months(357_913_941u32 * 12) {
                Ok(v) => v,
                Err(e) => {
                    return Err(e);
                },
            };
            rem = rem - 357_913_941;
        }
        t.add_months(rem * 12)
    }

    fn add_weeks(self, value: u32) -> Result<Self, Error> {
        let mut t = self;
        let mut rem = value;
        while rem > 613_566_756
            decreases rem,
        {
            t = match t.add_days(613_566_756u32 * 7) {
                Ok(v) => v,
                Err(e) => {
                    return Err(e);
                },
            };
            rem = rem - 613_566_756;
        }
        t.add_days(rem * 7)
    }

    fn add_days(self, value: u32) -> Result<Self, Error> {
        let mut t = self;
        let mut rem = value;
        while rem > 178_956_970
            decreases rem,
        {
            t = match t.add_hours(178_956_970u32 * 24) {
                Ok(v) => v,
                Err(e) => {
                    return Err(e);
                },
            };
            rem = rem - 178_956_970;
        }
        t.add_hours(rem * 24)
    }

    fn add_hours(self, value: u32) -> Result<Self, Error> {
        let mut t = self;
        let mut rem = value;
        while rem > 71_582_788
            decreases rem,
        {
            t = match t.add_minutes(71_582_788u32 * 60) {
                Ok(v) => v,
                Err(e) => {
                    return Err(e);
                },
            };
            rem = rem - 71_582_788;
        }
        t.add_minutes(rem * 60)
    }

    fn add_minutes(self, value: u32) -> Result<Self, Error> {
        let mut t = self;
        let mut rem = value;
        while rem > 71_582_788
            decreases rem,
        {
            t = match t.add_seconds(71_582_788u32 * 60) {
                Ok(v) => v,
                Err(e) => {
                    return Err(e);
                },
            };
            rem = rem - 71_582_788;
        }
        t.add_seconds(rem * 60)
    }

    fn sub_years(self, value: u32) -> Result<Self, Error> {
        let mut t = self;
        let mut rem = value;
        while rem > 357_913_941
            decreases rem,
        {
            t = match t.sub_months(357_913_941u32 * 12) {
                Ok(v) => v,
                Err(e) => {
                    return Err(e);
                },
            };
            rem = rem - 357_913_941;
        }
        t.sub_months(rem * 12)
    }

    fn sub_weeks(self, value: u32) -> Result<Self, Error> {
        let mut t = self;
        let mut rem = value;
        while rem > 613_566_756
            decreases rem,
        {
            t = match t.sub_days(613_566_756u32 * 7) {
                Ok(v) => v,
                Err(e) => {
                    return Err(e);
                },
            };
            rem = rem - 613_566_756;
        }
        t.sub_days(rem * 7)
    }

    fn sub_days(self, value: u32) -> Result<Self, Error> {
        let mut t = self;
        let mut rem = value;
        while rem > 178_956_970
            decreases rem,
        {
            t = match t.sub_hours(178_956_970u32 * 24) {
                Ok(v) => v,
                Err(e) => {
                    return Err(e);
                },
            };
            rem = rem - 178_956_970;
        }
        t.sub_hours(rem * 24)
    }

    fn sub_hours(self, value: u32) -> Result<Self, Error> {
        let mut t = self;
        let mut rem = value;
        while rem > 71_582_788
            decreases rem,
        {
            t = match t.sub_minutes(71_582_788u32 * 60) {
                Ok(v) => v,
                Err(e) => {
                    return Err(e);
                },
            };
            rem = rem - 71_582_788;
        }
        t.sub_minutes(rem * 60)
    }

    fn sub_minutes(self, value: u32) -> Result<Self, Error> {
        let mut t = self;
        let mut rem = value;
        while rem > 71_582_788
            decreases rem,
        {
            t = match t.sub_seconds(71_582_788u32 * 60) {
                Ok(v) => v,
                Err(e) => {
                    return Err(e);
                },
            };
            rem = rem - 71_582_788;
        }
        t.sub_seconds(rem * 60)
    }
}

/// The text is exactly the literal `now`, optionally preceded by one
/// lone `+`, with whitespace allowed around both.
pub open spec fn is_now_shortcut(s: Seq<char>) -> bool {
    let a = ws_end(s, 0);
    let b = if a < s.len() && s[a] == '+' {
        ws_end(s, a + 1)
    } else {
        a
    };
    &&& b + 3 <= s.len()
    &&& s[b] == 'n'
    &&& s[b + 1] == 'o'
    &&& s[b + 2] == 'w'
    &&& ws_end(s, b + 3) == s.len()
}

/// Whether the whole text is the `now` shortcut.
fn is_shortcut(chars: &Vec<char>) -> (r: bool)
    ensures
        r == is_now_shortcut(chars@),
{
    let n = chars.len();
    let a = ws_end_of(chars, 0);
    let b = if a < n && chars[a] == '+' {
        ws_end_of(chars, a + 1)
    } else {
        a
    };
    if n >= 3 && b <= n - 3 {
        if chars[b] == 'n' && chars[b + 1] == 'o' && chars[b + 2] == 'w' {
            let e = ws_end_of(chars, b + 3);
            e == n
        } else {
            false
        }
    } else {
        false
    }
}

/// Result of applying one expression to an accumulator.
pub ghost enum EvalStep {
    Val { c: CalValue },
    Fail { err: ErrSpec },
}

/// Result of collecting the expressions before the `now` reference.
pub ghost enum Ph1 {
    Found { exprs: Seq<Expression>, next: int },
    Fail { err: ErrSpec },
}

/// Result of resolving a whole expression text.
pub ghost enum ResolveOut {
    Done { c: CalValue },
    Fail { err: ErrSpec },
}

/// Effect of adding `n` of a unit to a decomposed value.
pub open spec fn spec_apply_add(c: CalValue, n: u32, u: Unit) -> CalValue {
    match u {
        Unit::Year => spec_add_years(c, n as int),
        Unit::Month => spec_shift_months(c, n as int),
        Unit::Week => spec_add_days(c, 7 * n as int),
        Unit::Day => spec_add_days(c, n as int),
        Unit::Hour => spec_add_seconds(c, 3600 * n as int),
        Unit::Minute => spec_add_seconds(c, 60 * n as int),
        Unit::Second => spec_add_seconds(c, n as int),
    }
}

/// Effect of subtracting `n` of a unit from a decomposed value.
pub open spec fn spec_apply_sub(c: CalValue, n: u32, u: Unit) -> CalValue {
    match u {
        Unit::Year => spec_sub_years(c, n as int),
        Unit::Month => spec_shift_months(c, -(n as int)),
        Unit::Week => spec_sub_days(c, 7 * n as int),
        Unit::Day => spec_sub_days(c, n as int),
        Unit::Hour => spec_sub_seconds(c, 3600 * n as int),
        Unit::Minute => spec_sub_seconds(c, 60 * n as int),
        Unit::Second => spec_sub_seconds(c, n as int),
    }
}

/// Effect of flooring a decomposed value to a unit boundary.
pub open spec fn spec_apply_floor(c: CalValue, u: Unit) -> CalValue {
    match u {
        Unit::Year => spec_floor_years(c),
        Unit::Month => spec_floor_months(c),
        Unit::Week => spec_floor_weeks(c),
        Unit::Day => spec_floor_days(c),
        Unit::Hour => spec_floor_hours(c),
        Unit::Minute => spec_floor_minutes(c),
        Unit::Second => spec_floor_seconds(c),
    }
}

/// Apply one expression to the accumulator. A zero count is a no-op; a
/// second `now` is an error; an accumulator whose year count has left
/// the supported range reports the computed value as invalid.
pub open spec fn spec_apply_expr(c: CalValue, e: Expression) -> EvalStep {
    match e {
        Expression::Now => EvalStep::Fail { err: ErrSpec::ManyNow },
        Expression::Add(n, u) => {
            if n == 0 {
                EvalStep::Val { c }
            } else if !year_within_limit(c) {
                EvalStep::Fail { err: ErrSpec::Time { t: c } }
            } else {
                EvalStep::Val { c: spec_apply_add(c, n, u) }
            }
        },
        Expression::Sub(n, u) => {
            if n == 0 {
                EvalStep::Val { c }
            } else if !year_within_limit(c) {
                EvalStep::Fail { err: ErrSpec::Time { t: c } }
            } else {
                EvalStep::Val { c: spec_apply_sub(c, n, u) }
            }
        },
        Expression::Floor(u) => EvalStep::Val { c: spec_apply_floor(c, u) },
    }
}

/// Collect the expressions before the `now` reference. Reaching the end
/// first means the reference is missing; a floor first is rejected.
pub open spec fn spec_phase1(s: Seq<char>, i: int, first: bool, acc: Seq<Expression>) -> Ph1
    decreases s.len() - i,
        when 0 <= i <= s.len()
{
    match spec_expr_at(s, i, first) {
        ExprScan::Done => Ph1::Fail { err: ErrSpec::NoNow },
        ExprScan::Fail { err } => Ph1::Fail { err },
        ExprScan::Item { e, next } => match e {
            Expression::Now => Ph1::Found { exprs: acc, next },
            Expression::Floor(u) => Ph1::Fail { err: ErrSpec::EarlyFloor },
            _ => if i < next <= s.len() {
                spec_phase1(s, next, false, acc.push(e))
            } else {
                Ph1::Fail { err: ErrSpec::NoNow }
            },
        },
    }
}

/// A step of zero magnitude: adding or subtracting zero of any unit.
/// Such a step is a no-op and never touches the time value at all.
pub open spec fn is_zero_step(e: Expression) -> bool {
    ||| e matches Expression::Add(0, _)
    ||| e matches Expression::Sub(0, _)
}

/// Every expression of the sequence is a zero-magnitude step.
pub open spec fn all_zero(exprs: Seq<Expression>) -> bool {
    forall|i: int| 0 <= i < exprs.len() ==> is_zero_step(#[trigger] exprs[i])
}

/// From character index `i` on, the expression stream parses cleanly to
/// the end and holds only zero-magnitude steps: resolving it performs
/// no arithmetic at all.
pub open spec fn tail_all_zero(s: Seq<char>, i: int) -> bool
    decreases s.len() - i,
        when 0 <= i <= s.len()
{
    match spec_expr_at(s, i, false) {
        ExprScan::Done => true,
        ExprScan::Fail { err } => false,
        ExprScan::Item { e, next } => is_zero_step(e) && (if i < next <= s.len() {
            tail_all_zero(s, next)
        } else {
            false
        }),
    }
}

/// Apply a sequence of collected expressions in order.
pub open spec fn spec_apply_seq(c: CalValue, exprs: Seq<Expression>) -> EvalStep
    decreases exprs.len(),
{
    if exprs.len() == 0 {
        EvalStep::Val { c }
    } else {
        match spec_apply_expr(c, exprs[0]) {
            EvalStep::Fail { err } => EvalStep::Fail { err },
            EvalStep::Val { c: c2 } => spec_apply_seq(c2, exprs.drop_first()),
        }
    }
}

/// Parse and apply the expressions after the `now` reference.
pub open spec fn spec_run_tail(s: Seq<char>, i: int, c: CalValue) -> ResolveOut
    decreases s.len() - i,
        when 0 <= i <= s.len()
{
    match spec_expr_at(s, i, false) {
        ExprScan::Done => ResolveOut::Done { c },
        ExprScan::Fail { err } => ResolveOut::Fail { err },
        ExprScan::Item { e, next } => match spec_apply_expr(c, e) {
            EvalStep::Fail { err } => ResolveOut::Fail { err },
            EvalStep::Val { c: c2 } => if i < next <= s.len() {
                spec_run_tail(s, next, c2)
            } else {
                ResolveOut::Done { c: c2 }
            },
        },
    }
}

/// Resolve a whole expression text against a reference instant: the
/// `now` shortcut returns the instant unchanged; otherwise the steps
/// before the single `now` reference are collected and applied to it,
/// then the remaining steps are parsed and applied in order.
pub open spec fn spec_resolve(s: Seq<char>, now: CalValue) -> ResolveOut {
    if is_now_shortcut(s) {
        ResolveOut::Done { c: now }
    } else {
        match spec_phase1(s, 0, true, Seq::empty()) {
            Ph1::Fail { err } => ResolveOut::Fail { err },
            Ph1::Found { exprs, next } => match spec_apply_seq(now, exprs) {
                EvalStep::Fail { err } => ResolveOut::Fail { err },
                EvalStep::Val { c } => spec_run_tail(s, next, c),
            },
        }
    }
}

/// Apply one expression to a decomposed accumulator, checking that the
/// year count is inside the supported range before arithmetic.
fn apply_expression(time: TimeComponents, e: Expression) -> (r: Result<TimeComponents, Error>)
    requires
        wf(time@),
    ensures
        match spec_apply_expr(time@, e) {
            EvalStep::Val { c } => r matches Ok(t) && t@ == c && wf(c),
            EvalStep::Fail { err } => r matches Err(er) && matches_err(er, err),
        },
{
    match e {
        Expression::Now => Err(Error::MultipleNow),
        Expression::Add(n, u) => {
            if n == 0 {
                return Ok(time);
            }
            if time.years > YEAR_LIMIT || time.years < -YEAR_LIMIT {
                return Err(Error::InvalidTimestamp(time));
            }
            let mut t = time;
            match u {
                Unit::Year => t.add_years(n),
                Unit::Month => t.add_months(n),
                Unit::Week => t.add_weeks(n),
                Unit::Day => t.add_days(n),
                Unit::Hour => t.add_hours(n),
                Unit::Minute => t.add_minutes(n),
                Unit::Second => t.add_seconds(n),
            }
            Ok(t)
        },
        Expression::Sub(n, u) => {
            if n == 0 {
                return Ok(time);
            }
            if time.years > YEAR_LIMIT || time.years < -YEAR_LIMIT {
                return Err(Error::InvalidTimestamp(time));
            }
            let mut t = time;
            match u {
                Unit::Year => t.sub_years(n),
                Unit::Month => t.sub_months(n),
                Unit::Week => t.sub_weeks(n),
                Unit::Day => t.sub_days(n),
                Unit::Hour => t.sub_hours(n),
                Unit::Minute => t.sub_minutes(n),
                Unit::Second => t.sub_seconds(n),
            }
            Ok(t)
        },
        Expression::Floor(u) => {
            let mut t = time;
            match u {
                Unit::Year => t.floor_years(),
                Unit::Month => t.floor_months(),
                Unit::Week => t.floor_weeks(),
                Unit::Day => t.floor_days(),
                Unit::Hour => t.floor_hours(),
                Unit::Minute => t.floor_minutes(),
                Unit::Second => t.floor_seconds(),
            }
            Ok(t)
        },
    }
}

/// Resolve `text` against a caller-supplied decomposed reference
/// instant, entirely in verified calendar arithmetic. The result is
/// exactly what `spec_resolve` assigns to the text and the instant.
pub fn resolve_with_now(text: &str, now: TimeComponents) -> (r: Result<TimeComponents, Error>)
    requires
        wf(now@),
    ensures
        match spec_resolve(text@, now@) {
            ResolveOut::Done { c } => r matches Ok(t) && t@ == c,
            ResolveOut::Fail { err } => r matches Err(e) && matches_err(e, err),
        },
{
    let ghost s = text@;
    let chars = chars_of(text);
    if is_shortcut(&chars) {
        return Ok(now);
    }
    let mut parser = Parser::new(text);
    let mut exprs: Vec<Expression> = Vec::new();
    loop
        invariant_except_break
            s == text@,
            parser.wf(),
            parser.text() == s,
            0 <= parser.at() <= s.len(),
            !is_now_shortcut(s),
            wf(now@),
            spec_phase1(s, 0, true, Seq::empty()) == spec_phase1(
                s,
                parser.at(),
                parser.at_first(),
                exprs@,
            ),
        ensures
            parser.wf(),
            parser.text() == s,
            0 <= parser.at() <= s.len(),
            !parser.at_first(),
            !is_now_shortcut(s),
            wf(now@),
            spec_phase1(s, 0, true, Seq::empty()) == (Ph1::Found {
                exprs: exprs@,
                next: parser.at(),
            }),
        decreases s.len() - parser.at(),
    {
        proof {
            lemma_expr_progress(s, parser.at(), parser.at_first());
        }
        let ghost exprs0 = exprs@;
        let t = parser.next_expression();
        match t {
            Option::None => {
                return Err(Error::MissingNow);
            },
            Option::Some(Err(e)) => {
                return Err(e);
            },
            Option::Some(Ok(Expression::Now)) => {
                break ;
            },
            Option::Some(Ok(Expression::Floor(_))) => {
                return Err(Error::FloorBeforeNow);
            },
            Option::Some(Ok(e)) => {
                exprs.push(e);
                proof {
                    assert(exprs@ == exprs0.push(e));
                }
            },
        }
    }
    let ghost exprs_s = exprs@;
    let ghost tail_start = parser.at();
    proof {
        assert(exprs_s.skip(0) =~= exprs_s);
    }
    let mut time = now;
    let mut idx: usize = 0;
    while idx < exprs.len()
        invariant
            s == text@,
            0 <= idx <= exprs.len(),
            exprs@ == exprs_s,
            wf(time@),
            parser.wf(),
            parser.text() == s,
            0 <= parser.at() <= s.len(),
            !parser.at_first(),
            parser.at() == tail_start,
            !is_now_shortcut(s),
            spec_phase1(s, 0, true, Seq::empty()) == (Ph1::Found {
                exprs: exprs_s,
                next: tail_start,
            }),
            spec_apply_seq(now@, exprs_s) == spec_apply_seq(time@, exprs_s.skip(idx as int)),
        decreases exprs.len() - idx,
    {
        let e = exprs[idx];
        proof {
            assert(exprs_s.skip(idx as int)[0] == exprs_s[idx as int]);
            assert(exprs_s.skip(idx as int).drop_first() =~= exprs_s.skip(idx as int + 1));
        }
        time = match apply_expression(time, e) {
            Ok(t2) => t2,
            Err(er) => {
                return Err(er);
            },
        };
        idx = idx + 1;
    }
    proof {
        assert(exprs_s.skip(exprs_s.len() as int) =~= Seq::<Expression>::empty());
    }
    loop
        invariant
            s == text@,
            parser.wf(),
            parser.text() == s,
            0 <= parser.at() <= s.len(),
            !parser.at_first(),
            wf(time@),
            !is_now_shortcut(s),
            spec_resolve(s, now@) == spec_run_tail(s, parser.at(), time@),
        decreases s.len() - parser.at(),
    {
        proof {
            lemma_expr_progress(s, parser.at(), false);
        }
        let t = parser.next_expression();
        match t {
            Option::None => {
                return Ok(time);
            },
            Option::Some(Err(e)) => {
                return Err(e);
            },
            Option::Some(Ok(e)) => {
                time = match apply_expression(time, e) {
                    Ok(t2) => t2,
                    Err(er) => {
                        return Err(er);
                    },
                };
            },
        }
    }
}

/// Resolve `text` against a caller-supplied reference instant of any
/// time type. The `now` shortcut returns the instant unchanged, and
/// every failure of the scanner, the parser, or the one-`now` policy
/// before the reference is reported exactly; later steps run through
/// the time type's own arithmetic.
pub fn parse_str_with_now<T: RelativeTime>(text: &str, now: T) -> (r: Result<T, Error>)
    ensures
        is_now_shortcut(text@) ==> r == Ok::<T, Error>(now),
        !is_now_shortcut(text@) ==> match spec_phase1(text@, 0, true, Seq::empty()) {
            Ph1::Fail { err } => r matches Err(e) && matches_err(e, err),
            Ph1::Found { exprs, next } => {
                &&& (all_zero(exprs) && tail_all_zero(text@, next) ==> r == Ok::<T, Error>(now))
                &&& (spec_expr_at(text@, next, false) is Fail && all_zero(exprs) ==> (r matches
                Err(e) && matches_err(e, spec_expr_at(text@, next, false)->err)))
                &&& (spec_expr_at(text@, next, false) matches ExprScan::Item { e: e0, next: n2 }
                    && e0 is Now && all_zero(exprs) ==> (r matches Err(er) && er
                    is MultipleNow))
            },
        },
{
    let ghost s = text@;
    let chars = chars_of(text);
    if is_shortcut(&chars) {
        return Ok(now);
    }
    let mut parser = Parser::new(text);
    let mut exprs: Vec<Expression> = Vec::new();
    loop
        invariant_except_break
            s == text@,
            parser.wf(),
            parser.text() == s,
            0 <= parser.at() <= s.len(),
            !is_now_shortcut(s),
            spec_phase1(s, 0, true, Seq::empty()) == spec_phase1(
                s,
                parser.at(),
                parser.at_first(),
                exprs@,
            ),
        ensures
            parser.wf(),
            parser.text() == s,
            0 <= parser.at() <= s.len(),
            !parser.at_first(),
            !is_now_shortcut(s),
            spec_phase1(s, 0, true, Seq::empty()) == (Ph1::Found {
                exprs: exprs@,
                next: parser.at(),
            }),
        decreases s.len() - parser.at(),
    {
        proof {
            lemma_expr_progress(s, parser.at(), parser.at_first());
        }
        let ghost exprs0 = exprs@;
        let t = parser.next_expression();
        match t {
            Option::None => {
                return Err(Error::MissingNow);
            },
            Option::Some(Err(e)) => {
                return Err(e);
            },
            Option::Some(Ok(Expression::Now)) => {
                break ;
            },
            Option::Some(Ok(Expression::Floor(_))) => {
                return Err(Error::FloorBeforeNow);
            },
            Option::Some(Ok(e)) => {
                exprs.push(e);
                proof {
                    assert(exprs@ == exprs0.push(e));
                }
            },
        }
    }
    let ghost exprs_s = exprs@;
    let ghost tail_start = parser.at();
    let ghost now0 = now;
    let mut time = now;
    let mut idx: usize = 0;
    while idx < exprs.len()
        invariant
            s == text@,
            0 <= idx <= exprs.len(),
            exprs@ == exprs_s,
            parser.wf(),
            parser.text() == s,
            0 <= parser.at() <= s.len(),
            !parser.at_first(),
            parser.at() == tail_start,
            !is_now_shortcut(s),
            now0 == now,
            spec_phase1(s, 0, true, Seq::empty()) == (Ph1::Found {
                exprs: exprs_s,
                next: tail_start,
            }),
            all_zero(exprs_s) ==> time == now0,
        decreases exprs.len() - idx,
    {
        let e = exprs[idx];
        proof {
            if all_zero(exprs_s) {
                assert(is_zero_step(exprs_s[idx as int]));
            }
        }
        time = match apply_to_time(time, e) {
            Ok(t2) => t2,
            Err(er) => {
                return Err(er);
            },
        };
        idx = idx + 1;
    }
    loop
        invariant
            s == text@,
            parser.wf(),
            parser.text() == s,
            0 <= parser.at() <= s.len(),
            0 <= tail_start <= s.len(),
            !parser.at_first(),
            !is_now_shortcut(s),
            now0 == now,
            spec_phase1(s, 0, true, Seq::empty()) == (Ph1::Found {
                exprs: exprs_s,
                next: tail_start,
            }),
            all_zero(exprs_s) && tail_all_zero(s, tail_start) ==> time == now0 && tail_all_zero(
                s,
                parser.at(),
            ),
            all_zero(exprs_s) && spec_expr_at(s, tail_start, false) is Fail ==> parser.at()
                == tail_start,
            spec_expr_at(s, tail_start, false) matches ExprScan::Item { e: e0, next: n2 } && e0
                is Now && all_zero(exprs_s) ==> parser.at() == tail_start,
        decreases s.len() - parser.at(),
    {
        proof {
            lemma_expr_progress(s, parser.at(), false);
        }
        let t = parser.next_expression();
        match t {
            Option::None => {
                return Ok(time);
            },
            Option::Some(Err(e)) => {
                return Err(e);
            },
            Option::Some(Ok(e)) => {
                time = match apply_to_time(time, e) {
                    Ok(t2) => t2,
                    Err(er) => {
                        return Err(er);
                    },
                };
            },
        }
    }
}

/// Apply one expression through a time type's own arithmetic. A zero
/// count is a no-op returning the time unchanged without any trait
/// call; a second `now` is an error; everything else is decided by the
/// time type.
fn apply_to_time<T: RelativeTime>(time: T, e: Expression) -> (r: Result<T, Error>)
    ensures
        e is Now ==> (r matches Err(er) && er is MultipleNow),
        is_zero_step(e) ==> r == Ok::<T, Error>(time),
{
    match e {
        Expression::Now => Err(Error::MultipleNow),
        Expression::Add(0, _) => Ok(time),
        Expression::Sub(0, _) => Ok(time),
        Expression::Add(value, unit) => match unit {
            Unit::Year => time.add_years(value),
            Unit::Month => time.add_months(value),
            Unit::Week => time.add_weeks(value),
            Unit::Day => time.add_days(value),
            Unit::Hour => time.add_hours(value),
            Unit::Minute => time.add_minutes(value),
            Unit::Second => time.add_seconds(value),
        },
        Expression::Sub(value, unit) => match unit {
            Unit::Year => time.sub_years(value),
            Unit::Month => time.sub_months(value),
            Unit::Week => time.sub_weeks(value),
            Unit::Day => time.sub_days(value),
            Unit::Hour => time.sub_hours(value),
            Unit::Minute => time.sub_minutes(value),
            Unit::Second => time.sub_seconds(value),
        },
        Expression::Floor(unit) => match unit {
            Unit::Year => time.floor_years(),
            Unit::Month => time.floor_months(),
            Unit::Week => time.floor_weeks(),
            Unit::Day => time.floor_days(),
            Unit::Hour => time.floor_hours(),
            Unit::Minute => time.floor_minutes(),
            Unit::Second => time.floor_seconds(),
        },
    }
}

/// A zero-magnitude operation is a no-op: applied to a well-formed
/// value, adding or subtracting zero of any unit through the full
/// routine returns the value unchanged, exactly as the fast path does.
pub proof fn lemma_zero_step_identity(c: CalValue, u: Unit)
    requires
        wf_strict(c),
    ensures
        spec_apply_add(c, 0, u) == c,
        spec_apply_sub(c, 0, u) == c,
{
    lemma_split_in_month(is_leap(c.years), c.days);
    lemma_fundamental_div_mod_converse(c.years * 12 + month_of(is_leap(c.years), c.days), 12,
        c.years, month_of(is_leap(c.years), c.days));
}

/// Flooring is idempotent: flooring an already floored value to the
/// same unit changes nothing.
pub proof fn lemma_floor_idempotent(c: CalValue, u: Unit)
    requires
        wf(c),
    ensures
        spec_apply_floor(spec_apply_floor(c, u), u) == spec_apply_floor(c, u),
{
    match u {
        Unit::Month => {
            let leap = is_leap(c.years);
            lemma_split_in_month_loose(leap, c.days);
            let m = month_of(leap, c.days);
            lemma_month_start_of_own_month(leap, m);
        },
        Unit::Week => {
            lemma_fundamental_div_mod(c.days, 7);
            vstd::arithmetic::div_mod::lemma_mod_multiples_basic(c.days / 7, 7);
        },
        Unit::Hour => {
            lemma_fundamental_div_mod(c.seconds, 3600);
            vstd::arithmetic::div_mod::lemma_mod_multiples_basic(c.seconds / 3600, 3600);
        },
        Unit::Minute => {
            lemma_fundamental_div_mod(c.seconds, 60);
            vstd::arithmetic::div_mod::lemma_mod_multiples_basic(c.seconds / 60, 60);
        },
        _ => {},
    }
}

/// Resolve `text` against the current instant, fetched exactly once so
/// that every occurrence of `now` in one expression denotes the same
/// moment.
pub fn parse_str<T: RelativeTime + RelativeTimeNow>(text: &str) -> (r: Result<T, Error>)
    ensures
        is_now_shortcut(text@) ==> r is Ok,
        !is_now_shortcut(text@) ==> match spec_phase1(text@, 0, true, Seq::empty()) {
            Ph1::Fail { err } => r matches Err(e) && matches_err(e, err),
            Ph1::Found { exprs, next } => {
                &&& (all_zero(exprs) && tail_all_zero(text@, next) ==> r is Ok)
                &&& (spec_expr_at(text@, next, false) is Fail && all_zero(exprs) ==> (r matches
                Err(e) && matches_err(e, spec_expr_at(text@, next, false)->err)))
                &&& (spec_expr_at(text@, next, false) matches ExprScan::Item { e: e0, next: n2 }
                    && e0 is Now && all_zero(exprs) ==> (r matches Err(er) && er
                    is MultipleNow))
            },
        },
{
    parse_str_with_now(text, T::now())
}

} // verus!
