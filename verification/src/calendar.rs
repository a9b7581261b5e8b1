//! Mathematical model of the proleptic-Gregorian calendar.
//!
//! Everything here is specification-level: leap years, month lengths,
//! cumulative day counts, and the absolute day index that gives every
//! `(year, day-of-year)` pair a place on one unbounded day line.

use vstd::prelude::*;

verus! {

/// A decomposed instant as pure mathematical integers: the model of
/// `TimeComponents`.
pub ghost struct CalValue {
    /// Proleptic-Gregorian year (may be negative).
    pub years: int,
    /// Zero-indexed day within the year.
    pub days: int,
    /// Seconds since the last day boundary.
    pub seconds: int,
    /// Nanoseconds since the last second boundary.
    pub nanos: int,
}

/// Gregorian leap-year rule: divisible by 4 and, if divisible by 100,
/// also divisible by 400.
pub open spec fn is_leap(y: int) -> bool {
    y % 4 == 0 && (y % 400 == 0 || y % 100 != 0)
}

/// Number of days in year `y`.
pub open spec fn year_len(y: int) -> int {
    if is_leap(y) {
        366
    } else {
        365
    }
}

/// Number of days in month `m` (zero-indexed) of a year of the given kind.
pub open spec fn month_len(leap: bool, m: int) -> int {
    if m == 1 {
        if leap {
            29
        } else {
            28
        }
    } else if m == 3 || m == 5 || m == 8 || m == 10 {
        30
    } else {
        31
    }
}

/// Day-of-year on which month `m` (zero-indexed) begins.
pub open spec fn month_start(leap: bool, m: int) -> int {
    let shift: int = if leap {
        1
    } else {
        0
    };
    if m <= 0 {
        0
    } else if m == 1 {
        31
    } else if m == 2 {
        59 + shift
    } else if m == 3 {
        90 + shift
    } else if m == 4 {
        120 + shift
    } else if m == 5 {
        151 + shift
    } else if m == 6 {
        181 + shift
    } else if m == 7 {
        212 + shift
    } else if m == 8 {
        243 + shift
    } else if m == 9 {
        273 + shift
    } else if m == 10 {
        304 + shift
    } else {
        334 + shift
    }
}

/// Zero-indexed month that contains day-of-year `d`. Days at or past the
/// start of December always land in December, so a transient day just past
/// the end of the year still maps to a month.
pub open spec fn month_of(leap: bool, d: int) -> int {
    if d < month_start(leap, 1) {
        0
    } else if d < month_start(leap, 2) {
        1
    } else if d < month_start(leap, 3) {
        2
    } else if d < month_start(leap, 4) {
        3
    } else if d < month_start(leap, 5) {
        4
    } else if d < month_start(leap, 6) {
        5
    } else if d < month_start(leap, 7) {
        6
    } else if d < month_start(leap, 8) {
        7
    } else if d < month_start(leap, 9) {
        8
    } else if d < month_start(leap, 10) {
        9
    } else if d < month_start(leap, 11) {
        10
    } else {
        11
    }
}

/// Zero-indexed day within its month of day-of-year `d`.
pub open spec fn day_in_month(leap: bool, d: int) -> int {
    d - month_start(leap, month_of(leap, d))
}

/// Days on the absolute day line before January 1 of year `y`: the sum of
/// the lengths of all years in `[0, y)`, negated for years before zero.
pub open spec fn days_before_year(y: int) -> int
    decreases
            if y >= 0 {
                y
            } else {
                -y
            },
{
    if y > 0 {
        days_before_year(y - 1) + year_len(y - 1)
    } else if y < 0 {
        days_before_year(y + 1) - year_len(y)
    } else {
        0
    }
}

/// Absolute day index of a decomposed value: days since day 0 of year 0.
pub open spec fn abs_day(c: CalValue) -> int {
    days_before_year(c.years) + c.days
}

/// Absolute second index of a decomposed value.
pub open spec fn abs_sec(c: CalValue) -> int {
    abs_day(c) * 86400 + c.seconds
}

/// Absolute nanosecond index of a decomposed value.
pub open spec fn abs_nano(c: CalValue) -> int {
    abs_sec(c) * 1_000_000_000 + c.nanos
}

/// Normalize a day count that may run past the end of its year: move
/// whole years forward until the day index fits its year.
pub open spec fn norm_days_up(y: int, d: int) -> (int, int)
    decreases d,
        when d >= 0
{
    if d < year_len(y) {
        (y, d)
    } else {
        norm_days_up(y + 1, d - year_len(y))
    }
}

/// Normalize a negative day count: borrow whole years backward until the
/// day index is non-negative.
pub open spec fn norm_days_down(y: int, d: int) -> (int, int)
    decreases -d,
        when d < 0
{
    let d2 = d + year_len(y - 1);
    if d2 >= 0 {
        (y - 1, d2)
    } else {
        norm_days_down(y - 1, d2)
    }
}

/// Normalize a day count of either sign: non-negative counts are already
/// in place, negative ones borrow years backward.
pub open spec fn norm_days_from(y: int, d: int) -> (int, int) {
    if d >= 0 {
        (y, d)
    } else {
        norm_days_down(y, d)
    }
}

/// Effect of adding `n` whole years: the day-of-year is kept as it is.
pub open spec fn spec_add_years(c: CalValue, n: int) -> CalValue {
    CalValue { years: c.years + n, ..c }
}

/// Effect of subtracting `n` whole years.
pub open spec fn spec_sub_years(c: CalValue, n: int) -> CalValue {
    CalValue { years: c.years - n, ..c }
}

/// Effect of adding `n` days, `n >= 0`, carrying whole years forward.
pub open spec fn spec_add_days(c: CalValue, n: int) -> CalValue {
    if n == 0 {
        c
    } else {
        let yd = norm_days_up(c.years, c.days + n);
        CalValue { years: yd.0, days: yd.1, ..c }
    }
}

/// Effect of subtracting `n` days, `n >= 0`, borrowing whole years.
pub open spec fn spec_sub_days(c: CalValue, n: int) -> CalValue {
    if n == 0 {
        c
    } else if c.days - n >= 0 {
        CalValue { days: c.days - n, ..c }
    } else {
        let yd = norm_days_down(c.years, c.days - n);
        CalValue { years: yd.0, days: yd.1, ..c }
    }
}

/// Effect of adding `n` seconds: the second-of-day wraps at 86400 and the
/// surplus carries into days.
pub open spec fn spec_add_seconds(c: CalValue, n: int) -> CalValue {
    if n == 0 {
        c
    } else {
        let t = c.seconds + n;
        spec_add_days(CalValue { seconds: t % 86400, ..c }, t / 86400)
    }
}

/// Effect of subtracting `n` seconds, borrowing a day when the
/// second-of-day would underflow.
pub open spec fn spec_sub_seconds(c: CalValue, n: int) -> CalValue {
    if n == 0 {
        c
    } else {
        let d = n / 86400;
        let s = n % 86400;
        if c.seconds >= s {
            spec_sub_days(CalValue { seconds: c.seconds - s, ..c }, d)
        } else {
            spec_sub_days(CalValue { seconds: c.seconds + 86400 - s, ..c }, d + 1)
        }
    }
}

/// Effect of adding `n` nanoseconds, carrying into seconds.
pub open spec fn spec_add_nanos(c: CalValue, n: int) -> CalValue {
    if n == 0 {
        c
    } else {
        let t = c.nanos + n;
        spec_add_seconds(CalValue { nanos: t % 1_000_000_000, ..c }, t / 1_000_000_000)
    }
}

/// Effect of subtracting `n` nanoseconds, borrowing a second when the
/// nanosecond field would underflow.
pub open spec fn spec_sub_nanos(c: CalValue, n: int) -> CalValue {
    if n == 0 {
        c
    } else {
        let s = n / 1_000_000_000;
        let r = n % 1_000_000_000;
        if c.nanos >= r {
            spec_sub_seconds(CalValue { nanos: c.nanos - r, ..c }, s)
        } else {
            spec_sub_seconds(CalValue { nanos: c.nanos + 1_000_000_000 - r, ..c }, s + 1)
        }
    }
}

/// Effect of moving `delta` months (of either sign): the month index is
/// shifted with carry into years, and the day-in-month is clamped to the
/// last valid day of the destination month, never rolling over.
pub open spec fn spec_shift_months(c: CalValue, delta: int) -> CalValue {
    let leap = is_leap(c.years);
    let m = month_of(leap, c.days);
    let dim = day_in_month(leap, c.days);
    let total = c.years * 12 + m + delta;
    let y2 = total / 12;
    let m2 = total % 12;
    let leap2 = is_leap(y2);
    let dim2 = if dim < month_len(leap2, m2) {
        dim
    } else {
        month_len(leap2, m2) - 1
    };
    CalValue { years: y2, days: month_start(leap2, m2) + dim2, ..c }
}

/// Floor to the current second: clear nanoseconds.
pub open spec fn spec_floor_seconds(c: CalValue) -> CalValue {
    CalValue { nanos: 0, ..c }
}

/// Floor to the current minute.
pub open spec fn spec_floor_minutes(c: CalValue) -> CalValue {
    CalValue { seconds: c.seconds - c.seconds % 60, nanos: 0, ..c }
}

/// Floor to the current hour.
pub open spec fn spec_floor_hours(c: CalValue) -> CalValue {
    CalValue { seconds: c.seconds - c.seconds % 3600, nanos: 0, ..c }
}

/// Floor to the current day: clear everything below the day.
pub open spec fn spec_floor_days(c: CalValue) -> CalValue {
    CalValue { seconds: 0, nanos: 0, ..c }
}

/// Floor to the start of the current week (weeks are aligned to the day
/// line modulo 7 within the year).
pub open spec fn spec_floor_weeks(c: CalValue) -> CalValue {
    CalValue { days: c.days - c.days % 7, seconds: 0, nanos: 0, ..c }
}

/// Floor to the first day of the current month.
pub open spec fn spec_floor_months(c: CalValue) -> CalValue {
    CalValue {
        days: c.days - day_in_month(is_leap(c.years), c.days),
        seconds: 0,
        nanos: 0,
        ..c
    }
}

/// Floor to the first day of the current year.
pub open spec fn spec_floor_years(c: CalValue) -> CalValue {
    CalValue { days: 0, seconds: 0, nanos: 0, ..c }
}

/// Flip the sign of the year field; the finer fields are unsigned
/// magnitudes and keep their values.
pub open spec fn spec_neg(c: CalValue) -> CalValue {
    CalValue { years: -c.years, ..c }
}

/// Merge a decomposed value with non-negative years into another by
/// adding field by field, finest first.
pub open spec fn spec_merge_add_nonneg(c: CalValue, r: CalValue) -> CalValue {
    spec_add_years(
        spec_add_days(spec_add_seconds(spec_add_nanos(c, r.nanos), r.seconds), r.days),
        r.years,
    )
}

/// Remove a decomposed value with non-negative years from another by
/// subtracting field by field, finest first.
pub open spec fn spec_merge_sub_nonneg(c: CalValue, r: CalValue) -> CalValue {
    spec_sub_years(
        spec_sub_days(spec_sub_seconds(spec_sub_nanos(c, r.nanos), r.seconds), r.days),
        r.years,
    )
}

/// Merge `r` into `c`. A negative year count means `r` is a negative
/// span: it is negated and subtracted instead.
pub open spec fn spec_merge_add(c: CalValue, r: CalValue) -> CalValue {
    if r.years >= 0 {
        spec_merge_add_nonneg(c, r)
    } else {
        spec_merge_sub_nonneg(c, spec_neg(r))
    }
}

/// Remove `r` from `c`, negating and adding when `r` has negative years.
pub open spec fn spec_merge_sub(c: CalValue, r: CalValue) -> CalValue {
    if r.years >= 0 {
        spec_merge_sub_nonneg(c, r)
    } else {
        spec_merge_add_nonneg(c, spec_neg(r))
    }
}

/// A day index strictly inside its year splits into a month below 12
/// and a day strictly inside that month.
pub proof fn lemma_split_in_month(leap: bool, d: int)
    requires
        0 <= d < (if leap {
            366int
        } else {
            365int
        }),
    ensures
        0 <= month_of(leap, d) < 12,
        month_start(leap, month_of(leap, d)) <= d,
        0 <= day_in_month(leap, d) < month_len(leap, month_of(leap, d)),
{
}

/// A day index at most one past the year's end still splits into a
/// month below 12, with the day in the month not past index 31.
pub proof fn lemma_split_in_month_loose(leap: bool, d: int)
    requires
        0 <= d <= 365,
    ensures
        0 <= month_of(leap, d) < 12,
        month_start(leap, month_of(leap, d)) <= d,
        0 <= day_in_month(leap, d) <= 31,
{
}

/// The first day of a month belongs to that month.
pub proof fn lemma_month_start_of_own_month(leap: bool, m: int)
    requires
        0 <= m < 12,
    ensures
        month_of(leap, month_start(leap, m)) == m,
        day_in_month(leap, month_start(leap, m)) == 0,
{
}

/// Stepping one year forward adds exactly that year's length to the
/// day count before the boundary.
pub proof fn lemma_days_before_year_succ(y: int)
    ensures
        days_before_year(y + 1) == days_before_year(y) + year_len(y),
{
    if y + 1 > 0 {
        assert(days_before_year(y + 1) == days_before_year(y) + year_len(y));
    } else {
        assert(days_before_year(y) == days_before_year(y + 1) - year_len(y));
    }
}

/// Normalizing forward keeps the position on the absolute day line.
proof fn lemma_norm_up_abs(y: int, d: int)
    requires
        d >= 0,
    ensures
        days_before_year(norm_days_up(y, d).0) + norm_days_up(y, d).1 == days_before_year(y) + d,
    decreases d,
{
    if d >= year_len(y) {
        lemma_days_before_year_succ(y);
        lemma_norm_up_abs(y + 1, d - year_len(y));
    }
}

/// Normalizing backward keeps the position on the absolute day line.
proof fn lemma_norm_down_abs(y: int, d: int)
    requires
        d < 0,
    ensures
        days_before_year(norm_days_down(y, d).0) + norm_days_down(y, d).1 == days_before_year(y)
            + d,
    decreases -d,
{
    lemma_days_before_year_succ(y - 1);
    if d + year_len(y - 1) < 0 {
        lemma_norm_down_abs(y - 1, d + year_len(y - 1));
    }
}

/// Adding days moves the absolute day index forward by exactly that
/// count; the time of day is untouched.
pub proof fn lemma_add_days_abs(c: CalValue, n: int)
    requires
        c.days >= 0,
        n >= 0,
    ensures
        abs_day(spec_add_days(c, n)) == abs_day(c) + n,
        spec_add_days(c, n).seconds == c.seconds,
        spec_add_days(c, n).nanos == c.nanos,
{
    if n != 0 {
        lemma_norm_up_abs(c.years, c.days + n);
    }
}

/// Subtracting days moves the absolute day index backward by exactly
/// that count; the time of day is untouched.
pub proof fn lemma_sub_days_abs(c: CalValue, n: int)
    requires
        n >= 0,
    ensures
        abs_day(spec_sub_days(c, n)) == abs_day(c) - n,
        spec_sub_days(c, n).seconds == c.seconds,
        spec_sub_days(c, n).nanos == c.nanos,
{
    if n != 0 && c.days - n < 0 {
        lemma_norm_down_abs(c.years, c.days - n);
    }
}

/// Adding seconds moves the absolute second index forward by exactly
/// that count; nanoseconds are untouched.
pub proof fn lemma_add_seconds_abs(c: CalValue, n: int)
    requires
        c.days >= 0,
        c.seconds >= 0,
        n >= 0,
    ensures
        abs_sec(spec_add_seconds(c, n)) == abs_sec(c) + n,
        spec_add_seconds(c, n).nanos == c.nanos,
{
    if n != 0 {
        let t = c.seconds + n;
        vstd::arithmetic::div_mod::lemma_fundamental_div_mod(t, 86400);
        lemma_add_days_abs(CalValue { seconds: t % 86400, ..c }, t / 86400);
    }
}

/// Subtracting seconds moves the absolute second index backward by
/// exactly that count; nanoseconds are untouched.
pub proof fn lemma_sub_seconds_abs(c: CalValue, n: int)
    requires
        0 <= c.seconds < 86400,
        n >= 0,
    ensures
        abs_sec(spec_sub_seconds(c, n)) == abs_sec(c) - n,
        spec_sub_seconds(c, n).nanos == c.nanos,
{
    if n != 0 {
        let d = n / 86400;
        let s = n % 86400;
        vstd::arithmetic::div_mod::lemma_fundamental_div_mod(n, 86400);
        if c.seconds >= s {
            lemma_sub_days_abs(CalValue { seconds: c.seconds - s, ..c }, d);
        } else {
            lemma_sub_days_abs(CalValue { seconds: c.seconds + 86400 - s, ..c }, d + 1);
        }
    }
}

} // verus!
