//! The calendar-arithmetic engine: a decomposed time value with
//! add/subtract/floor operations per unit.

use vstd::prelude::*;

use crate::calendar::{
    day_in_month, is_leap, month_len, month_of, month_start, norm_days_down, norm_days_up,
    spec_add_days, spec_add_nanos, spec_add_seconds, spec_add_years, spec_floor_days,
    spec_floor_hours, spec_floor_minutes, spec_floor_months, spec_floor_seconds, spec_floor_weeks,
    spec_floor_years, spec_merge_add, spec_merge_add_nonneg, spec_merge_sub, spec_merge_sub_nonneg,
    norm_days_from, spec_neg, spec_shift_months, spec_sub_days, spec_sub_nanos, spec_sub_seconds,
    spec_sub_years, year_len, CalValue,
};
use vstd::arithmetic::div_mod::{lemma_fundamental_div_mod, lemma_fundamental_div_mod_converse};

verus! {

/// Largest magnitude the year field may have when an arithmetic step
/// starts; far beyond any date but small enough that no single step can
/// overflow the field.
pub const YEAR_LIMIT: i64 = 0x1000_0000_0000_0000;

/// A decomposed calendar instant: year, day-of-year, second-of-day and
/// nanosecond-of-second. The arithmetic accumulator of the resolver.
#[derive(Debug, Clone, Copy, PartialEq, Eq, Structural)]
pub struct TimeComponents {
    /// The number of years relative to CE.
    pub years: i64,
    /// The number of days since the last year boundary.
    pub days: u32,
    /// The number of seconds since the last day boundary.
    pub seconds: u32,
    /// The number of nanoseconds since the last second boundary.
    ///
    /// In event of a leap second this may exceed `999_999_999`.
    pub nanos: u32,
}

impl View for TimeComponents {
    type V = CalValue;

    open spec fn view(&self) -> CalValue {
        CalValue {
            years: self.years as int,
            days: self.days as int,
            seconds: self.seconds as int,
            nanos: self.nanos as int,
        }
    }
}

/// Operating invariant of a decomposed value. The day may transiently sit
/// one past the last day of a common year (index 365) after a whole-year
/// shift; carry routines correct it before it is observed.
pub open spec fn wf(c: CalValue) -> bool {
    &&& 0 <= c.days <= 365
    &&& 0 <= c.seconds < 86400
    &&& 0 <= c.nanos < 2_000_000_000
}

/// A value whose day index is strictly inside its own year: every value
/// decomposed from a real instant satisfies this.
pub open spec fn wf_strict(c: CalValue) -> bool {
    &&& wf(c)
    &&& c.days < year_len(c.years)
}

/// The year field is far enough from the representation limits that one
/// arithmetic step, including the internal carries of a merge, cannot
/// overflow it. Slightly wider than `year_within_limit` so that chained
/// internal carries stay inside it.
pub open spec fn year_in_range(c: CalValue) -> bool {
    -0x1100_0000_0000_0000 <= c.years <= 0x1100_0000_0000_0000
}

/// The year field is within the published limit that the resolver
/// enforces before every arithmetic step.
pub open spec fn year_within_limit(c: CalValue) -> bool {
    -0x1000_0000_0000_0000 <= c.years <= 0x1000_0000_0000_0000
}

/// Whether year `y` is a Gregorian leap year.
fn is_leap_of(y: i64) -> (r: bool)
    ensures
        r == is_leap(y as int),
{
    let rem_4 = y % 4 == 0;
    let rem_100 = y % 100 == 0;
    let rem_400 = y % 400 == 0;
    rem_4 && (rem_400 || !rem_100)
}

/// Number of days in year `y`.
fn year_len_of(y: i64) -> (r: u32)
    ensures
        r == year_len(y as int),
{
    if is_leap_of(y) {
        366
    } else {
        365
    }
}

/// Number of days in month `m` (zero-indexed) of a year of the given kind.
fn month_len_of(leap: bool, m: u32) -> (r: u32)
    requires
        m < 12,
    ensures
        r == month_len(leap, m as int),
{
    if m == 1 {
        if leap {
            29
        } else {
            28
        }
    } else if m == 3 || m == 5 || m == 8 || m == 10 {
        30
    } else {
        31
    }
}

/// Day-of-year on which month `m` (zero-indexed) begins.
fn month_start_of(leap: bool, m: u32) -> (r: u32)
    requires
        m < 12,
    ensures
        r == month_start(leap, m as int),
{
    let base: u32 = if m == 0 {
        0
    } else if m == 1 {
        31
    } else if m == 2 {
        59
    } else if m == 3 {
        90
    } else if m == 4 {
        120
    } else if m == 5 {
        151
    } else if m == 6 {
        181
    } else if m == 7 {
        212
    } else if m == 8 {
        243
    } else if m == 9 {
        273
    } else if m == 10 {
        304
    } else {
        334
    };
    if leap && m >= 2 {
        base + 1
    } else {
        base
    }
}

impl TimeComponents {
    /// The all-zero value: midnight starting day 0 of year 0.
    pub fn zero() -> (r: Self)
        ensures
            r@ == (CalValue { years: 0, days: 0, seconds: 0, nanos: 0 }),
    {
        TimeComponents { years: 0, days: 0, seconds: 0, nanos: 0 }
    }

    /// Whether the year of this value is a Gregorian leap year.
    pub fn is_leap_year(&self) -> (r: bool)
        ensures
            r == is_leap(self@.years),
    {
        is_leap_of(self.years)
    }

    /// The total day count of the year of this value.
    pub fn days_in_year(&self) -> (r: u32)
        ensures
            r == year_len(self@.years),
    {
        if self.is_leap_year() {
            366
        } else {
            365
        }
    }

    /// Split the day-of-year into a zero-indexed month and a zero-indexed
    /// day within that month.
    pub fn split_months_days(&self) -> (r: (u32, u32))
        requires
            wf(self@),
        ensures
            r.0 == month_of(is_leap(self@.years), self@.days),
            r.1 == day_in_month(is_leap(self@.years), self@.days),
            r.0 < 12,
            r.1 <= 31,
    {
        let leap = self.is_leap_year();
        let m: u32 = if self.days < month_start_of(leap, 1) {
            0
        } else if self.days < month_start_of(leap, 2) {
            1
        } else if self.days < month_start_of(leap, 3) {
            2
        } else if self.days < month_start_of(leap, 4) {
            3
        } else if self.days < month_start_of(leap, 5) {
            4
        } else if self.days < month_start_of(leap, 6) {
            5
        } else if self.days < month_start_of(leap, 7) {
            6
        } else if self.days < month_start_of(leap, 8) {
            7
        } else if self.days < month_start_of(leap, 9) {
            8
        } else if self.days < month_start_of(leap, 10) {
            9
        } else if self.days < month_start_of(leap, 11) {
            10
        } else {
            11
        };
        let d = self.days - month_start_of(leap, m);
        (m, d)
    }

    /// Split the second-of-day into hours, minutes and seconds.
    pub fn split_hour_minute_second(&self) -> (r: (u32, u32, u32))
        requires
            wf(self@),
        ensures
            r.0 == self@.seconds / 3600,
            r.1 == (self@.seconds % 3600) / 60,
            r.2 == self@.seconds % 60,
            r.0 < 24 && r.1 < 60 && r.2 < 60,
    {
        let mut seconds = self.seconds;
        let hours = seconds / 3600;
        seconds = seconds - hours * 3600;
        let minutes = seconds / 60;
        seconds = seconds - minutes * 60;
        proof {
            lemma_fundamental_div_mod(self@.seconds, 3600);
            lemma_fundamental_div_mod(self@.seconds % 3600, 60);
            lemma_fundamental_div_mod(self@.seconds, 60);
            assert(self@.seconds % 3600 == self@.seconds - 3600 * (self@.seconds / 3600));
            assert((self@.seconds % 3600) % 60 == self@.seconds % 60) by {
                vstd::arithmetic::div_mod::lemma_mod_mod(self@.seconds, 60, 60);
            }
        }
        (hours, minutes, seconds)
    }

    /// Add whole months with carry into years, clamping the day-in-month
    /// to the last valid day of the destination month.
    pub fn add_months(&mut self, months: u32)
        requires
            wf(old(self)@),
            year_in_range(old(self)@),
        ensures
            final(self)@ == spec_shift_months(old(self)@, months as int),
            wf(final(self)@),
    {
        let (m0, dim) = self.split_months_days();
        self.years = self.years + (months / 12) as i64;
        let mut m = m0 + months % 12;
        if m >= 12 {
            m = m - 12;
            self.years = self.years + 1;
        }
        let leap = self.is_leap_year();
        let ml = month_len_of(leap, m);
        let ms = month_start_of(leap, m);
        let d2 = if dim < ml {
            dim
        } else {
            ml - 1
        };
        self.days = ms + d2;
        proof {
            let total = old(self)@.years * 12 + m0 + months as int;
            lemma_fundamental_div_mod(months as int, 12);
            lemma_fundamental_div_mod_converse(total, 12, self@.years, m as int);
        }
    }

    /// Subtract whole months, borrowing from years, with the same
    /// clamp-to-last-valid-day policy as addition.
    pub fn sub_months(&mut self, months: u32)
        requires
            wf(old(self)@),
            year_in_range(old(self)@),
        ensures
            final(self)@ == spec_shift_months(old(self)@, -(months as int)),
            wf(final(self)@),
    {
        let (m0, dim) = self.split_months_days();
        self.years = self.years - (months / 12) as i64;
        let r = months % 12;
        let mut m = m0;
        if m < r {
            m = m + 12;
            self.years = self.years - 1;
        }
        m = m - r;
        let leap = self.is_leap_year();
        let ml = month_len_of(leap, m);
        let ms = month_start_of(leap, m);
        let d2 = if dim < ml {
            dim
        } else {
            ml - 1
        };
        self.days = ms + d2;
        proof {
            let total = old(self)@.years * 12 + m0 - months as int;
            lemma_fundamental_div_mod(months as int, 12);
            lemma_fundamental_div_mod_converse(total, 12, self@.years, m as int);
        }
    }

    /// Add whole years; the day-of-year is deliberately kept, so a leap
    /// day re-expressed in a common year is clamped downstream, not here.
    pub fn add_years(&mut self, years: u32)
        requires
            year_in_range(old(self)@),
        ensures
            final(self)@ == spec_add_years(old(self)@, years as int),
    {
        self.years = self.years + years as i64;
    }

    /// Subtract whole years.
    pub fn sub_years(&mut self, years: u32)
        requires
            year_in_range(old(self)@),
        ensures
            final(self)@ == spec_sub_years(old(self)@, years as int),
    {
        self.years = self.years - years as i64;
    }

    /// Add days, carrying whole years forward as the day index runs past
    /// each year's end.
    fn add_days_wide(&mut self, days: u64)
        requires
            wf(old(self)@),
            year_in_range(old(self)@),
            days <= 0x1_0000_0000_0000,
        ensures
            final(self)@ == spec_add_days(old(self)@, days as int),
            wf(final(self)@),
            old(self)@.years <= final(self)@.years,
            365 * (final(self)@.years - old(self)@.years) <= old(self)@.days + days as int,
            final(self)@.seconds == old(self)@.seconds,
            final(self)@.nanos == old(self)@.nanos,
    {
        if days == 0 {
            return ;
        }
        let ghost y0: int = self@.years;
        let ghost target: (int, int) = norm_days_up(y0, self@.days + days as int);
        let mut y: i64 = self.years;
        let mut rem: u64 = self.days as u64 + days;
        let ghost pool: int = self@.days + days as int;
        while rem >= 366
            invariant
                -0x1100_0000_0000_0000 <= y0 <= 0x1100_0000_0000_0000,
                pool <= 365 + 0x1_0000_0000_0000,
                y0 <= y,
                365 * (y - y0) <= pool - rem,
                norm_days_up(y as int, rem as int) == target,
            decreases rem,
        {
            let yl = year_len_of(y);
            rem = rem - yl as u64;
            y = y + 1;
        }
        let yl = year_len_of(y);
        if rem as u32 >= yl {
            proof {
                assert(rem == 365 && yl == 365);
                assert(norm_days_up(y as int, rem as int) == norm_days_up(y as int + 1, 0));
                assert(norm_days_up(y as int + 1, 0) == (y as int + 1, 0int));
            }
            rem = 0;
            y = y + 1;
        } else {
            proof {
                assert(norm_days_up(y as int, rem as int) == (y as int, rem as int));
            }
        }
        self.years = y;
        self.days = rem as u32;
    }

    /// Add whole weeks: seven days each.
    pub fn add_weeks(&mut self, weeks: u32)
        requires
            wf(old(self)@),
            year_in_range(old(self)@),
        ensures
            final(self)@ == spec_add_days(old(self)@, 7 * weeks as int),
            wf(final(self)@),
    {
        self.add_days_wide(weeks as u64 * 7);
    }

    /// Add days.
    pub fn add_days(&mut self, days: u32)
        requires
            wf(old(self)@),
            year_in_range(old(self)@),
        ensures
            final(self)@ == spec_add_days(old(self)@, days as int),
            wf(final(self)@),
            old(self)@.years <= final(self)@.years <= old(self)@.years + 0x100_0000,
    {
        self.add_days_wide(days as u64);
    }

    /// Add seconds, carrying whole days out of the second-of-day field.
    fn add_seconds_wide(&mut self, seconds: u64)
        requires
            wf(old(self)@),
            year_in_range(old(self)@),
            seconds <= 0x10_0000_0000_0000,
        ensures
            final(self)@ == spec_add_seconds(old(self)@, seconds as int),
            wf(final(self)@),
            old(self)@.years <= final(self)@.years <= old(self)@.years + 0x1000_0000,
            final(self)@.nanos == old(self)@.nanos,
    {
        if seconds == 0 {
            return ;
        }
        let total: u64 = self.seconds as u64 + seconds;
        self.seconds = (total % 86400) as u32;
        self.add_days_wide(total / 86400);
    }

    /// Add whole hours.
    pub fn add_hours(&mut self, hours: u32)
        requires
            wf(old(self)@),
            year_in_range(old(self)@),
        ensures
            final(self)@ == spec_add_seconds(old(self)@, 3600 * hours as int),
            wf(final(self)@),
    {
        self.add_seconds_wide(hours as u64 * 3600);
    }

    /// Add whole minutes.
    pub fn add_minutes(&mut self, minutes: u32)
        requires
            wf(old(self)@),
            year_in_range(old(self)@),
        ensures
            final(self)@ == spec_add_seconds(old(self)@, 60 * minutes as int),
            wf(final(self)@),
    {
        self.add_seconds_wide(minutes as u64 * 60);
    }

    /// Add seconds.
    pub fn add_seconds(&mut self, seconds: u32)
        requires
            wf(old(self)@),
            year_in_range(old(self)@),
        ensures
            final(self)@ == spec_add_seconds(old(self)@, seconds as int),
            wf(final(self)@),
            old(self)@.years <= final(self)@.years <= old(self)@.years + 0x1000_0000,
    {
        self.add_seconds_wide(seconds as u64);
    }

    /// Add nanoseconds, carrying whole seconds out of the nanosecond
    /// field; this also folds a transient leap-second surplus back.
    pub fn add_nanos(&mut self, nanos: u32)
        requires
            wf(old(self)@),
            year_in_range(old(self)@),
        ensures
            final(self)@ == spec_add_nanos(old(self)@, nanos as int),
            wf(final(self)@),
            old(self)@.years <= final(self)@.years <= old(self)@.years + 0x1000_0000,
    {
        if nanos == 0 {
            return ;
        }
        let total: u64 = self.nanos as u64 + nanos as u64;
        self.nanos = (total % 1_000_000_000) as u32;
        self.add_seconds_wide(total / 1_000_000_000);
    }

    /// Subtract days, borrowing whole years while the day index would
    /// underflow.
    fn sub_days_wide(&mut self, days: u64)
        requires
            wf(old(self)@),
            year_in_range(old(self)@),
            days <= 0x1_0000_0000_0000,
        ensures
            final(self)@ == spec_sub_days(old(self)@, days as int),
            wf(final(self)@),
            final(self)@.years <= old(self)@.years,
            365 * (old(self)@.years - final(self)@.years) <= days as int + 366,
            final(self)@.seconds == old(self)@.seconds,
            final(self)@.nanos == old(self)@.nanos,
    {
        if days == 0 {
            return ;
        }
        let ghost y0: int = self@.years;
        let ghost target: (int, int) = norm_days_from(y0, self@.days - days as int);
        let mut y: i64 = self.years;
        let mut d: u64 = self.days as u64;
        while d < days
            invariant
                -0x1100_0000_0000_0000 <= y0 <= 0x1100_0000_0000_0000,
                1 <= days <= 0x1_0000_0000_0000,
                y <= y0,
                365 * (y0 - y) <= d,
                d < days + 366,
                norm_days_from(y as int, d - days as int) == target,
            decreases days + 366 - d,
        {
            let yl = year_len_of(y - 1);
            d = d + yl as u64;
            y = y - 1;
        }
        self.years = y;
        self.days = (d - days) as u32;
    }

    /// Subtract whole weeks: seven days each.
    pub fn sub_weeks(&mut self, weeks: u32)
        requires
            wf(old(self)@),
            year_in_range(old(self)@),
        ensures
            final(self)@ == spec_sub_days(old(self)@, 7 * weeks as int),
            wf(final(self)@),
    {
        self.sub_days_wide(weeks as u64 * 7);
    }

    /// Subtract days.
    pub fn sub_days(&mut self, days: u32)
        requires
            wf(old(self)@),
            year_in_range(old(self)@),
        ensures
            final(self)@ == spec_sub_days(old(self)@, days as int),
            wf(final(self)@),
            old(self)@.years - 0x100_0000 <= final(self)@.years <= old(self)@.years,
    {
        self.sub_days_wide(days as u64);
    }

    /// Subtract seconds, borrowing a day when the second-of-day would
    /// underflow.
    fn sub_seconds_wide(&mut self, seconds: u64)
        requires
            wf(old(self)@),
            year_in_range(old(self)@),
            seconds <= 0x10_0000_0000_0000,
        ensures
            final(self)@ == spec_sub_seconds(old(self)@, seconds as int),
            wf(final(self)@),
            old(self)@.years - 0x1000_0000 <= final(self)@.years <= old(self)@.years,
            final(self)@.nanos == old(self)@.nanos,
    {
        if seconds == 0 {
            return ;
        }
        let mut dborrow: u64 = seconds / 86400;
        let srem: u32 = (seconds % 86400) as u32;
        if self.seconds < srem {
            self.seconds = self.seconds + 86400 - srem;
            dborrow = dborrow + 1;
        } else {
            self.seconds = self.seconds - srem;
        }
        self.sub_days_wide(dborrow);
    }

    /// Subtract whole hours.
    pub fn sub_hours(&mut self, hours: u32)
        requires
            wf(old(self)@),
            year_in_range(old(self)@),
        ensures
            final(self)@ == spec_sub_seconds(old(self)@, 3600 * hours as int),
            wf(final(self)@),
    {
        self.sub_seconds_wide(hours as u64 * 3600);
    }

    /// Subtract whole minutes.
    pub fn sub_minutes(&mut self, minutes: u32)
        requires
            wf(old(self)@),
            year_in_range(old(self)@),
        ensures
            final(self)@ == spec_sub_seconds(old(self)@, 60 * minutes as int),
            wf(final(self)@),
    {
        self.sub_seconds_wide(minutes as u64 * 60);
    }

    /// Subtract seconds.
    pub fn sub_seconds(&mut self, seconds: u32)
        requires
            wf(old(self)@),
            year_in_range(old(self)@),
        ensures
            final(self)@ == spec_sub_seconds(old(self)@, seconds as int),
            wf(final(self)@),
            old(self)@.years - 0x1000_0000 <= final(self)@.years <= old(self)@.years,
    {
        self.sub_seconds_wide(seconds as u64);
    }

    /// Subtract nanoseconds, borrowing a second when the nanosecond field
    /// would underflow.
    pub fn sub_nanos(&mut self, nanos: u32)
        requires
            wf(old(self)@),
            year_in_range(old(self)@),
        ensures
            final(self)@ == spec_sub_nanos(old(self)@, nanos as int),
            wf(final(self)@),
            old(self)@.years - 0x1000_0000 <= final(self)@.years <= old(self)@.years,
    {
        if nanos == 0 {
            return ;
        }
        let mut sborrow: u64 = (nanos / 1_000_000_000) as u64;
        let nrem: u32 = nanos % 1_000_000_000;
        if self.nanos < nrem {
            self.nanos = self.nanos + 1_000_000_000 - nrem;
            sborrow = sborrow + 1;
        } else {
            self.nanos = self.nanos - nrem;
        }
        self.sub_seconds_wide(sborrow);
    }

    /// Truncate to the start of the year.
    pub fn floor_years(&mut self)
        ensures
            final(self)@ == spec_floor_years(old(self)@),
    {
        self.days = 0;
        self.floor_days();
    }

    /// Truncate to the first day of the month.
    pub fn floor_months(&mut self)
        requires
            wf(old(self)@),
        ensures
            final(self)@ == spec_floor_months(old(self)@),
            wf(final(self)@),
    {
        let (_month, days) = self.split_months_days();
        self.days = self.days - days;
        self.floor_days();
    }

    /// Truncate to the start of the week on the year's day line.
    pub fn floor_weeks(&mut self)
        ensures
            final(self)@ == spec_floor_weeks(old(self)@),
    {
        self.days = self.days - self.days % 7;
        self.floor_days();
    }

    /// Truncate to the start of the day.
    pub fn floor_days(&mut self)
        ensures
            final(self)@ == spec_floor_days(old(self)@),
    {
        self.seconds = 0;
        self.floor_seconds();
    }

    /// Truncate to the start of the hour.
    pub fn floor_hours(&mut self)
        ensures
            final(self)@ == spec_floor_hours(old(self)@),
    {
        self.seconds = self.seconds - self.seconds % 3600;
        self.floor_seconds();
    }

    /// Truncate to the start of the minute.
    pub fn floor_minutes(&mut self)
        ensures
            final(self)@ == spec_floor_minutes(old(self)@),
    {
        self.seconds = self.seconds - self.seconds % 60;
        self.floor_seconds();
    }

    /// Truncate to the whole second: clear nanoseconds.
    pub fn floor_seconds(&mut self)
        ensures
            final(self)@ == spec_floor_seconds(old(self)@),
    {
        self.nanos = 0;
    }

    /// Flip the sign of the year count. The finer fields are unsigned
    /// magnitudes and keep their values.
    pub fn neg(self) -> (r: Self)
        requires
            self.years > i64::MIN,
        ensures
            r@ == spec_neg(self@),
    {
        TimeComponents { years: -self.years, ..self }
    }

    /// Merge another decomposed value into this one by adding field by
    /// field, finest first. A negative year count on `rhs` makes it a
    /// negative span: it is negated and subtracted instead, so that
    /// merging a value in and back out always cancels.
    pub fn add_components(&mut self, rhs: Self)
        requires
            wf(old(self)@),
            wf(rhs@),
            year_within_limit(old(self)@),
            year_within_limit(rhs@),
        ensures
            final(self)@ == spec_merge_add(old(self)@, rhs@),
            wf(final(self)@),
    {
        if rhs.years < 0 {
            let r = rhs.neg();
            self.sub_nonneg(r);
        } else {
            self.add_nonneg(rhs);
        }
    }

    /// Remove another decomposed value from this one field by field,
    /// finest first, negating and adding when `rhs` has negative years.
    pub fn sub_components(&mut self, rhs: Self)
        requires
            wf(old(self)@),
            wf(rhs@),
            year_within_limit(old(self)@),
            year_within_limit(rhs@),
        ensures
            final(self)@ == spec_merge_sub(old(self)@, rhs@),
            wf(final(self)@),
    {
        if rhs.years < 0 {
            let r = rhs.neg();
            self.add_nonneg(r);
        } else {
            self.sub_nonneg(rhs);
        }
    }

    /// Field-by-field addition of a span with non-negative years.
    fn add_nonneg(&mut self, rhs: Self)
        requires
            wf(old(self)@),
            wf(rhs@),
            year_within_limit(old(self)@),
            0 <= rhs@.years <= 0x1000_0000_0000_0000,
        ensures
            final(self)@ == spec_merge_add_nonneg(old(self)@, rhs@),
            wf(final(self)@),
    {
        self.add_nanos(rhs.nanos);
        self.add_seconds(rhs.seconds);
        self.add_days(rhs.days);
        self.years = self.years + rhs.years;
    }

    /// Merging a real instant with a non-negative year into the zero
    /// value and removing it again cancels back to zero exactly:
    /// subtracting `now` from itself is the identity regardless of the
    /// instant.
    pub proof fn lemma_merge_cancels(r: CalValue)
        requires
            wf_strict(r),
            r.years >= 0,
        ensures
            spec_merge_sub(
                spec_merge_add((CalValue { years: 0, days: 0, seconds: 0, nanos: 0 }), r),
                r,
            ) == (CalValue { years: 0, days: 0, seconds: 0, nanos: 0 }),
    {
        reveal_with_fuel(norm_days_up, 3);
        reveal_with_fuel(norm_days_down, 3);
        let z = CalValue { years: 0, days: 0, seconds: 0, nanos: 0 };
        let rn = r.nanos;
        let k = rn / 1_000_000_000;
        let nr = rn % 1_000_000_000;
        lemma_fundamental_div_mod(rn, 1_000_000_000);
        assert(0 <= k <= 1 && 0 <= nr < 1_000_000_000);
        let a1 = spec_add_nanos(z, rn);
        assert(a1 == (CalValue { years: 0, days: 0, seconds: k, nanos: nr }));
        let s1 = k + r.seconds;
        let cd = s1 / 86400;
        let sr = s1 % 86400;
        lemma_fundamental_div_mod(s1, 86400);
        assert(0 <= cd <= 1 && 0 <= sr < 86400);
        assert(cd == 1 ==> k == 1 && r.seconds == 86399 && sr == 0);
        let a2 = spec_add_seconds(a1, r.seconds);
        assert(a2 == (CalValue { years: 0, days: 0, seconds: sr, nanos: nr })
            || a2 == (CalValue { years: 0, days: 1, seconds: sr, nanos: nr }));
        assert(a2 == (CalValue { years: 0, days: cd, seconds: sr, nanos: nr }));
        let d1 = cd + r.days;
        let a3 = spec_add_days(a2, r.days);
        if d1 < 366 {
            assert(a3 == (CalValue { years: 0, days: d1, seconds: sr, nanos: nr }));
        } else {
            assert(cd == 1 && r.days == 365);
            assert(year_len(r.years) == 366);
            assert(a3 == (CalValue { years: 1, days: 0, seconds: sr, nanos: nr }));
        }
        let c1 = spec_add_years(a3, r.years);
        assert(spec_merge_add(z, r) == c1);
        let b1 = spec_sub_nanos(c1, rn);
        if rn == 0 {
            assert(b1 == (CalValue { years: r.years, days: r.days, seconds: r.seconds, nanos: 0 }));
        } else if k == 0 {
            assert(b1 == (CalValue { years: r.years, days: r.days, seconds: r.seconds, nanos: 0 }));
        } else if r.seconds < 86399 {
            assert(b1 == (CalValue { years: r.years, days: r.days, seconds: r.seconds, nanos: 0 }));
        } else if d1 < 366 {
            assert(b1 == (CalValue { years: r.years, days: r.days, seconds: r.seconds, nanos: 0 }));
        } else {
            assert(b1 == (CalValue { years: r.years, days: r.days, seconds: r.seconds, nanos: 0 }));
        }
        let b2 = spec_sub_seconds(b1, r.seconds);
        assert(b2 == (CalValue { years: r.years, days: r.days, seconds: 0, nanos: 0 }));
        let b3 = spec_sub_days(b2, r.days);
        assert(b3 == (CalValue { years: r.years, days: 0, seconds: 0, nanos: 0 }));
        assert(spec_merge_sub(c1, r) == spec_sub_years(b3, r.years));
    }

    /// Field-by-field subtraction of a span with non-negative years.
    fn sub_nonneg(&mut self, rhs: Self)
        requires
            wf(old(self)@),
            wf(rhs@),
            year_within_limit(old(self)@),
            0 <= rhs@.years <= 0x1000_0000_0000_0000,
        ensures
            final(self)@ == spec_merge_sub_nonneg(old(self)@, rhs@),
            wf(final(self)@),
    {
        self.sub_nanos(rhs.nanos);
        self.sub_seconds(rhs.seconds);
        self.sub_days(rhs.days);
        self.years = self.years - rhs.years;
    }
}

} // verus!
