use relative_time::error::Error;
use relative_time::resolve_with_now;
use relative_time::time_components::{TimeComponents, YEAR_LIMIT};

fn tc(years: i64, days: u32, seconds: u32, nanos: u32) -> TimeComponents {
    TimeComponents { years, days, seconds, nanos }
}

/// 2023-08-21T05:40:00 as decomposed components: day 232 of 2023,
/// second 20400 of the day.
fn reference() -> TimeComponents {
    tc(2023, 232, 20400, 0)
}

fn resolve(input: &str) -> TimeComponents {
    resolve_with_now(input, reference()).expect("expression should resolve")
}

#[test]
fn components_literal_now() {
    assert_eq!(resolve("now"), reference());
    assert_eq!(resolve("  +    now"), reference());
}

#[test]
fn components_day_arithmetic() {
    assert_eq!(resolve("now + 1d"), tc(2023, 233, 20400, 0));
    assert_eq!(resolve("now + 3d"), tc(2023, 235, 20400, 0));
    assert_eq!(resolve("now + 30d"), tc(2023, 262, 20400, 0));
    assert_eq!(resolve("now - 1d - 2h"), tc(2023, 231, 13200, 0));
}

#[test]
fn components_second_carry() {
    assert_eq!(resolve("now + 90s"), tc(2023, 232, 20490, 0));
    assert_eq!(resolve("now + 61m"), tc(2023, 232, 24060, 0));
    assert_eq!(resolve("now - 2h"), tc(2023, 232, 13200, 0));
    assert_eq!(resolve("now + 00015s"), tc(2023, 232, 20415, 0));
}

#[test]
fn components_week_and_month() {
    assert_eq!(resolve("now + 1w"), tc(2023, 239, 20400, 0));
    // October 21 is day 293 of a common year.
    assert_eq!(resolve("now + 2M"), tc(2023, 293, 20400, 0));
    assert_eq!(resolve("now - 1y"), tc(2022, 232, 20400, 0));
}

#[test]
fn components_zero_steps_are_noops() {
    assert_eq!(resolve("now + 0s"), reference());
    assert_eq!(resolve("now - 0d"), reference());
    assert_eq!(resolve("now+0y-0m+0s"), reference());
}

#[test]
fn components_day_carry_across_year() {
    // 2023-12-31 is day 364; one more day lands on day 0 of 2024.
    assert_eq!(
        resolve_with_now("now+1d", tc(2023, 364, 0, 0)).unwrap(),
        tc(2024, 0, 0, 0)
    );
    // Borrowing back across the boundary returns to December 31.
    assert_eq!(
        resolve_with_now("now-1d", tc(2024, 0, 0, 0)).unwrap(),
        tc(2023, 364, 0, 0)
    );
}

#[test]
fn components_month_clamps_to_destination() {
    // January 31 plus one month is the last day of February, never a
    // rollover into March: day 30 is Jan 31, day 58 is Feb 28 (common).
    assert_eq!(
        resolve_with_now("now+1M", tc(2023, 30, 0, 0)).unwrap(),
        tc(2023, 58, 0, 0)
    );
    // In a leap year the clamp lands on February 29 (day 59).
    assert_eq!(
        resolve_with_now("now+1M", tc(2024, 30, 0, 0)).unwrap(),
        tc(2024, 59, 0, 0)
    );
}

#[test]
fn components_floor_operations() {
    let t = reference();
    assert_eq!(resolve_with_now("now/d", t).unwrap(), tc(2023, 232, 0, 0));
    assert_eq!(resolve_with_now("now/h", t).unwrap(), tc(2023, 232, 18000, 0));
    assert_eq!(resolve_with_now("now/m", t).unwrap(), tc(2023, 232, 20400, 0));
    // Day 232 floors to day 231 on the week grid of the year.
    assert_eq!(resolve_with_now("now/w", t).unwrap(), tc(2023, 231, 0, 0));
    assert_eq!(resolve_with_now("now/M", t).unwrap(), tc(2023, 212, 0, 0));
    assert_eq!(resolve_with_now("now/y", t).unwrap(), tc(2023, 0, 0, 0));
}

#[test]
fn components_floor_is_idempotent() {
    let t = reference();
    let once = resolve_with_now("now/d", t).unwrap();
    let twice = resolve_with_now("now/d/d", t).unwrap();
    assert_eq!(once, twice);
    assert_eq!(
        resolve_with_now("now/w", t).unwrap(),
        resolve_with_now("now/w/w", t).unwrap()
    );
    assert_eq!(
        resolve_with_now("now/M", t).unwrap(),
        resolve_with_now("now/M/M", t).unwrap()
    );
}

#[test]
fn components_now_minus_now_cancels() {
    // Merging the reference in and out again at the component level
    // collapses to the all-zero value, whatever the instant.
    let samples = [
        reference(),
        tc(2024, 365, 86399, 1_999_999_999),
        tc(0, 0, 0, 0),
        tc(1999, 58, 43200, 500_000_000),
    ];
    for r in samples {
        let mut acc = TimeComponents::zero();
        acc.add_components(r);
        acc.sub_components(r);
        assert_eq!(acc, TimeComponents::zero());
    }
}

#[test]
fn components_complex_expression() {
    // The engine adds whole years by keeping the day-of-year, so the
    // leap year 2024 shifts the calendar date by one day relative to
    // month-based arithmetic: day 232 of 2024 is August 20.
    let r = resolve("now + 1y - 1M + 3w - 2d + 4h - 30m + 15s");
    assert_eq!(r, tc(2024, 220, 33015, 0));
}

#[test]
fn error_unexpected_character() {
    assert!(matches!(
        resolve_with_now("%now", reference()),
        Err(Error::UnexpectedCharacter(0, '%'))
    ));
}

#[test]
fn error_number_overflow() {
    match resolve_with_now("now+4294967296s", reference()) {
        Err(Error::InvalidNumber(lit, _)) => assert_eq!(lit, "4294967296"),
        other => panic!("expected a number error, got {:?}", other),
    }
}

#[test]
fn error_format() {
    assert!(matches!(
        resolve_with_now("1d-now", reference()),
        Err(Error::InvalidFormat(3, _, _))
    ));
    assert!(matches!(
        resolve_with_now("now+1", reference()),
        Err(Error::InvalidFormat(5, _, _))
    ));
}

#[test]
fn error_now_policy() {
    assert!(matches!(
        resolve_with_now("1d", reference()),
        Err(Error::MissingNow)
    ));
    assert!(matches!(
        resolve_with_now("now+now", reference()),
        Err(Error::MultipleNow)
    ));
    assert!(matches!(
        resolve_with_now("/d+now", reference()),
        Err(Error::FloorBeforeNow)
    ));
}

#[test]
fn error_year_out_of_range() {
    let far = tc(YEAR_LIMIT + 1, 0, 0, 0);
    assert!(matches!(
        resolve_with_now("now+1y", far),
        Err(Error::InvalidTimestamp(_))
    ));
    // Zero-magnitude steps never fail, even out of range.
    assert_eq!(resolve_with_now("now+0y", far).unwrap(), far);
}

#[test]
fn splits_match_the_calendar() {
    let t = reference();
    assert_eq!(t.split_months_days(), (7, 20));
    assert_eq!(t.split_hour_minute_second(), (5, 40, 0));
    assert!(!t.is_leap_year());
    assert_eq!(t.days_in_year(), 365);
    let leap = tc(2024, 0, 0, 0);
    assert!(leap.is_leap_year());
    assert_eq!(leap.days_in_year(), 366);
    assert!(!tc(1900, 0, 0, 0).is_leap_year());
    assert!(tc(2000, 0, 0, 0).is_leap_year());
}

#[test]
fn nanosecond_borrow_and_carry() {
    let mut t = tc(2023, 0, 0, 500_000_000);
    t.add_nanos(600_000_000);
    assert_eq!(t, tc(2023, 0, 1, 100_000_000));
    t.sub_nanos(600_000_000);
    assert_eq!(t, tc(2023, 0, 0, 500_000_000));
}
