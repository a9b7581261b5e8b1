use chrono::{DateTime, Datelike, Days, DurationRound, Local, Months, NaiveDateTime, TimeDelta,
    TimeZone, Utc};

use relative_time::error::Error;
use relative_time::time_components::TimeComponents;
use relative_time::{parse_str, parse_str_with_now, RelativeTime, RelativeTimeNow,
    MONTHS_PER_YEAR};

/// The chrono-backed time the resolver drives in these tests, mirroring
/// the library's expected collaborator: checked calendar arithmetic on a
/// local timestamp.
#[derive(Clone, Debug)]
struct Stamp(DateTime<Local>);

fn bad_timestamp() -> Error {
    Error::InvalidTimestamp(TimeComponents::zero())
}

#[allow(dead_code)]
impl Stamp {
    fn floor_to(self, delta: TimeDelta) -> Result<Stamp, Error> {
        self.0
            .duration_trunc(delta)
            .map(Stamp)
            .map_err(|_err| bad_timestamp())
    }
}

impl RelativeTime for Stamp {
    fn add_months(self, value: u32) -> Result<Self, Error> {
        let delta = Months::new(value);
        self.0
            .checked_add_months(delta)
            .map(Stamp)
            .ok_or_else(bad_timestamp)
    }

    fn add_days(self, value: u32) -> Result<Self, Error> {
        let delta = Days::new(value.into());
        self.0
            .checked_add_days(delta)
            .map(Stamp)
            .ok_or_else(bad_timestamp)
    }

    fn add_seconds(self, value: u32) -> Result<Self, Error> {
        let delta = TimeDelta::try_seconds(value.into()).ok_or_else(bad_timestamp)?;
        self.0
            .checked_add_signed(delta)
            .map(Stamp)
            .ok_or_else(bad_timestamp)
    }

    fn sub_months(self, value: u32) -> Result<Self, Error> {
        let delta = Months::new(value);
        self.0
            .checked_sub_months(delta)
            .map(Stamp)
            .ok_or_else(bad_timestamp)
    }

    fn sub_days(self, value: u32) -> Result<Self, Error> {
        let delta = Days::new(value.into());
        self.0
            .checked_sub_days(delta)
            .map(Stamp)
            .ok_or_else(bad_timestamp)
    }

    fn sub_seconds(self, value: u32) -> Result<Self, Error> {
        let delta = TimeDelta::try_seconds(value.into()).ok_or_else(bad_timestamp)?;
        self.0
            .checked_sub_signed(delta)
            .map(Stamp)
            .ok_or_else(bad_timestamp)
    }

    fn floor_years(self) -> Result<Self, Error> {
        let offset = *self.0.offset();
        let years = self
            .0
            .to_utc()
            .years_since(DateTime::<Utc>::MIN_UTC)
            .expect("min is used as base");
        let datetime = NaiveDateTime::MIN + Months::new(years * MONTHS_PER_YEAR);
        Ok(Stamp(DateTime::from_naive_utc_and_offset(datetime, offset)))
    }

    fn floor_months(self) -> Result<Self, Error> {
        let offset = *self.0.offset();
        let utc = self.0.to_utc();
        let years = utc
            .years_since(DateTime::<Utc>::MIN_UTC)
            .expect("min is used as base");
        let months = utc.month0();
        let datetime = NaiveDateTime::MIN + Months::new(years * MONTHS_PER_YEAR + months);
        Ok(Stamp(DateTime::from_naive_utc_and_offset(datetime, offset)))
    }

    fn floor_weeks(self) -> Result<Self, Error> {
        self.floor_to(TimeDelta::weeks(1))
    }

    fn floor_days(self) -> Result<Self, Error> {
        self.floor_to(TimeDelta::days(1))
    }

    fn floor_hours(self) -> Result<Self, Error> {
        self.floor_to(TimeDelta::hours(1))
    }

    fn floor_minutes(self) -> Result<Self, Error> {
        self.floor_to(TimeDelta::minutes(1))
    }

    fn floor_seconds(self) -> Result<Self, Error> {
        self.floor_to(TimeDelta::seconds(1))
    }
}

impl RelativeTimeNow for Stamp {
    fn now() -> Self {
        Stamp(Local::now())
    }
}

fn check(input: &str, expected: &str) {
    let naive_datetime = NaiveDateTime::parse_from_str("2023-08-21T05:40:00", "%Y-%m-%dT%H:%M:%S")
        .expect("input date time invalid");
    let local_datetime = Local
        .from_local_datetime(&naive_datetime)
        .single()
        .expect("input date time ambiguous");

    let res = parse_str_with_now(input, Stamp(local_datetime)).expect("input date time invalid");

    assert_eq!(format!("{}", res.0.format("%Y-%m-%dT%H:%M:%S")), expected);
}

#[test]
fn literal_now() {
    check("now", "2023-08-21T05:40:00");
}

#[test]
fn unary_now() {
    check("+now", "2023-08-21T05:40:00");
    check("  +    now", "2023-08-21T05:40:00");
}

#[test]
fn now_plus_days() {
    check("now + 1d", "2023-08-22T05:40:00");
    check("now + 3d", "2023-08-24T05:40:00");
    check("now + 30d", "2023-09-20T05:40:00");
}

#[test]
fn now_minus_hours() {
    check("now - 2h", "2023-08-21T03:40:00");
}

#[test]
fn now_plus_1w() {
    check("now + 1w", "2023-08-28T05:40:00");
}

#[test]
fn now_plus_2mo() {
    check("now + 2M", "2023-10-21T05:40:00");
}

#[test]
fn now_minus_1y() {
    check("now - 1y", "2022-08-21T05:40:00");
}

#[test]
fn now_with_multiple_offsets() {
    check("now + 1d - 2h + 30m", "2023-08-22T04:10:00");
}

#[test]
fn now_with_whitespace_variants() {
    check("now+1d", "2023-08-22T05:40:00");
    check("now    +    1d", "2023-08-22T05:40:00");
    check("now+   1d", "2023-08-22T05:40:00");
}

#[test]
fn test_leading_zeroes() {
    check("now + 00015s", "2023-08-21T05:40:15");
}

#[test]
fn now_with_with_overflow_addition() {
    check("now + 90s", "2023-08-21T05:41:30");
    check("now + 61m", "2023-08-21T06:41:00");
}

#[test]
fn now_zero_offset() {
    check("now + 0s", "2023-08-21T05:40:00");
    check("now - 0d", "2023-08-21T05:40:00");
}

#[test]
fn now_negative_offsets_combined() {
    check("now - 1d - 2h", "2023-08-20T03:40:00");
}

#[test]
fn complex_expression() {
    check("now + 1y - 1M + 3w - 2d + 4h - 30m + 15s", "2024-08-09T09:10:15");
}

#[test]
fn parse_test() {
    let _datetime: Stamp = parse_str("now-55y").unwrap();
}

#[test]
fn zero_tail_returns_now_unchanged() {
    // A chain made only of zero-magnitude steps never calls into the
    // time type and hands the instant back as it came.
    check("now+0d-0s+0M", "2023-08-21T05:40:00");
    check("+0y+now-0w", "2023-08-21T05:40:00");
}

#[test]
fn tail_error_before_any_arithmetic() {
    let naive = NaiveDateTime::parse_from_str("2023-08-21T05:40:00", "%Y-%m-%dT%H:%M:%S").unwrap();
    let local = Local.from_local_datetime(&naive).single().unwrap();
    assert!(matches!(
        parse_str_with_now("now+1x", Stamp(local)),
        Err(Error::UnexpectedCharacter(5, 'x'))
    ));
}

#[test]
fn missing_now_is_rejected() {
    let naive = NaiveDateTime::parse_from_str("2023-08-21T05:40:00", "%Y-%m-%dT%H:%M:%S").unwrap();
    let local = Local.from_local_datetime(&naive).single().unwrap();
    assert!(matches!(
        parse_str_with_now("1d", Stamp(local.clone())),
        Err(Error::MissingNow)
    ));
    assert!(matches!(
        parse_str_with_now("", Stamp(local.clone())),
        Err(Error::MissingNow)
    ));
    assert!(matches!(
        parse_str_with_now("now+now", Stamp(local.clone())),
        Err(Error::MultipleNow)
    ));
    assert!(matches!(
        parse_str_with_now("/d+now", Stamp(local)),
        Err(Error::FloorBeforeNow)
    ));
}
