//! Calendar dates and UTC instants on the proleptic Gregorian calendar.
//!
//! A date is counted in days from 1970-01-01 and an instant in seconds from
//! 1970-01-01T00:00:00Z, the same reckoning as chrono's UNIX timestamps. The
//! range of both is the range that chrono can represent.
use chrono::{DateTime, Datelike, NaiveDate};
use vstd::prelude::*;

verus! {

/// Days from 1970-01-01 to the given proleptic Gregorian date.
pub open spec fn days_from_civil(year: int, month: int, day: int) -> int {
    let y = if month <= 2 { year - 1 } else { year };
    let era = y / 400;
    let yoe = y - era * 400;
    let mp = (month + 9) % 12;
    let doy = (153 * mp + 2) / 5 + day - 1;
    let doe = yoe * 365 + yoe / 4 - yoe / 100 + doy;
    era * 146097 + doe - 719468
}

pub open spec fn is_leap_year(year: int) -> bool {
    (year % 4 == 0 && year % 100 != 0) || year % 400 == 0
}

pub open spec fn days_in_month(year: int, month: int) -> int {
    if month == 2 {
        if is_leap_year(year) {
            29
        } else {
            28
        }
    } else if month == 4 || month == 6 || month == 9 || month == 11 {
        30
    } else {
        31
    }
}

/// The earliest year chrono's `NaiveDate` holds.
pub open spec fn min_year() -> int {
    -262143
}

/// The latest year chrono's `NaiveDate` holds.
pub open spec fn max_year() -> int {
    262142
}

/// Day number of -262143-01-01, the earliest date.
pub open spec fn min_day_number() -> int {
    -96465292
}

/// Day number of 262142-12-31, the latest date.
pub open spec fn max_day_number() -> int {
    95026236
}

pub open spec fn seconds_per_day() -> int {
    86400
}

/// The first second that chrono's `DateTime<Utc>` holds.
pub open spec fn min_instant_secs() -> int {
    min_day_number() * seconds_per_day()
}

/// The last second that chrono's `DateTime<Utc>` holds.
pub open spec fn max_instant_secs() -> int {
    max_day_number() * seconds_per_day() + 86399
}

/// A calendar date (year, month 1-12, day of month from 1).
#[derive(Clone, Copy, Debug, PartialEq, Eq, Structural)]
pub struct CalendarDate {
    pub year: i32,
    pub month: u32,
    pub day: u32,
}

impl CalendarDate {
    /// The date exists on the calendar and lies in chrono's range.
    pub open spec fn valid(self) -> bool {
        &&& min_year() <= self.year <= max_year()
        &&& 1 <= self.month <= 12
        &&& 1 <= self.day <= days_in_month(self.year as int, self.month as int)
    }

    /// Days from 1970-01-01 to this date.
    pub open spec fn day_number(self) -> int {
        days_from_civil(self.year as int, self.month as int, self.day as int)
    }

    pub open spec fn as_triple(self) -> (int, int, int) {
        (self.year as int, self.month as int, self.day as int)
    }
}

/// A point in time: whole seconds since 1970-01-01T00:00:00Z and the
/// nanoseconds within that second.
#[derive(Clone, Copy, Debug, PartialEq, Eq, Structural)]
pub struct UtcInstant {
    pub secs: i64,
    pub nanos: u32,
}

impl UtcInstant {
    /// Nanoseconds below one second, and the second within chrono's range.
    pub open spec fn wf(self) -> bool {
        &&& self.nanos < 1_000_000_000
        &&& min_instant_secs() <= self.secs <= max_instant_secs()
    }

    /// Nanoseconds since the epoch: the order of instants.
    pub open spec fn total_nanos(self) -> int {
        self.secs * 1_000_000_000 + self.nanos
    }

    /// Day number of the date on which this instant falls (UTC).
    pub open spec fn day_number(self) -> int {
        (self.secs as int) / seconds_per_day()
    }
}

/// Every valid date has a day number within chrono's range.
pub proof fn lemma_valid_date_day_range(d: CalendarDate)
    requires
        d.valid(),
    ensures
        min_day_number() <= d.day_number() <= max_day_number(),
{
}

/// The UTC midnight of a date falls on that date.
pub proof fn lemma_midnight_falls_on_date(d: CalendarDate)
    ensures
        (d.day_number() * seconds_per_day()) / seconds_per_day() == d.day_number(),
        (d.day_number() * seconds_per_day()) % seconds_per_day() == 0,
{
    let n = d.day_number();
    assert((n * 86400) / 86400 == n) by (nonlinear_arith);
    assert((n * 86400) % 86400 == 0) by (nonlinear_arith);
}

/// The instant at which the given date begins (UTC midnight).
pub fn midnight_utc(date: &CalendarDate) -> (r: UtcInstant)
    requires
        date.valid(),
    ensures
        r.wf(),
        r.secs == date.day_number() * seconds_per_day(),
        r.nanos == 0,
{
    proof {
        lemma_valid_date_day_range(*date);
    }
    let m: i64 = date.month as i64;
    let y: i64 = if m <= 2 { date.year as i64 - 1 } else { date.year as i64 };
    // Shift the year by a whole number of 400-year eras so that it is not
    // negative; the day count of an era is the same for every era.
    let shifted: i64 = y + 400_000;
    let era_shifted: i64 = shifted / 400;
    let yoe: i64 = shifted - era_shifted * 400;
    let mp: i64 = (m + 9) % 12;
    let doy: i64 = (153 * mp + 2) / 5 + date.day as i64 - 1;
    let doe: i64 = yoe * 365 + yoe / 4 - yoe / 100 + doy;
    let days: i64 = (era_shifted - 1000) * 146097 + doe - 719468;
    proof {
        let yi = y as int;
        assert((yi + 400_000) / 400 == yi / 400 + 1000);
        assert(days == date.day_number());
    }
    UtcInstant { secs: days * 86400, nanos: 0 }
}

/// Whether `a` comes strictly before `b`.
pub fn instant_before(a: &UtcInstant, b: &UtcInstant) -> (r: bool)
    requires
        a.wf(),
        b.wf(),
    ensures
        r == (a.total_nanos() < b.total_nanos()),
{
    a.secs < b.secs || (a.secs == b.secs && a.nanos < b.nanos)
}

/// The instant one day (86400 seconds) later, as chrono adds a one-day
/// `TimeDelta` to a `DateTime<Utc>`.
pub fn add_one_day(t: &UtcInstant) -> (r: UtcInstant)
    requires
        t.wf(),
        t.secs + seconds_per_day() <= max_instant_secs(),
    ensures
        r.wf(),
        r.secs == t.secs + seconds_per_day(),
        r.nanos == t.nanos,
        r.total_nanos() == t.total_nanos() + 86_400_000_000_000,
{
    UtcInstant { secs: t.secs + 86400, nanos: t.nanos }
}

/// chrono's error for a string that does not parse as a date.
#[verifier::external_type_specification]
#[verifier::external_body]
pub struct ExChronoParseError(chrono::ParseError);

/// What `chrono::NaiveDate::parse_from_str(s, fmt)` yields: the year, month
/// and day of the parsed date, or nothing where it returns an error.
pub uninterp spec fn spec_parse_date(s: Seq<char>, fmt: Seq<char>) -> Option<(int, int, int)>;

/// Calls `chrono::NaiveDate::parse_from_str(s, fmt)`. Claimed: the call
/// succeeds exactly where the name `spec_parse_date` has a date, the date
/// returned is that one, and it is a valid date in chrono's range (a
/// `NaiveDate` can hold no other). Which strings parse under which format,
/// and which error comes back, is not stated.
#[verifier::external_body]
pub(crate) fn parse_date(s: &str, fmt: &str) -> (r: Result<CalendarDate, chrono::ParseError>)
    ensures
        r is Ok <==> spec_parse_date(s@, fmt@) is Some,
        r matches Ok(d) ==> d.valid() && spec_parse_date(s@, fmt@) == Some(d.as_triple()),
{
    match NaiveDate::parse_from_str(s, fmt) {
        Ok(d) => Ok(CalendarDate { year: d.year(), month: d.month(), day: d.day() }),
        Err(e) => Err(e),
    }
}

/// Calls `chrono::DateTime::from_timestamp(secs, nanos)` and then
/// `date_naive` on the result. Claimed, as chrono documents a timestamp as
/// the count of non-leap seconds since 1970-01-01T00:00:00Z: for an instant
/// in chrono's range the call succeeds, and the UTC date it falls on is the
/// valid date whose day number is the seconds divided by 86400, rounded
/// down.
#[verifier::external_body]
pub(crate) fn date_of_instant(t: &UtcInstant) -> (r: Option<CalendarDate>)
    requires
        t.wf(),
    ensures
        r is Some,
        r.unwrap().valid(),
        r.unwrap().day_number() == t.day_number(),
{
    match DateTime::from_timestamp(t.secs, t.nanos) {
        Some(dt) => {
            let d = dt.date_naive();
            Some(CalendarDate { year: d.year(), month: d.month(), day: d.day() })
        },
        None => None,
    }
}

} // verus!
