//! Wall-clock readings and calendar dates.

use vstd::prelude::*;

verus! {

/// A point in time: whole seconds since the Unix epoch and the nanoseconds
/// past that second.
#[derive(Clone, Copy, Debug, PartialEq, Eq, Structural)]
pub struct Timestamp {
    pub secs: i64,
    pub nanos: u32,
}

impl Timestamp {
    /// Nanoseconds since the Unix epoch.
    pub open spec fn total_nanos(self) -> int {
        self.secs * 1_000_000_000 + self.nanos
    }

    /// A value the clock can give: not before the epoch, with a sub-second
    /// nanosecond part.
    pub open spec fn is_clock_reading(self) -> bool {
        self.secs >= 0 && self.nanos < 1_000_000_000
    }

    /// `self` is strictly earlier than `other`.
    pub open spec fn spec_is_before(self, other: Timestamp) -> bool {
        self.secs < other.secs || (self.secs == other.secs && self.nanos < other.nanos)
    }

    pub fn is_before(&self, other: &Timestamp) -> (r: bool)
        ensures
            r == self.spec_is_before(*other),
    {
        self.secs < other.secs || (self.secs == other.secs && self.nanos < other.nanos)
    }
}

/// The current time.
/// Trusted: chrono's `Utc::now()`, read as `timestamp()` and
/// `timestamp_subsec_nanos()`. Its source reads the system clock as a
/// duration since the epoch (panicking before it), so seconds are not
/// negative and the nanoseconds are a sub-second part. Which instant comes
/// back depends on the clock and is not stated.
#[verifier::external_body]
pub fn current_time() -> (t: Timestamp)
    ensures
        t.secs >= 0,
        t.nanos < 1_000_000_000,
        t.is_clock_reading(),
{
    let now = chrono::Utc::now();
    Timestamp { secs: now.timestamp(), nanos: now.timestamp_subsec_nanos() }
}

/// Smallest and largest years chrono's dates cover.
pub const MIN_DATE_YEAR: i32 = -262143;
pub const MAX_DATE_YEAR: i32 = 262142;

pub open spec fn is_leap_year(y: int) -> bool {
    (y % 4 == 0 && y % 100 != 0) || y % 400 == 0
}

pub open spec fn days_in_month(y: int, m: int) -> int {
    if m == 2 {
        if is_leap_year(y) { 29 } else { 28 }
    } else if m == 4 || m == 6 || m == 9 || m == 11 {
        30
    } else {
        31
    }
}

/// `y-m-d` names a day of the proleptic Gregorian calendar.
pub open spec fn is_valid_date(y: int, m: int, d: int) -> bool {
    1 <= m <= 12 && 1 <= d <= days_in_month(y, m)
}

/// Days from 1970-01-01 to `y-m-d` in the proleptic Gregorian calendar.
pub open spec fn days_from_civil(y: int, m: int, d: int) -> int {
    let yy = if m <= 2 { y - 1 } else { y };
    let era = yy / 400;
    let yoe = yy - era * 400;
    let mp = if m > 2 { m - 3 } else { m + 9 };
    let doy = (153 * mp + 2) / 5 + d - 1;
    let doe = yoe * 365 + yoe / 4 - yoe / 100 + doy;
    era * 146097 + doe - 719468
}

/// Midnight UTC of a calendar date, in seconds since the epoch.
/// Trusted: chrono's `NaiveDate::from_ymd_opt`, then `and_time(NaiveTime::MIN)`
/// (midnight) and `and_utc().timestamp()`. chrono documents `from_ymd_opt` as giving
/// `None` exactly for days that do not exist and for years out of its range
/// (`MIN_DATE_YEAR..=MAX_DATE_YEAR` in its source); midnight always exists,
/// and the timestamp counts whole days since 1970-01-01.
#[verifier::external_body]
pub fn midnight_utc(year: i32, month: u32, day: u32) -> (r: Option<i64>)
    ensures
        r is Some <==> (is_valid_date(year as int, month as int, day as int) && MIN_DATE_YEAR
            <= year <= MAX_DATE_YEAR),
        r matches Some(t) ==> t == days_from_civil(year as int, month as int, day as int) * 86400,
{
    match chrono::NaiveDate::from_ymd_opt(year, month, day) {
        Some(date) => Some(date.and_time(chrono::NaiveTime::MIN).and_utc().timestamp()),
        None => None,
    }
}

} // verus!
