//! Civil time for the trading engine: timestamps as a proleptic-Gregorian day
//! number plus a second of the day, weekday arithmetic, the trading-session
//! window, and the weekday-adjusted T+2 settlement day.

use vstd::prelude::*;
use vstd::arithmetic::div_mod::{lemma_add_mod_noop, lemma_mod_bound, lemma_small_mod};

verus! {

/// Largest day number the engine works with, comfortably above every date the
/// constructor can produce (year 9999 ends on day 3,652,059).
pub const MAX_DAY: i64 = 4_000_000;

/// Second of the local day at which the trading session opens (09:30:00).
pub const MARKET_OPEN_SECS: u32 = 34200;

/// Second of the local day at which the trading session closes (16:00:00).
pub const MARKET_CLOSE_SECS: u32 = 57600;

/// Second of the local day from which an account force-closes any open
/// position on the current bar (15:55:00, five minutes before the close).
pub const FORCED_CLOSE_SECS: u32 = 57300;

/// A timezone-naive civil timestamp: a day number in the proleptic Gregorian
/// calendar (day 1 is January 1 of year 1) and a second within that day.
#[derive(Clone, Copy, Debug, PartialEq, Eq, Structural)]
pub struct DateTime {
    pub day: i64,
    pub secs: u32,
}

impl DateTime {
    pub open spec fn wf(self) -> bool {
        1 <= self.day <= MAX_DAY && self.secs < 86400
    }

    /// The calendar day, as a day number.
    pub fn date(self) -> (r: i64)
        ensures
            r == self.day,
    {
        self.day
    }

    /// The time of day, as seconds since local midnight.
    pub fn time(self) -> (r: u32)
        ensures
            r == self.secs,
    {
        self.secs
    }

    /// The same time of day, `n` calendar days later.
    pub fn add_days(self, n: i64) -> (r: DateTime)
        requires
            self.wf(),
            0 <= n,
            self.day + n <= MAX_DAY,
        ensures
            r.day == self.day + n,
            r.secs == self.secs,
            r.wf(),
    {
        DateTime { day: self.day + n, secs: self.secs }
    }
}

/// ISO weekday of a day number: 1 = Monday through 7 = Sunday. Day 1
/// (January 1 of year 1) is a Monday in the proleptic Gregorian calendar.
pub open spec fn spec_day_of_week(day: int) -> int {
    (day - 1) % 7 + 1
}

/// ISO weekday of a day number: 1 = Monday through 7 = Sunday.
pub fn day_of_week(day: i64) -> (r: i32)
    requires
        1 <= day <= MAX_DAY + 4,
    ensures
        r == spec_day_of_week(day as int),
        1 <= r <= 7,
{
    proof {
        lemma_mod_bound(day - 1, 7);
    }
    ((day - 1) % 7 + 1) as i32
}

pub open spec fn spec_is_leap_year(y: int) -> bool {
    y % 4 == 0 && (y % 100 != 0 || y % 400 == 0)
}

pub open spec fn spec_days_in_month(y: int, m: int) -> int {
    if m == 2 {
        if spec_is_leap_year(y) {
            29
        } else {
            28
        }
    } else if m == 4 || m == 6 || m == 9 || m == 11 {
        30
    } else {
        31
    }
}

/// A real calendar date within the years the engine supports.
pub open spec fn spec_valid_date(y: int, m: int, d: int) -> bool {
    1 <= y <= 9999 && 1 <= m <= 12 && 1 <= d <= spec_days_in_month(y, m)
}

/// The days of the year before month `m` begins.
pub open spec fn spec_days_before_month(y: int, m: int) -> int {
    let plain: int = if m == 1 {
        0
    } else if m == 2 {
        31
    } else if m == 3 {
        59
    } else if m == 4 {
        90
    } else if m == 5 {
        120
    } else if m == 6 {
        151
    } else if m == 7 {
        181
    } else if m == 8 {
        212
    } else if m == 9 {
        243
    } else if m == 10 {
        273
    } else if m == 11 {
        304
    } else {
        334
    };
    if m > 2 && spec_is_leap_year(y) {
        plain + 1
    } else {
        plain
    }
}

/// The day number of a calendar date in the proleptic Gregorian calendar:
/// January 1 of year 1 is day 1. The prior years contribute 365 days each
/// plus one for every leap year among them; the rest is the date's ordinal
/// within its own year.
pub open spec fn spec_day_number(y: int, m: int, d: int) -> int {
    let prior = y - 1;
    365 * prior + prior / 4 - prior / 100 + prior / 400 + spec_days_before_month(y, m) + d
}

/// Relies on chrono's `NaiveDate`: `from_ymd_opt` returns `Some` exactly for
/// real proleptic-Gregorian calendar dates (every year in 1..=9999 lies within
/// chrono's supported range), and `Datelike::num_days_from_ce` counts the days
/// since January 1 of year 1 (that date itself is day 1): 365 per prior year,
/// plus one per leap year among them, plus the date's ordinal in its own year
/// — exactly `spec_day_number`, and so within [1, 9999 * 366] for these years.
#[verifier::external_body]
fn civil_day_number(y: i32, m: u32, d: u32) -> (r: Option<i64>)
    requires
        1 <= y <= 9999,
    ensures
        r is Some <==> spec_valid_date(y as int, m as int, d as int),
        r is Some ==> r->0 == spec_day_number(y as int, m as int, d as int) && 1 <= r->0
            <= 3_660_000,
{
    match chrono::NaiveDate::from_ymd_opt(y, m, d) {
        Some(date) => Some(chrono::Datelike::num_days_from_ce(&date) as i64),
        None => None,
    }
}

/// The timestamp for a calendar date and a wall-clock time of day.
pub fn datetime(y: i32, month: u32, d: u32, h: u32, m: u32, s: u32) -> (r: DateTime)
    requires
        spec_valid_date(y as int, month as int, d as int),
        h < 24,
        m < 60,
        s < 60,
    ensures
        r.day == spec_day_number(y as int, month as int, d as int),
        r.secs == h * 3600 + m * 60 + s,
        r.wf(),
{
    let day = civil_day_number(y, month, d).unwrap();
    DateTime { day, secs: h * 3600 + m * 60 + s }
}

/// Seconds since midnight for a wall-clock time of day.
pub fn time_from_hms(h: u32, m: u32, s: u32) -> (r: u32)
    requires
        h < 24,
        m < 60,
        s < 60,
    ensures
        r == h * 3600 + m * 60 + s,
        r < 86400,
{
    h * 3600 + m * 60 + s
}

/// The trading session is open during [09:30:00, 16:00:00) local time on
/// Monday through Friday.
pub open spec fn spec_market_open(t: DateTime) -> bool {
    MARKET_OPEN_SECS <= t.secs < MARKET_CLOSE_SECS && spec_day_of_week(t.day as int) <= 5
}

/// The settlement day for a sale on `day`: two calendar days later, advanced
/// one day at a time past Saturday and Sunday onto a trading weekday.
pub open spec fn spec_settle_day(day: int) -> int {
    if spec_day_of_week(day + 2) == 6 {
        day + 4
    } else if spec_day_of_week(day + 2) == 7 {
        day + 3
    } else {
        day + 2
    }
}

/// Stepping one day forward advances the weekday cyclically.
proof fn lemma_weekday_step(d: int)
    ensures
        spec_day_of_week(d + 1) == if spec_day_of_week(d) == 7 {
            1int
        } else {
            spec_day_of_week(d) + 1
        },
{
    lemma_mod_bound(d - 1, 7);
    lemma_add_mod_noop(d - 1, 1, 7);
    if (d - 1) % 7 == 6 {
        assert(((d - 1) % 7 + 1) % 7 == 0) by {
            lemma_small_mod(0, 7);
        }
    } else {
        lemma_small_mod(((d - 1) % 7 + 1) as nat, 7);
    }
    lemma_small_mod(1, 7);
}

/// The settlement day falls at least two calendar days after the trade, on a
/// weekday, and every day between the T+2 date and it is a weekend day: it is
/// the first trading weekday at least two calendar days after the trade.
pub proof fn lemma_settle_day_props(day: int)
    ensures
        spec_settle_day(day) >= day + 2,
        1 <= spec_day_of_week(spec_settle_day(day)) <= 5,
        forall|e: int| day + 2 <= e < spec_settle_day(day) ==> spec_day_of_week(e) > 5,
{
    lemma_mod_bound(day + 1, 7);
    lemma_weekday_step(day + 2);
    lemma_weekday_step(day + 3);
}

/// The settlement day for a sale on `day`, advanced past the weekend.
pub fn settle_day(day: i64) -> (r: i64)
    requires
        1 <= day <= MAX_DAY,
    ensures
        r == spec_settle_day(day as int),
        day + 2 <= r <= day + 4,
{
    proof {
        lemma_settle_day_props(day as int);
    }
    let mut d: i64 = day + 2;
    while day_of_week(d) > 5
        invariant
            1 <= day <= MAX_DAY,
            day + 2 <= d <= spec_settle_day(day as int),
            spec_settle_day(day as int) <= day + 4,
            1 <= spec_day_of_week(spec_settle_day(day as int)) <= 5,
            forall|e: int| day + 2 <= e < spec_settle_day(day as int) ==> spec_day_of_week(e) > 5,
        decreases spec_settle_day(day as int) - d,
    {
        d = d + 1;
    }
    d
}

} // verus!
