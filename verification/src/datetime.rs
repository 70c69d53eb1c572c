//! The date-time model for document metadata: a calendar date, a time of day,
//! and an optional UTC offset, together with the conversion of a date-time to
//! signed seconds since the Unix epoch (a document's absolute age).
//!
//! Out-of-range parts degrade instead of failing: a missing or invalid date
//! means the epoch itself, a missing or invalid time means midnight, and a
//! missing or out-of-range offset means UTC.

use vstd::prelude::*;

verus! {

/// A calendar date.
#[derive(Clone, Copy, PartialEq, Eq, Debug)]
pub struct Date {
    pub year: u16,
    pub month: u8,
    pub day: u8,
}

/// A time of day.
#[derive(Clone, Copy, PartialEq, Eq, Debug)]
pub struct Time {
    pub hour: u8,
    pub minute: u8,
    pub second: u8,
    pub nanosecond: u32,
}

/// A UTC offset: either `Z` or a signed number of minutes.
#[derive(Clone, Copy, PartialEq, Eq, Debug)]
pub enum UtcOffset {
    Zulu,
    Minutes(i16),
}

/// A possibly partial date-time, as a metadata block supplies it.
#[derive(Clone, Copy, PartialEq, Eq, Debug)]
pub struct Datetime {
    pub date: Option<Date>,
    pub time: Option<Time>,
    pub offset: Option<UtcOffset>,
}

pub open spec fn is_leap_year(y: int) -> bool {
    y % 4 == 0 && (y % 100 != 0 || y % 400 == 0)
}

pub open spec fn days_in_year(y: int) -> int {
    if is_leap_year(y) {
        366
    } else {
        365
    }
}

pub open spec fn days_in_month(y: int, m: int) -> int {
    if m == 2 {
        if is_leap_year(y) {
            29
        } else {
            28
        }
    } else if m == 4 || m == 6 || m == 9 || m == 11 {
        30
    } else {
        31
    }
}

pub open spec fn valid_date(d: Date) -> bool {
    1 <= d.month <= 12 && 1 <= d.day <= days_in_month(d.year as int, d.month as int)
}

pub open spec fn valid_time(t: Time) -> bool {
    t.hour <= 23 && t.minute <= 59 && t.second <= 59
}

/// Days from 1970-01-01 to the first day of year `y` (negative before 1970).
pub open spec fn days_to_year(y: int) -> int
    decreases
            if y >= 1970 {
                y - 1970
            } else {
                1970 - y
            },
{
    if y > 1970 {
        days_to_year(y - 1) + days_in_year(y - 1)
    } else if y < 1970 {
        days_to_year(y + 1) - days_in_year(y)
    } else {
        0
    }
}

/// Days from the first of January to the first of month `m` in year `y`.
pub open spec fn days_to_month(y: int, m: int) -> int
    decreases m,
{
    if m <= 1 {
        0
    } else {
        days_to_month(y, m - 1) + days_in_month(y, m - 1)
    }
}

/// Days from 1970-01-01 to the given date.
pub open spec fn epoch_days(d: Date) -> int {
    days_to_year(d.year as int) + days_to_month(d.year as int, d.month as int) + d.day - 1
}

/// Seconds into the day; midnight for a missing or invalid time.
pub open spec fn time_seconds(t: Option<Time>) -> int {
    match t {
        Option::Some(t) => if valid_time(t) {
            t.hour * 3600 + t.minute * 60 + t.second
        } else {
            0
        },
        Option::None => 0,
    }
}

/// The offset in seconds; UTC for a missing or out-of-range offset.
pub open spec fn offset_seconds(o: Option<UtcOffset>) -> int {
    match o {
        Option::Some(UtcOffset::Zulu) => 0,
        Option::Some(UtcOffset::Minutes(m)) => if -1440 < m < 1440 {
            m * 60
        } else {
            0
        },
        Option::None => 0,
    }
}

/// Signed seconds since the Unix epoch of the instant a date-time denotes.
/// A missing or invalid date means the epoch itself.
pub open spec fn epoch_seconds(dt: Datetime) -> int {
    match dt.date {
        Option::Some(d) => if valid_date(d) {
            epoch_days(d) * 86400 + time_seconds(dt.time) - offset_seconds(dt.offset)
        } else {
            0
        },
        Option::None => 0,
    }
}

proof fn lemma_days_to_year_bounds(y: int)
    requires
        0 <= y <= 0x10000,
    ensures
        y >= 1970 ==> 0 <= days_to_year(y) <= (y - 1970) * 366,
        y < 1970 ==> -(1970 - y) * 366 <= days_to_year(y) <= 0,
    decreases
            if y >= 1970 {
                y - 1970
            } else {
                1970 - y
            },
{
    if y > 1970 {
        lemma_days_to_year_bounds(y - 1);
    } else if y < 1970 {
        lemma_days_to_year_bounds(y + 1);
    }
}

proof fn lemma_days_to_month_bounds(y: int, m: int)
    requires
        0 <= m <= 12,
    ensures
        0 <= days_to_month(y, m) <= 31 * m,
    decreases m,
{
    if m > 1 {
        lemma_days_to_month_bounds(y, m - 1);
    }
}

fn days_in_month_exec(y: u16, m: u8) -> (r: u8)
    ensures
        r == days_in_month(y as int, m as int),
{
    let leap: bool = y % 4 == 0 && (y % 100 != 0 || y % 400 == 0);
    if m == 2 {
        if leap {
            29
        } else {
            28
        }
    } else if m == 4 || m == 6 || m == 9 || m == 11 {
        30
    } else {
        31
    }
}

pub fn valid_date_exec(d: &Date) -> (r: bool)
    ensures
        r == valid_date(*d),
{
    1 <= d.month && d.month <= 12 && 1 <= d.day && d.day <= days_in_month_exec(d.year, d.month)
}

fn days_to_year_exec(y: u16) -> (r: i64)
    ensures
        r == days_to_year(y as int),
{
    proof {
        lemma_days_to_year_bounds(y as int);
    }
    if y >= 1970 {
        let mut cur: u16 = 1970;
        let mut acc: i64 = 0;
        while cur < y
            invariant
                1970 <= cur <= y,
                acc == days_to_year(cur as int),
            decreases y - cur,
        {
            proof {
                lemma_days_to_year_bounds(cur as int);
                lemma_days_to_year_bounds(cur as int + 1);
            }
            let leap: bool = cur % 4 == 0 && (cur % 100 != 0 || cur % 400 == 0);
            acc = acc + if leap {
                366
            } else {
                365
            };
            cur = cur + 1;
        }
        acc
    } else {
        let mut cur: u16 = 1970;
        let mut acc: i64 = 0;
        while cur > y
            invariant
                y <= cur <= 1970,
                acc == days_to_year(cur as int),
            decreases cur - y,
        {
            proof {
                lemma_days_to_year_bounds(cur as int);
                lemma_days_to_year_bounds(cur as int - 1);
            }
            let prev: u16 = cur - 1;
            let leap: bool = prev % 4 == 0 && (prev % 100 != 0 || prev % 400 == 0);
            acc = acc - if leap {
                366
            } else {
                365
            };
            cur = prev;
        }
        acc
    }
}

/// Days from 1970-01-01 to `d`.
pub fn epoch_days_exec(d: &Date) -> (r: i64)
    requires
        valid_date(*d),
    ensures
        r == epoch_days(*d),
        -750000 <= r <= 24000000,
{
    proof {
        lemma_days_to_year_bounds(d.year as int);
        lemma_days_to_month_bounds(d.year as int, d.month as int);
    }
    let ydays = days_to_year_exec(d.year);
    let mut m: u8 = 1;
    let mut mdays: i64 = 0;
    while m < d.month
        invariant
            1 <= m <= d.month <= 12,
            mdays == days_to_month(d.year as int, m as int),
            0 <= mdays <= 31 * m,
        decreases d.month - m,
    {
        proof {
            lemma_days_to_month_bounds(d.year as int, m as int);
        }
        mdays = mdays + days_in_month_exec(d.year, m) as i64;
        m = m + 1;
    }
    ydays + mdays + d.day as i64 - 1
}

/// Signed seconds since the Unix epoch of the instant `dt` denotes.
pub fn dt_epoch_seconds(dt: &Datetime) -> (r: i64)
    ensures
        r == epoch_seconds(*dt),
{
    let d = match dt.date {
        Some(d) => d,
        None => {
            return 0;
        },
    };
    if !valid_date_exec(&d) {
        return 0;
    }
    let days = epoch_days_exec(&d);
    let tsecs: i64 = match dt.time {
        Some(t) => {
            if t.hour <= 23 && t.minute <= 59 && t.second <= 59 {
                t.hour as i64 * 3600 + t.minute as i64 * 60 + t.second as i64
            } else {
                0
            }
        },
        None => 0,
    };
    let osecs: i64 = match dt.offset {
        Some(UtcOffset::Zulu) => 0,
        Some(UtcOffset::Minutes(m)) => {
            if -1440 < m && m < 1440 {
                m as i64 * 60
            } else {
                0
            }
        },
        None => 0,
    };
    days * 86400 + tsecs - osecs
}

} // verus!
