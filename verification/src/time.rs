//! Naive calendar dates and daytimes.
//!
//! All timestamps are naive local time: a calendar date within years 0 to
//! 9999 (the range the `YYYY-MM-DD` wire format can carry) together with a
//! second-of-day. No time zones are involved.

use vstd::prelude::*;

verus! {

/// Seconds in one day.
pub const SECS_PER_DAY: u32 = 86400;

/// A calendar date in the proleptic Gregorian calendar, years 0 to 9999.
#[derive(Clone, Copy, Debug, PartialEq, Eq, Structural)]
pub struct Date {
    pub year: u32,
    pub month: u32,
    pub day: u32,
}

/// A naive local timestamp: a date and a second-of-day.
#[derive(Clone, Copy, Debug, PartialEq, Eq, Structural)]
pub struct DateTime {
    pub date: Date,
    /// Seconds since midnight, below `SECS_PER_DAY`.
    pub sec: u32,
}

pub open spec fn spec_is_leap_year(year: int) -> bool {
    year % 4 == 0 && (year % 100 != 0 || year % 400 == 0)
}

pub open spec fn spec_days_in_month(year: int, month: int) -> int {
    if month == 2 {
        if spec_is_leap_year(year) {
            29
        } else {
            28
        }
    } else if month == 4 || month == 6 || month == 9 || month == 11 {
        30
    } else {
        31
    }
}

impl Date {
    /// A date is valid when its month exists and its day exists in that
    /// month, and the year fits the four-digit wire format.
    pub open spec fn valid(self) -> bool {
        &&& self.year <= 9999
        &&& 1 <= self.month <= 12
        &&& 1 <= self.day <= spec_days_in_month(self.year as int, self.month as int)
    }

    /// Strict calendar order.
    pub open spec fn spec_lt(self, other: Date) -> bool {
        ||| self.year < other.year
        ||| (self.year == other.year && self.month < other.month)
        ||| (self.year == other.year && self.month == other.month && self.day < other.day)
    }

    pub open spec fn spec_le(self, other: Date) -> bool {
        self.spec_lt(other) || self == other
    }

    /// An order-preserving measure of a valid date, used for termination.
    pub open spec fn index(self) -> int {
        self.year * 372 + (self.month - 1) * 31 + self.day
    }

    /// The day after this one, or `None` past the end of year 9999.
    pub open spec fn spec_next_day(self) -> Option<Date> {
        if self.day < spec_days_in_month(self.year as int, self.month as int) {
            Some(Date { year: self.year, month: self.month, day: (self.day + 1) as u32 })
        } else if self.month < 12 {
            Some(Date { year: self.year, month: (self.month + 1) as u32, day: 1 })
        } else if self.year < 9999 {
            Some(Date { year: (self.year + 1) as u32, month: 1, day: 1 })
        } else {
            None
        }
    }
}

/// The timestamp `delta` seconds after `t`, rolling into the next calendar
/// day when it crosses midnight; `None` past the calendar's end.
pub open spec fn spec_add_secs(t: DateTime, delta: u32) -> Option<DateTime> {
    if t.sec + delta < SECS_PER_DAY {
        Some(DateTime { date: t.date, sec: (t.sec + delta) as u32 })
    } else {
        match t.date.spec_next_day() {
            Some(d) => Some(DateTime { date: d, sec: (t.sec + delta - SECS_PER_DAY) as u32 }),
            None => None,
        }
    }
}

pub fn is_leap_year(year: u32) -> (r: bool)
    ensures
        r == spec_is_leap_year(year as int),
{
    year % 4 == 0 && (year % 100 != 0 || year % 400 == 0)
}

pub fn days_in_month(year: u32, month: u32) -> (r: u32)
    ensures
        r == spec_days_in_month(year as int, month as int),
{
    if month == 2 {
        if is_leap_year(year) {
            29
        } else {
            28
        }
    } else if month == 4 || month == 6 || month == 9 || month == 11 {
        30
    } else {
        31
    }
}

impl Date {
    /// The day after this one, or `None` past the end of year 9999.
    pub fn next_day(self) -> (r: Option<Date>)
        requires
            self.valid(),
        ensures
            r == self.spec_next_day(),
            match r {
                Some(d) => {
                    &&& d.valid()
                    &&& self.spec_lt(d)
                    &&& d.index() > self.index()
                    &&& forall|m: Date| m.valid() && self.spec_lt(m) ==> d.spec_le(m)
                },
                None => self == (Date { year: 9999, month: 12, day: 31 }),
            },
    {
        if self.day < days_in_month(self.year, self.month) {
            Some(Date { year: self.year, month: self.month, day: self.day + 1 })
        } else if self.month < 12 {
            Some(Date { year: self.year, month: self.month + 1, day: 1 })
        } else if self.year < 9999 {
            Some(Date { year: self.year + 1, month: 1, day: 1 })
        } else {
            None
        }
    }

    /// Whether this date exists in the calendar.
    pub fn check_valid(self) -> (r: bool)
        ensures
            r == self.valid(),
    {
        self.year <= 9999 && 1 <= self.month && self.month <= 12 && 1 <= self.day && self.day
            <= days_in_month(self.year, self.month)
    }

    pub fn lt(self, other: Date) -> (r: bool)
        ensures
            r == self.spec_lt(other),
    {
        self.year < other.year || (self.year == other.year && (self.month < other.month || (
        self.month == other.month && self.day < other.day)))
    }

    pub fn le(self, other: Date) -> (r: bool)
        ensures
            r == self.spec_le(other),
    {
        self.year < other.year || (self.year == other.year && (self.month < other.month || (
        self.month == other.month && self.day <= other.day)))
    }
}

impl DateTime {
    pub open spec fn valid(self) -> bool {
        self.date.valid() && self.sec < SECS_PER_DAY
    }

    /// The clock time of this timestamp, as seconds since midnight.
    pub open spec fn time_of_day(self) -> u32 {
        self.sec
    }

    /// Whether the date exists and the daytime is below one day.
    pub fn check_valid(self) -> (r: bool)
        ensures
            r == self.valid(),
    {
        self.date.check_valid() && self.sec < SECS_PER_DAY
    }

    /// Strict order: by date, then by second-of-day.
    pub open spec fn spec_lt(self, other: DateTime) -> bool {
        self.date.spec_lt(other.date) || (self.date == other.date && self.sec < other.sec)
    }

    pub fn lt(self, other: DateTime) -> (r: bool)
        ensures
            r == self.spec_lt(other),
    {
        self.date.lt(other.date) || (self.date == other.date && self.sec < other.sec)
    }

    /// This timestamp plus under one day of seconds, rolling into the next
    /// calendar day when it crosses midnight. `None` past the calendar's end.
    pub fn add_secs(self, delta: u32) -> (r: Option<DateTime>)
        requires
            self.valid(),
            delta < SECS_PER_DAY,
        ensures
            r == spec_add_secs(self, delta),
            match r {
                Some(t) => {
                    &&& t.valid()
                    &&& if self.sec + delta < SECS_PER_DAY {
                        t.date == self.date && t.sec == self.sec + delta
                    } else {
                        self.date.spec_lt(t.date) && t.sec == self.sec + delta - SECS_PER_DAY
                            && (forall|m: Date| m.valid() && self.date.spec_lt(m) ==> t.date.spec_le(m))
                    }
                },
                None => self.sec + delta >= SECS_PER_DAY && self.date == (Date {
                    year: 9999,
                    month: 12,
                    day: 31,
                }),
            },
    {
        if delta < SECS_PER_DAY - self.sec {
            Some(DateTime { date: self.date, sec: self.sec + delta })
        } else {
            match self.date.next_day() {
                Some(d) => Some(DateTime { date: d, sec: self.sec + delta - SECS_PER_DAY }),
                None => None,
            }
        }
    }
}

} // verus!
