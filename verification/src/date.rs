//! Calendar dates and day times, with the proleptic-Gregorian validity rules
//! that the parsers check day numbers and times against.
use vstd::prelude::*;

verus! {

/// Years are limited to this range, matching the range a report title can
/// reasonably carry; constructions outside it are rejected, never accepted.
pub const MIN_YEAR: i32 = -9999;

pub const MAX_YEAR: i32 = 9999;

/// A year is a leap year if it is divisible by 4 but not by 100, or by 400.
pub open spec fn spec_is_leap_year(year: int) -> bool {
    (year % 4 == 0 && year % 100 != 0) || year % 400 == 0
}

/// Number of days of month `month` (1 to 12) of year `year`.
pub open spec fn spec_days_in_month(year: int, month: int) -> int {
    if month == 2 {
        if spec_is_leap_year(year) {
            29
        } else {
            28
        }
    } else if month == 4 || month == 6 || month == 9 || month == 11 {
        30
    } else {
        31
    }
}

/// A calendar date. `wf` is the type's invariant; every date handed out by
/// this crate satisfies it.
#[derive(Clone, Copy, Debug, PartialEq, Eq, Structural)]
pub struct Date {
    pub year: i32,
    pub month: u8,
    pub day: u8,
}

/// Chronological order on dates: year, then month, then day.
pub open spec fn spec_date_le(a: Date, b: Date) -> bool {
    if a.year != b.year {
        a.year < b.year
    } else if a.month != b.month {
        a.month < b.month
    } else {
        a.day <= b.day
    }
}

pub open spec fn spec_date_lt(a: Date, b: Date) -> bool {
    spec_date_le(a, b) && a != b
}

impl Date {
    pub open spec fn wf(self) -> bool {
        &&& MIN_YEAR <= self.year <= MAX_YEAR
        &&& 1 <= self.month <= 12
        &&& 1 <= self.day <= spec_days_in_month(self.year as int, self.month as int)
    }

    /// Builds a date, accepting exactly the valid calendar dates in the
    /// supported year range.
    pub fn new(year: i32, month: u8, day: u8) -> (r: Option<Date>)
        ensures
            r is Some <==> (MIN_YEAR <= year <= MAX_YEAR && 1 <= month <= 12 && 1 <= day
                <= spec_days_in_month(year as int, month as int)),
            r is Some ==> r->0 == (Date { year, month, day }) && r->0.wf(),
    {
        if MIN_YEAR <= year && year <= MAX_YEAR && 1 <= month && month <= 12 && 1 <= day
            && day <= days_in_month(year, month) {
            Some(Date { year, month, day })
        } else {
            None
        }
    }

    /// The same month with the day of month replaced, accepting exactly the
    /// day numbers that exist in this date's month.
    pub fn replace_day(self, day: u8) -> (r: Option<Date>)
        requires
            self.wf(),
        ensures
            r is Some <==> 1 <= day <= spec_days_in_month(self.year as int, self.month as int),
            r is Some ==> r->0 == (Date { year: self.year, month: self.month, day }) && r->0.wf(),
    {
        Date::new(self.year, self.month, day)
    }

    pub fn le(self, other: Date) -> (r: bool)
        ensures
            r == spec_date_le(self, other),
    {
        if self.year != other.year {
            self.year < other.year
        } else if self.month != other.month {
            self.month < other.month
        } else {
            self.day <= other.day
        }
    }

    pub fn lt(self, other: Date) -> (r: bool)
        ensures
            r == spec_date_lt(self, other),
    {
        if self.year != other.year {
            self.year < other.year
        } else if self.month != other.month {
            self.month < other.month
        } else {
            self.day < other.day
        }
    }
}

pub fn is_leap_year(year: i32) -> (r: bool)
    requires
        MIN_YEAR <= year <= MAX_YEAR,
    ensures
        r == spec_is_leap_year(year as int),
{
    // Shift into the non-negative range; 10000 is a multiple of 400, 100 and
    // 4, so divisibility by each is unchanged.
    let shifted: i32 = year + 10000;
    proof {
        vstd::arithmetic::div_mod::lemma_add_mod_noop(year as int, 10000int, 4int);
        vstd::arithmetic::div_mod::lemma_add_mod_noop(year as int, 10000int, 100int);
        vstd::arithmetic::div_mod::lemma_add_mod_noop(year as int, 10000int, 400int);
    }
    (shifted % 4 == 0 && shifted % 100 != 0) || shifted % 400 == 0
}

pub fn days_in_month(year: i32, month: u8) -> (r: u8)
    requires
        MIN_YEAR <= year <= MAX_YEAR,
        1 <= month <= 12,
    ensures
        r as int == spec_days_in_month(year as int, month as int),
{
    if month == 2 {
        if is_leap_year(year) {
            29
        } else {
            28
        }
    } else if month == 4 || month == 6 || month == 9 || month == 11 {
        30
    } else {
        31
    }
}

/// A timestamp within one calendar day: the date plus an hour and a minute.
#[derive(Clone, Copy, Debug, PartialEq, Eq, Structural)]
pub struct DayTime {
    pub date: Date,
    pub hour: u8,
    pub minute: u8,
}

impl DayTime {
    pub open spec fn wf(self) -> bool {
        &&& self.date.wf()
        &&& self.hour < 24
        &&& self.minute < 60
    }

    /// Combines a date with an hour and minute, accepting exactly the times
    /// of day that exist.
    pub fn new(date: Date, hour: u8, minute: u8) -> (r: Option<DayTime>)
        requires
            date.wf(),
        ensures
            r is Some <==> (hour < 24 && minute < 60),
            r is Some ==> r->0 == (DayTime { date, hour, minute }) && r->0.wf(),
    {
        if hour < 24 && minute < 60 {
            Some(DayTime { date, hour, minute })
        } else {
            None
        }
    }
}

} // verus!
