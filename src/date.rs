//! Calendar dates and wall-clock times as plain values.
use vstd::prelude::*;

verus! {

/// Earliest year a date may carry.
pub const MIN_YEAR: i32 = -262143;

/// Latest year a date may carry.
pub const MAX_YEAR: i32 = 262142;

/// Seconds in one calendar day.
pub const SECS_PER_DAY: u32 = 86400;

/// Fractional-second ticks per second (nanoseconds).
pub const NANOS_PER_SEC: u32 = 1_000_000_000;

pub open spec fn is_leap(y: int) -> bool {
    (y % 4 == 0 && y % 100 != 0) || y % 400 == 0
}

pub open spec fn days_in_month(y: int, m: int) -> int {
    if m == 2 {
        if is_leap(y) { 29 } else { 28 }
    } else if m == 4 || m == 6 || m == 9 || m == 11 {
        30
    } else {
        31
    }
}

/// A proleptic Gregorian calendar date.
#[derive(Clone, Copy, Debug, PartialEq, Eq, Structural)]
pub struct Date {
    pub year: i32,
    pub month: u32,
    pub day: u32,
}

/// A wall-clock time of day. `nano` reaches past one second only during a
/// leap second, which is always written as second 59.
#[derive(Clone, Copy, Debug, PartialEq, Eq, Structural)]
pub struct Time {
    pub hour: u32,
    pub minute: u32,
    pub second: u32,
    pub nano: u32,
}

pub fn month_length(y: i32, m: u32) -> (r: u32)
    requires
        1 <= m <= 12,
    ensures
        r == days_in_month(y as int, m as int),
{
    if m == 2 {
        if (y % 4 == 0 && y % 100 != 0) || y % 400 == 0 {
            29
        } else {
            28
        }
    } else if m == 4 || m == 6 || m == 9 || m == 11 {
        30
    } else {
        31
    }
}

impl Date {
    pub open spec fn wf(self) -> bool {
        &&& MIN_YEAR <= self.year <= MAX_YEAR
        &&& 1 <= self.month <= 12
        &&& 1 <= self.day <= days_in_month(self.year as int, self.month as int)
    }

    /// The last date that can be represented; it has no successor.
    pub open spec fn is_last(self) -> bool {
        self.year == MAX_YEAR && self.month == 12 && self.day == 31
    }

    /// The first date that can be represented; it has no predecessor.
    pub open spec fn is_first(self) -> bool {
        self.year == MIN_YEAR && self.month == 1 && self.day == 1
    }

    /// The next calendar day.
    pub open spec fn next_day(self) -> Date {
        if (self.day as int) < days_in_month(self.year as int, self.month as int) {
            Date { day: (self.day + 1) as u32, ..self }
        } else if self.month < 12 {
            Date { month: (self.month + 1) as u32, day: 1, ..self }
        } else {
            Date { year: (self.year + 1) as i32, month: 1, day: 1 }
        }
    }

    /// The previous calendar day.
    pub open spec fn prev_day(self) -> Date {
        if self.day > 1 {
            Date { day: (self.day - 1) as u32, ..self }
        } else if self.month > 1 {
            Date {
                month: (self.month - 1) as u32,
                day: days_in_month(self.year as int, self.month - 1) as u32,
                ..self
            }
        } else {
            Date { year: (self.year - 1) as i32, month: 12, day: 31 }
        }
    }

    /// Calendar order: by year, then month, then day.
    pub open spec fn le(self, other: Date) -> bool {
        self.year < other.year || (self.year == other.year && (self.month < other.month || (
        self.month == other.month && self.day <= other.day)))
    }

    /// Builds a date, or `None` when the three parts name no day of the calendar.
    pub fn new(year: i32, month: u32, day: u32) -> (r: Option<Date>)
        ensures
            r is Some <==> (Date { year, month, day }).wf(),
            r is Some ==> r->0 == (Date { year, month, day }),
    {
        if year < MIN_YEAR || year > MAX_YEAR || month < 1 || month > 12 || day < 1 {
            return None;
        }
        if day > month_length(year, month) {
            return None;
        }
        Some(Date { year, month, day })
    }

    /// Whether the parts name a day of the calendar.
    pub fn is_valid(&self) -> (r: bool)
        ensures
            r == self.wf(),
    {
        MIN_YEAR <= self.year && self.year <= MAX_YEAR && 1 <= self.month && self.month <= 12
            && 1 <= self.day && self.day <= month_length(self.year, self.month)
    }

    /// The next calendar day; the last representable date is its own successor.
    pub fn succ(&self) -> (r: Date)
        requires
            self.wf(),
        ensures
            r.wf(),
            r == (if self.is_last() { *self } else { self.next_day() }),
    {
        if self.day < month_length(self.year, self.month) {
            Date { day: self.day + 1, ..*self }
        } else if self.month < 12 {
            Date { month: self.month + 1, day: 1, ..*self }
        } else if self.year < MAX_YEAR {
            Date { year: self.year + 1, month: 1, day: 1 }
        } else {
            *self
        }
    }

    /// The previous calendar day; the first representable date is its own predecessor.
    pub fn pred(&self) -> (r: Date)
        requires
            self.wf(),
        ensures
            r.wf(),
            r == (if self.is_first() { *self } else { self.prev_day() }),
    {
        if self.day > 1 {
            Date { day: self.day - 1, ..*self }
        } else if self.month > 1 {
            Date { month: self.month - 1, day: month_length(self.year, self.month - 1), ..*self }
        } else if self.year > MIN_YEAR {
            Date { year: self.year - 1, month: 12, day: 31 }
        } else {
            *self
        }
    }

    /// Whether `self` falls on or before `other`.
    pub fn on_or_before(&self, other: &Date) -> (r: bool)
        ensures
            r == self.le(*other),
    {
        self.year < other.year || (self.year == other.year && (self.month < other.month || (
        self.month == other.month && self.day <= other.day)))
    }
}

/// Stepping one day forward and then one day back returns the starting date.
pub proof fn lemma_prev_of_next(d: Date)
    requires
        d.wf(),
        !d.is_last(),
    ensures
        d.next_day().wf(),
        d.next_day().prev_day() == d,
{
}

/// Calendar order is total and transitive.
pub proof fn lemma_date_order(a: Date, b: Date, c: Date)
    ensures
        a.le(b) || b.le(a),
        a.le(b) && b.le(a) ==> a == b,
        a.le(b) && b.le(c) ==> a.le(c),
{
}

impl Time {
    pub open spec fn wf(self) -> bool {
        &&& self.hour < 24
        &&& self.minute < 60
        &&& self.second < 60
        &&& self.nano < 2 * NANOS_PER_SEC
        &&& self.nano >= NANOS_PER_SEC ==> self.second == 59
    }

    /// Whole seconds since midnight.
    pub open spec fn secs_of_day(self) -> int {
        self.hour * 3600 + self.minute * 60 + self.second
    }

    /// Whether the parts name a time of day.
    pub fn is_valid(&self) -> (r: bool)
        ensures
            r == self.wf(),
    {
        self.hour < 24 && self.minute < 60 && self.second < 60 && self.nano < 2 * NANOS_PER_SEC
            && (self.nano < NANOS_PER_SEC || self.second == 59)
    }

    /// Builds a time with no fractional second, or `None` when out of range.
    pub fn from_hms(hour: u32, minute: u32, second: u32) -> (r: Option<Time>)
        ensures
            r is Some <==> (hour < 24 && minute < 60 && second < 60),
            r is Some ==> r->0 == (Time { hour, minute, second, nano: 0 }),
            r is Some ==> r->0.wf(),
    {
        if hour < 24 && minute < 60 && second < 60 {
            Some(Time { hour, minute, second, nano: 0 })
        } else {
            None
        }
    }

    /// Midnight, the time an event without a start time begins at.
    pub fn midnight() -> (r: Time)
        ensures
            r == (Time { hour: 0, minute: 0, second: 0, nano: 0 }),
            r.wf(),
    {
        Time { hour: 0, minute: 0, second: 0, nano: 0 }
    }

    /// 23:59:59, the time an event without an end time ends at.
    pub fn end_of_day() -> (r: Time)
        ensures
            r == (Time { hour: 23, minute: 59, second: 59, nano: 0 }),
            r.wf(),
    {
        Time { hour: 23, minute: 59, second: 59, nano: 0 }
    }

    pub fn secs(&self) -> (r: u32)
        requires
            self.wf(),
        ensures
            r == self.secs_of_day(),
            r < SECS_PER_DAY,
    {
        self.hour * 3600 + self.minute * 60 + self.second
    }
}

/// The wall-clock time with the given seconds since midnight and nanoseconds.
pub open spec fn time_from_secs(secs: int, nano: int) -> Time {
    Time {
        hour: (secs / 3600) as u32,
        minute: ((secs % 3600) / 60) as u32,
        second: (secs % 60) as u32,
        nano: nano as u32,
    }
}

pub fn time_of_secs(secs: u32, nano: u32) -> (r: Time)
    requires
        secs < SECS_PER_DAY,
        nano < NANOS_PER_SEC,
    ensures
        r == time_from_secs(secs as int, nano as int),
        r.wf(),
        r.secs_of_day() == secs,
{
    Time { hour: secs / 3600, minute: (secs % 3600) / 60, second: secs % 60, nano }
}

} // verus!
