//! The canonical event and the errors met while building one.
use vstd::prelude::*;
use crate::date::{Date, Time};

verus! {

/// Why a row could not become an event.
#[derive(Debug)]
pub enum EventError {
    /// No supported format reads the text.
    UnparseableTemporal(String),
    /// A required column is absent or empty.
    MissingField(String),
    /// A column holds a date or time that no supported format reads: the
    /// column's name, then its text.
    InvalidTemporal(String, String),
}

/// An event as read from a source row.
#[derive(Debug)]
pub struct CalendarEvent {
    pub title: String,
    pub description: Option<String>,
    pub location: Option<String>,
    pub organization: Option<String>,
    pub purchased: bool,
    pub start_date: Date,
    pub start_time: Option<Time>,
    pub end_date: Date,
    pub end_time: Option<Time>,
}

impl EventError {
    /// `UnparseableTemporal` carrying the text `raw`.
    pub open spec fn is_unparseable(self, raw: Seq<char>) -> bool {
        self matches EventError::UnparseableTemporal(x) && x@ == raw
    }

    /// `MissingField` naming the column `name`.
    pub open spec fn is_missing(self, name: Seq<char>) -> bool {
        self matches EventError::MissingField(x) && x@ == name
    }

    /// `InvalidTemporal` naming the column `field` and carrying its text `raw`.
    pub open spec fn is_invalid(self, field: Seq<char>, raw: Seq<char>) -> bool {
        self matches EventError::InvalidTemporal(f, x) && f@ == field && x@ == raw
    }
}

pub open spec fn time_ok(t: Option<Time>) -> bool {
    t matches Some(x) ==> x.wf()
}

/// Copies an optional string, keeping its contents.
pub fn copy_opt(s: &Option<String>) -> (r: Option<String>)
    ensures
        r == *s,
{
    match s {
        Some(x) => Some(x.clone()),
        None => None,
    }
}

impl CalendarEvent {
    /// Valid dates and times, and either both times or neither.
    pub open spec fn wf(&self) -> bool {
        &&& self.start_date.wf()
        &&& self.end_date.wf()
        &&& time_ok(self.start_time)
        &&& time_ok(self.end_time)
        &&& (self.start_time is Some <==> self.end_time is Some)
    }

    /// Whether the dates and times are valid and the times come both or not at all.
    pub fn is_valid(&self) -> (r: bool)
        ensures
            r == self.wf(),
    {
        let dates = self.start_date.is_valid() && self.end_date.is_valid();
        let times = match (self.start_time, self.end_time) {
            (Some(s), Some(e)) => s.is_valid() && e.is_valid(),
            (None, None) => true,
            _ => false,
        };
        dates && times
    }

    pub open spec fn spec_all_day(&self) -> bool {
        self.start_time is None && self.end_time is None
    }

    /// Whether the event spans whole days, with no time of day.
    pub fn is_all_day(&self) -> (r: bool)
        ensures
            r == self.spec_all_day(),
    {
        self.start_time.is_none() && self.end_time.is_none()
    }

    /// The start as a local date and time, midnight when no start time is set.
    pub fn start_datetime(&self) -> (r: (Date, Time))
        ensures
            r.0 == self.start_date,
            r.1 == (match self.start_time {
                Some(t) => t,
                None => Time { hour: 0, minute: 0, second: 0, nano: 0 },
            }),
    {
        match self.start_time {
            Some(t) => (self.start_date, t),
            None => (self.start_date, Time::midnight()),
        }
    }

    /// The end as a local date and time, 23:59:59 when no end time is set.
    pub fn end_datetime(&self) -> (r: (Date, Time))
        ensures
            r.0 == self.end_date,
            r.1 == (match self.end_time {
                Some(t) => t,
                None => Time { hour: 23, minute: 59, second: 59, nano: 0 },
            }),
    {
        match self.end_time {
            Some(t) => (self.end_date, t),
            None => (self.end_date, Time::end_of_day()),
        }
    }

    /// A field-for-field copy.
    pub fn duplicate(&self) -> (r: CalendarEvent)
        ensures
            r == *self,
    {
        CalendarEvent {
            title: self.title.clone(),
            description: copy_opt(&self.description),
            location: copy_opt(&self.location),
            organization: copy_opt(&self.organization),
            purchased: self.purchased,
            start_date: self.start_date,
            start_time: self.start_time,
            end_date: self.end_date,
            end_time: self.end_time,
        }
    }
}

/// An event is all-day exactly when it has neither a start nor an end time.
pub proof fn lemma_all_day_iff_no_times(e: CalendarEvent)
    ensures
        e.spec_all_day() <==> (e.start_time is None && e.end_time is None),
        e.wf() ==> (e.spec_all_day() <==> e.start_time is None),
{
}

} // verus!
