//! Rows of a spreadsheet export, mapped onto events.
use vstd::prelude::*;
use crate::coda::{non_empty, opt_view};
use crate::date::{Date, Time};
use crate::event::{CalendarEvent, EventError};
use crate::temporal::{date_reading, default_end, end_after_default, parse_date, parse_time, time_reading};
use crate::text::{trim_str, trimmed_of};

verus! {

/// One row of a spreadsheet export, every column as text.
#[derive(Debug)]
pub struct CsvRecord {
    pub title: String,
    pub description: Option<String>,
    pub location: Option<String>,
    pub start_date: String,
    pub start_time: Option<String>,
    pub end_date: Option<String>,
    pub end_time: Option<String>,
}

/// An optional column's text when it is present and not empty.
pub open spec fn given(o: Option<String>) -> Option<Seq<char>> {
    match o {
        Some(s) => non_empty(s@),
        None => None,
    }
}

fn given_text(o: &Option<String>) -> (r: Option<String>)
    ensures
        opt_view(r) == given(*o),
        r matches Some(s) ==> *o == Some(s),
{
    match o {
        Some(s) => if s.as_str().is_empty() {
            None
        } else {
            Some(s.clone())
        },
        None => None,
    }
}

/// Reads an optional time column; `Ok(None)` when it is absent or empty.
fn optional_time(o: &Option<String>, field: &str) -> (r: Result<Option<Time>, EventError>)
    ensures
        match given(*o) {
            None => r == Ok::<Option<Time>, EventError>(None),
            Some(t) => match time_reading(t) {
                Some(v) => r == Ok::<Option<Time>, EventError>(Some(v)) && v.wf(),
                None => r matches Err(e) && e.is_invalid(field@, t),
            },
        },
{
    match given_text(o) {
        None => Ok(None),
        Some(t) => match parse_time(t.as_str()) {
            Ok(v) => Ok(Some(v)),
            Err(_) => Err(EventError::InvalidTemporal(field.to_string(), t)),
        },
    }
}

/// The outcome of reading every date and time column of a row whose title
/// and start date are present: the start date, the end date, and the start
/// and end times, or the error of the first column that fails, in the
/// order start date, end date, start time, end time.
pub open spec fn csv_columns_ok(rec: CsvRecord, e: CalendarEvent) -> bool {
    &&& date_reading(rec.start_date@) == Some(e.start_date)
    &&& match given(rec.end_date) {
        Some(d) => date_reading(d) == Some(e.end_date),
        None => e.end_date == e.start_date,
    }
    &&& match given(rec.start_time) {
        Some(t) => time_reading(t) == e.start_time && e.start_time is Some,
        None => e.start_time is None,
    }
    &&& match given(rec.end_time) {
        Some(t) => time_reading(t) == e.end_time && e.end_time is Some,
        None => e.end_time == default_end(e.start_time),
    }
}

/// Maps a spreadsheet row onto an event. The title must hold more than
/// blanks and the start date must be given; a row with a start time and no
/// end time ends the default duration later, and a row with an end time
/// needs a start time.
pub fn parse_record(record: CsvRecord) -> (r: Result<CalendarEvent, EventError>)
    ensures
        trimmed_of(record.title@).len() == 0 ==> (r matches Err(e) && e.is_missing("title"@)),
        trimmed_of(record.title@).len() > 0 && record.start_date@.len() == 0 ==> (r matches Err(
            e,
        ) && e.is_missing("start_date"@)),
        trimmed_of(record.title@).len() > 0 && record.start_date@.len() > 0 ==> {
            let sd = date_reading(record.start_date@);
            let ed = match given(record.end_date) {
                Some(d) => date_reading(d),
                None => sd,
            };
            let st = match given(record.start_time) {
                Some(t) => time_reading(t),
                None => Some(Time { hour: 0, minute: 0, second: 0, nano: 0 }),
            };
            let et = match given(record.end_time) {
                Some(t) => time_reading(t),
                None => Some(Time { hour: 0, minute: 0, second: 0, nano: 0 }),
            };
            if sd is None {
                r matches Err(e) && e.is_invalid("start_date"@, record.start_date@)
            } else if ed is None {
                r matches Err(e) && e.is_invalid("end_date"@, given(record.end_date)->0)
            } else if st is None {
                r matches Err(e) && e.is_invalid("start_time"@, given(record.start_time)->0)
            } else if et is None {
                r matches Err(e) && e.is_invalid("end_time"@, given(record.end_time)->0)
            } else if given(record.start_time) is None && given(record.end_time) is Some {
                r matches Err(e) && e.is_missing("start_time"@)
            } else {
                r matches Ok(e) && e.wf() && csv_columns_ok(record, e) && e.title == record.title
                    && opt_view(e.description) == given(record.description) && opt_view(
                    e.location,
                ) == given(record.location) && e.organization is None && !e.purchased
            }
        },
{
    if trim_str(record.title.as_str()).as_str().is_empty() {
        return Err(EventError::MissingField("title".to_string()));
    }
    if record.start_date.as_str().is_empty() {
        return Err(EventError::MissingField("start_date".to_string()));
    }
    let start_date: Date = match parse_date(record.start_date.as_str()) {
        Ok(d) => d,
        Err(_) => {
            return Err(EventError::InvalidTemporal("start_date".to_string(), record.start_date));
        },
    };
    let end_date: Date = match given_text(&record.end_date) {
        Some(d) => match parse_date(d.as_str()) {
            Ok(v) => v,
            Err(_) => {
                return Err(EventError::InvalidTemporal("end_date".to_string(), d));
            },
        },
        None => start_date,
    };
    let start_time = match optional_time(&record.start_time, "start_time") {
        Ok(t) => t,
        Err(e) => {
            return Err(e);
        },
    };
    let end_time = match optional_time(&record.end_time, "end_time") {
        Ok(t) => t,
        Err(e) => {
            return Err(e);
        },
    };
    let end_time = match (start_time, end_time) {
        (None, Some(_)) => {
            return Err(EventError::MissingField("start_time".to_string()));
        },
        (Some(_), None) => end_after_default(start_time),
        (_, t) => t,
    };
    let description = given_text(&record.description);
    let location = given_text(&record.location);
    Ok(
        CalendarEvent {
            title: record.title,
            description,
            location,
            organization: None,
            purchased: false,
            start_date,
            start_time,
            end_date,
            end_time,
        },
    )
}

} // verus!
