//! Reading dates and times out of free-form text: an ordered list of formats,
//! each read by chrono, the first success winning.
use vstd::prelude::*;
use chrono::{Datelike, Timelike};
use crate::date::{Date, Time, time_from_secs, NANOS_PER_SEC, SECS_PER_DAY};
use crate::event::EventError;
use crate::text::{trim_str, to_upper, trimmed_of, upper_of};

verus! {

/// A calendar date with the time of day when the text gave one.
pub type Temporal = (Date, Option<Time>);

/// The date and wall-clock time that chrono's RFC 3339 reader finds in `s`,
/// as written beside its UTC offset.
pub uninterp spec fn rfc3339_local(s: Seq<char>) -> Option<(Date, Time)>;

/// The date and wall-clock time that chrono reads from `s` with the
/// offset-carrying format `fmt`, as written beside the offset.
pub uninterp spec fn offset_datetime_local(s: Seq<char>, fmt: Seq<char>) -> Option<(Date, Time)>;

/// The date and time that chrono reads from `s` with the format `fmt`.
pub uninterp spec fn naive_datetime_of(s: Seq<char>, fmt: Seq<char>) -> Option<(Date, Time)>;

/// The date that chrono reads from `s` with the format `fmt`.
pub uninterp spec fn naive_date_of(s: Seq<char>, fmt: Seq<char>) -> Option<Date>;

/// The time of day that chrono reads from `s` with the format `fmt`.
pub uninterp spec fn naive_time_of(s: Seq<char>, fmt: Seq<char>) -> Option<Time>;

/// Relies on `chrono::DateTime::parse_from_rfc3339`; the date and time kept are
/// the local ones beside the offset, always a valid date and time.
#[verifier::external_body]
fn read_rfc3339(s: &str) -> (r: Option<(Date, Time)>)
    ensures
        r == rfc3339_local(s@),
        r matches Some(v) ==> v.0.wf() && v.1.wf(),
{
    chrono::DateTime::parse_from_rfc3339(s).ok().map(|dt| {
        let (d, t) = (dt.date_naive(), dt.time());
        (
            Date { year: d.year(), month: d.month(), day: d.day() },
            Time { hour: t.hour(), minute: t.minute(), second: t.second(), nano: t.nanosecond() },
        )
    })
}

/// Relies on `chrono::DateTime::parse_from_str`; the date and time kept are
/// the local ones beside the offset, always a valid date and time.
#[verifier::external_body]
fn read_offset_datetime(s: &str, fmt: &str) -> (r: Option<(Date, Time)>)
    ensures
        r == offset_datetime_local(s@, fmt@),
        r matches Some(v) ==> v.0.wf() && v.1.wf(),
{
    chrono::DateTime::parse_from_str(s, fmt).ok().map(|dt| {
        let (d, t) = (dt.date_naive(), dt.time());
        (
            Date { year: d.year(), month: d.month(), day: d.day() },
            Time { hour: t.hour(), minute: t.minute(), second: t.second(), nano: t.nanosecond() },
        )
    })
}

/// Relies on `chrono::NaiveDateTime::parse_from_str`, which yields a valid
/// date and time.
#[verifier::external_body]
fn read_naive_datetime(s: &str, fmt: &str) -> (r: Option<(Date, Time)>)
    ensures
        r == naive_datetime_of(s@, fmt@),
        r matches Some(v) ==> v.0.wf() && v.1.wf(),
{
    chrono::NaiveDateTime::parse_from_str(s, fmt).ok().map(|dt| {
        let (d, t) = (dt.date(), dt.time());
        (
            Date { year: d.year(), month: d.month(), day: d.day() },
            Time { hour: t.hour(), minute: t.minute(), second: t.second(), nano: t.nanosecond() },
        )
    })
}

/// Relies on `chrono::NaiveDate::parse_from_str`, which yields a valid date.
#[verifier::external_body]
fn read_naive_date(s: &str, fmt: &str) -> (r: Option<Date>)
    ensures
        r == naive_date_of(s@, fmt@),
        r matches Some(d) ==> d.wf(),
{
    chrono::NaiveDate::parse_from_str(s, fmt).ok().map(
        |d| Date { year: d.year(), month: d.month(), day: d.day() },
    )
}

/// Relies on `chrono::NaiveTime::parse_from_str`, which yields a valid time.
#[verifier::external_body]
fn read_naive_time(s: &str, fmt: &str) -> (r: Option<Time>)
    ensures
        r == naive_time_of(s@, fmt@),
        r matches Some(t) ==> t.wf(),
{
    chrono::NaiveTime::parse_from_str(s, fmt).ok().map(
        |t| Time { hour: t.hour(), minute: t.minute(), second: t.second(), nano: t.nanosecond() },
    )
}

/// The first present entry of `s` from index `i` on.
pub open spec fn first_from<T>(s: Seq<Option<T>>, i: int) -> Option<T>
    decreases s.len() - i,
{
    if i < 0 || i >= s.len() {
        None
    } else if s[i] is Some {
        s[i]
    } else {
        first_from(s, i + 1)
    }
}

/// The first present entry of `s`.
pub open spec fn first_some<T>(s: Seq<Option<T>>) -> Option<T> {
    first_from(s, 0)
}

/// Picks the first reading that succeeded, in the order given.
pub fn first_success<T: Copy>(attempts: &Vec<Option<T>>) -> (r: Option<T>)
    ensures
        r == first_some(attempts@),
{
    let mut i: usize = 0;
    while i < attempts.len()
        invariant
            i <= attempts@.len(),
            first_some(attempts@) == first_from(attempts@, i as int),
        decreases attempts@.len() - i,
    {
        let a = attempts[i];
        if a.is_some() {
            return a;
        }
        i = i + 1;
    }
    None
}

pub open spec fn timed(o: Option<(Date, Time)>) -> Option<Temporal> {
    match o {
        Some(v) => Some((v.0, Some(v.1))),
        None => None,
    }
}

pub open spec fn untimed(o: Option<Date>) -> Option<Temporal> {
    match o {
        Some(d) => Some((d, None)),
        None => None,
    }
}

fn with_time(o: Option<(Date, Time)>) -> (r: Option<Temporal>)
    ensures
        r == timed(o),
{
    match o {
        Some(v) => Some((v.0, Some(v.1))),
        None => None,
    }
}

fn without_time(o: Option<Date>) -> (r: Option<Temporal>)
    ensures
        r == untimed(o),
{
    match o {
        Some(d) => Some((d, None)),
        None => None,
    }
}

/// The readings of already trimmed text, most specific format first:
/// offset-carrying instants, `T`-separated and space-separated date-times,
/// month-first 12-hour date-times (read upper-cased), then bare dates with
/// month-first tried before day-first.
pub open spec fn datetime_readings(t: Seq<char>) -> Seq<Option<Temporal>> {
    let u = upper_of(t);
    seq![
        timed(rfc3339_local(t)),
        timed(offset_datetime_local(t, "%Y-%m-%dT%H:%M:%S%:z"@)),
        timed(naive_datetime_of(t, "%Y-%m-%dT%H:%M:%S"@)),
        timed(naive_datetime_of(t, "%Y-%m-%dT%H:%M:%S%.f"@)),
        timed(naive_datetime_of(t, "%Y-%m-%dT%H:%M"@)),
        timed(naive_datetime_of(t, "%Y-%m-%d %H:%M:%S"@)),
        timed(naive_datetime_of(t, "%Y-%m-%d %H:%M"@)),
        timed(naive_datetime_of(u, "%m/%d/%Y %I:%M %p"@)),
        timed(naive_datetime_of(u, "%m/%d/%Y %I:%M:%S %p"@)),
        untimed(naive_date_of(t, "%Y-%m-%d"@)),
        untimed(naive_date_of(t, "%m/%d/%Y"@)),
        untimed(naive_date_of(t, "%d/%m/%Y"@)),
    ]
}

/// What `parse_coda_datetime` reads from `s`.
pub open spec fn datetime_reading(s: Seq<char>) -> Option<Temporal> {
    first_some(datetime_readings(trimmed_of(s)))
}

pub open spec fn temporal_wf(v: Temporal) -> bool {
    v.0.wf() && (v.1 matches Some(t) ==> t.wf())
}

proof fn lemma_first_from_wf(s: Seq<Option<Temporal>>, i: int)
    requires
        forall|j: int| 0 <= j < s.len() ==> (#[trigger] s[j] matches Some(v) ==> temporal_wf(v)),
    ensures
        first_from(s, i) matches Some(v) ==> temporal_wf(v),
    decreases s.len() - i,
{
    if 0 <= i < s.len() && s[i] is None {
        lemma_first_from_wf(s, i + 1);
    }
}

/// Reads a date with an optional time of day from free-form text, trying the
/// formats of `datetime_readings` in order on the trimmed text.
pub fn parse_coda_datetime(s: &str) -> (r: Result<Temporal, EventError>)
    ensures
        match r {
            Ok(v) => datetime_reading(s@) == Some(v) && temporal_wf(v),
            Err(e) => datetime_reading(s@) is None && e.is_unparseable(s@),
        },
{
    let t = trim_str(s);
    let t = t.as_str();
    let u = to_upper(t);
    let u = u.as_str();
    let attempts = vec![
        with_time(read_rfc3339(t)),
        with_time(read_offset_datetime(t, "%Y-%m-%dT%H:%M:%S%:z")),
        with_time(read_naive_datetime(t, "%Y-%m-%dT%H:%M:%S")),
        with_time(read_naive_datetime(t, "%Y-%m-%dT%H:%M:%S%.f")),
        with_time(read_naive_datetime(t, "%Y-%m-%dT%H:%M")),
        with_time(read_naive_datetime(t, "%Y-%m-%d %H:%M:%S")),
        with_time(read_naive_datetime(t, "%Y-%m-%d %H:%M")),
        with_time(read_naive_datetime(u, "%m/%d/%Y %I:%M %p")),
        with_time(read_naive_datetime(u, "%m/%d/%Y %I:%M:%S %p")),
        without_time(read_naive_date(t, "%Y-%m-%d")),
        without_time(read_naive_date(t, "%m/%d/%Y")),
        without_time(read_naive_date(t, "%d/%m/%Y")),
    ];
    assert(attempts@ == datetime_readings(trimmed_of(s@)));
    proof {
        lemma_first_from_wf(attempts@, 0);
    }
    match first_success(&attempts) {
        Some(v) => Ok(v),
        None => Err(EventError::UnparseableTemporal(s.to_string())),
    }
}

/// The date formats of spreadsheet exports, in the order they are tried.
pub open spec fn date_readings(t: Seq<char>) -> Seq<Option<Date>> {
    seq![
        naive_date_of(t, "%Y-%m-%d"@),
        naive_date_of(t, "%m/%d/%Y"@),
        naive_date_of(t, "%d/%m/%Y"@),
        naive_date_of(t, "%Y/%m/%d"@),
        naive_date_of(t, "%m-%d-%Y"@),
    ]
}

/// What `parse_date` reads from `s`.
pub open spec fn date_reading(s: Seq<char>) -> Option<Date> {
    first_some(date_readings(trimmed_of(s)))
}

proof fn lemma_first_date_wf(s: Seq<Option<Date>>, i: int)
    requires
        forall|j: int| 0 <= j < s.len() ==> (#[trigger] s[j] matches Some(d) ==> d.wf()),
    ensures
        first_from(s, i) matches Some(d) ==> d.wf(),
    decreases s.len() - i,
{
    if 0 <= i < s.len() && s[i] is None {
        lemma_first_date_wf(s, i + 1);
    }
}

/// Reads a bare date, trying the formats of `date_readings` in order on the
/// trimmed text.
pub fn parse_date(s: &str) -> (r: Result<Date, EventError>)
    ensures
        match r {
            Ok(d) => date_reading(s@) == Some(d) && d.wf(),
            Err(e) => date_reading(s@) is None && e.is_unparseable(s@),
        },
{
    let t = trim_str(s);
    let t = t.as_str();
    let attempts = vec![
        read_naive_date(t, "%Y-%m-%d"),
        read_naive_date(t, "%m/%d/%Y"),
        read_naive_date(t, "%d/%m/%Y"),
        read_naive_date(t, "%Y/%m/%d"),
        read_naive_date(t, "%m-%d-%Y"),
    ];
    assert(attempts@ == date_readings(trimmed_of(s@)));
    proof {
        lemma_first_date_wf(attempts@, 0);
    }
    match first_success(&attempts) {
        Some(d) => Ok(d),
        None => Err(EventError::UnparseableTemporal(s.to_string())),
    }
}

/// The time formats of spreadsheet exports, 24-hour before 12-hour, in the
/// order they are tried on upper-cased text.
pub open spec fn time_readings(u: Seq<char>) -> Seq<Option<Time>> {
    seq![
        naive_time_of(u, "%H:%M:%S"@),
        naive_time_of(u, "%H:%M"@),
        naive_time_of(u, "%I:%M:%S %p"@),
        naive_time_of(u, "%I:%M %p"@),
        naive_time_of(u, "%I:%M%p"@),
    ]
}

/// What `parse_time` reads from `s`.
pub open spec fn time_reading(s: Seq<char>) -> Option<Time> {
    first_some(time_readings(upper_of(trimmed_of(s))))
}

proof fn lemma_first_time_wf(s: Seq<Option<Time>>, i: int)
    requires
        forall|j: int| 0 <= j < s.len() ==> (#[trigger] s[j] matches Some(t) ==> t.wf()),
    ensures
        first_from(s, i) matches Some(t) ==> t.wf(),
    decreases s.len() - i,
{
    if 0 <= i < s.len() && s[i] is None {
        lemma_first_time_wf(s, i + 1);
    }
}

/// Reads a time of day, trying the formats of `time_readings` in order on the
/// trimmed, upper-cased text.
pub fn parse_time(s: &str) -> (r: Result<Time, EventError>)
    ensures
        match r {
            Ok(t) => time_reading(s@) == Some(t) && t.wf(),
            Err(e) => time_reading(s@) is None && e.is_unparseable(s@),
        },
{
    let t = trim_str(s);
    let u = to_upper(t.as_str());
    let u = u.as_str();
    let attempts = vec![
        read_naive_time(u, "%H:%M:%S"),
        read_naive_time(u, "%H:%M"),
        read_naive_time(u, "%I:%M:%S %p"),
        read_naive_time(u, "%I:%M %p"),
        read_naive_time(u, "%I:%M%p"),
    ];
    assert(attempts@ == time_readings(upper_of(trimmed_of(s@))));
    proof {
        lemma_first_time_wf(attempts@, 0);
    }
    match first_success(&attempts) {
        Some(t) => Ok(t),
        None => Err(EventError::UnparseableTemporal(s.to_string())),
    }
}

} // verus!

verus! {

/// How long an event lasts when a row gives only its start, in minutes.
pub const DEFAULT_EVENT_DURATION_MINUTES: i64 = 150;

/// The time of day `minutes` after `t`, wrapping past midnight; the extra
/// fraction of a leap second is dropped once the clock moves on.
pub open spec fn later_time(t: Time, minutes: int) -> Time {
    time_from_secs((t.secs_of_day() + minutes * 60) % (SECS_PER_DAY as int), (t.nano as int) % (NANOS_PER_SEC as int))
}

/// Relies on `chrono::NaiveTime::overflowing_add_signed`: for a positive
/// duration the seconds wrap modulo one day and a leap second's extra
/// fraction is dropped.
#[verifier::external_body]
fn add_minutes_wrapping(t: Time, minutes: i64) -> (r: Time)
    requires
        t.wf(),
        0 < minutes <= 1440,
    ensures
        r == later_time(t, minutes as int),
{
    let nt = chrono::NaiveTime::from_hms_nano_opt(t.hour, t.minute, t.second, t.nano).unwrap();
    let (x, _) = nt.overflowing_add_signed(chrono::TimeDelta::minutes(minutes));
    Time { hour: x.hour(), minute: x.minute(), second: x.second(), nano: x.nanosecond() }
}

pub open spec fn default_end(start: Option<Time>) -> Option<Time> {
    match start {
        Some(t) => Some(later_time(t, DEFAULT_EVENT_DURATION_MINUTES as int)),
        None => None,
    }
}

proof fn lemma_later_time_wf(t: Time, minutes: int)
    requires
        t.wf(),
    ensures
        later_time(t, minutes).wf(),
        later_time(t, minutes).secs_of_day() == (t.secs_of_day() + minutes * 60) % (
        SECS_PER_DAY as int),
{
    let s = (t.secs_of_day() + minutes * 60) % (SECS_PER_DAY as int);
    assert(0 <= s < 86400);
    assert(s / 3600 < 24) by (nonlinear_arith)
        requires
            0 <= s < 86400,
    ;
    assert((s / 3600) * 3600 + ((s % 3600) / 60) * 60 + s % 60 == s) by (nonlinear_arith)
        requires
            0 <= s,
    ;
}

/// The end time an event gets when only its start time is known: the start
/// plus the default duration, kept as a time of day even past midnight.
pub fn end_after_default(start: Option<Time>) -> (r: Option<Time>)
    requires
        start matches Some(t) ==> t.wf(),
    ensures
        r == default_end(start),
        r matches Some(t) ==> t.wf(),
{
    match start {
        Some(t) => {
            proof {
                lemma_later_time_wf(t, DEFAULT_EVENT_DURATION_MINUTES as int);
            }
            Some(add_minutes_wrapping(t, DEFAULT_EVENT_DURATION_MINUTES))
        },
        None => None,
    }
}

} // verus!
