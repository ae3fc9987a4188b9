//! Projecting events onto the calendar service's wire shape: whole days for
//! all-day events, instants read in the reference zone for timed ones.
use vstd::prelude::*;
use vstd::string::StringExecFns;
use crate::date::{time_from_secs, time_of_secs, Date, Time, NANOS_PER_SEC, SECS_PER_DAY};
use crate::event::{copy_opt, CalendarEvent};

verus! {

/// The UTC instants, in seconds since the epoch, at which the clocks of
/// `America/Los_Angeles` read the date `d` at time `t`: none inside a
/// spring-forward gap, two inside a fall-back overlap.
pub uninterp spec fn pacific_instants(d: Date, t: Time) -> Seq<int>;

/// Relies on chrono-tz's `America/Los_Angeles` through
/// `chrono::TimeZone::from_local_datetime`: the single instant, both
/// instants of an ambiguous reading, or none for a time that does not exist.
#[verifier::external_body]
fn pacific_candidates(d: Date, t: Time) -> (r: Vec<i64>)
    requires
        d.wf(),
        t.wf(),
    ensures
        r@.map_values(|x: i64| x as int) == pacific_instants(d, t),
        r@.len() <= 2,
{
    let nd = chrono::NaiveDate::from_ymd_opt(d.year, d.month, d.day).unwrap();
    let nt = chrono::NaiveTime::from_hms_nano_opt(t.hour, t.minute, t.second, t.nano).unwrap();
    let zone = chrono_tz::America::Los_Angeles;
    match chrono::TimeZone::from_local_datetime(&zone, &nd.and_time(nt)) {
        chrono::LocalResult::Single(x) => vec![x.timestamp()],
        chrono::LocalResult::Ambiguous(a, b) => vec![a.timestamp(), b.timestamp()],
        chrono::LocalResult::None => vec![],
    }
}

/// `x` is the latest of the instants `c`.
pub open spec fn latest_of(c: Seq<int>, x: int) -> bool {
    c.contains(x) && forall|y: int| c.contains(y) ==> y <= x
}

/// The latest of the given instants, if any.
pub fn latest_instant(c: &Vec<i64>) -> (r: Option<i64>)
    ensures
        r is None <==> c@.len() == 0,
        r matches Some(x) ==> latest_of(c@.map_values(|v: i64| v as int), x as int),
{
    let ghost cv = c@.map_values(|v: i64| v as int);
    if c.len() == 0 {
        return None;
    }
    let mut best = c[0];
    let mut bi: usize = 0;
    let mut i: usize = 1;
    while i < c.len()
        invariant
            1 <= i <= c@.len(),
            bi < c@.len(),
            c@[bi as int] == best,
            cv == c@.map_values(|v: i64| v as int),
            forall|j: int| 0 <= j < i ==> c@[j] <= best,
        decreases c@.len() - i,
    {
        if c[i] > best {
            best = c[i];
            bi = i;
        }
        i = i + 1;
    }
    proof {
        assert(cv[bi as int] == best as int);
        assert forall|y: int| cv.contains(y) implies y <= best by {
            let j = choose|j: int| 0 <= j < cv.len() && cv[j] == y;
        }
    }
    Some(best)
}

/// Whether the wall-clock time one hour after `t` on `d` can be written.
pub open spec fn has_hour_later(d: Date, t: Time) -> bool {
    t.secs_of_day() + 3600 < SECS_PER_DAY || !d.is_last()
}

/// The wall-clock reading one hour after `t` on `d`.
pub open spec fn hour_later(d: Date, t: Time) -> (Date, Time) {
    let s = t.secs_of_day() + 3600;
    let n = (t.nano as int) % (NANOS_PER_SEC as int);
    if s < SECS_PER_DAY {
        (d, time_from_secs(s, n))
    } else {
        (d.next_day(), time_from_secs(s - SECS_PER_DAY, n))
    }
}

/// How a wall-clock time in the reference zone becomes an instant: the
/// later instant when the time occurs twice, and, for a time skipped by a
/// spring-forward gap, the instant of the clock reading one hour later,
/// which moves the time forward across the gap.
pub open spec fn resolves_to(d: Date, t: Time, r: Option<int>) -> bool {
    let c = pacific_instants(d, t);
    if c.len() > 0 {
        r matches Some(x) && latest_of(c, x)
    } else if has_hour_later(d, t) {
        let (d2, t2) = hour_later(d, t);
        let c2 = pacific_instants(d2, t2);
        if c2.len() > 0 {
            r matches Some(x) && latest_of(c2, x)
        } else {
            r is None
        }
    } else {
        r is None
    }
}

/// Reads a wall-clock date and time in the reference zone as a UTC instant,
/// in seconds since the epoch.
pub fn resolve_local(d: Date, t: Time) -> (r: Option<i64>)
    requires
        d.wf(),
        t.wf(),
    ensures
        resolves_to(d, t, match r {
            Some(x) => Some(x as int),
            None => None,
        }),
{
    let c = pacific_candidates(d, t);
    if c.len() > 0 {
        return latest_instant(&c);
    }
    let s = t.secs();
    let n = t.nano % NANOS_PER_SEC;
    let (d2, t2) = if s + 3600 < SECS_PER_DAY {
        (d, time_of_secs(s + 3600, n))
    } else if d.year == crate::date::MAX_YEAR && d.month == 12 && d.day == 31 {
        return None;
    } else {
        (d.succ(), time_of_secs(s + 3600 - SECS_PER_DAY, n))
    };
    let c2 = pacific_candidates(d2, t2);
    latest_instant(&c2)
}

/// When a wall-clock time occurs twice, the instant it resolves to is the
/// later of the two.
pub proof fn lemma_overlap_takes_later(d: Date, t: Time, x: int)
    requires
        pacific_instants(d, t).len() == 2,
        resolves_to(d, t, Some(x)),
    ensures
        x == pacific_instants(d, t)[0] || x == pacific_instants(d, t)[1],
        x >= pacific_instants(d, t)[0],
        x >= pacific_instants(d, t)[1],
{
    let c = pacific_instants(d, t);
    assert(c.contains(c[0]));
    assert(c.contains(c[1]));
}

/// One end of an event as the calendar service takes it.
#[derive(Debug)]
pub enum WireTime {
    /// A whole day.
    Day(Date),
    /// An instant, in seconds since the epoch and nanoseconds, with the name
    /// of the zone it is shown in.
    Instant { utc_seconds: i64, nano: u32, zone: String },
}

/// An event as the calendar service takes it.
#[derive(Debug)]
pub struct WireEvent {
    pub summary: String,
    pub description: Option<String>,
    pub location: Option<String>,
    pub start: WireTime,
    pub end: WireTime,
}

/// The name of the zone timed events are read in.
pub fn reference_zone() -> (r: String)
    ensures
        r@ == "America/Los_Angeles"@,
{
    String::from_str("America/Los_Angeles")
}

/// The end date sent for an all-day event: the day after its last day,
/// since the service reads the end as excluded.
pub open spec fn exclusive_end(e: CalendarEvent) -> Date {
    if e.end_date.is_last() {
        e.end_date
    } else {
        e.end_date.next_day()
    }
}

/// The instant a wire time stands for, in seconds since the epoch.
pub open spec fn utc_of(w: WireTime) -> int {
    match w {
        WireTime::Instant { utc_seconds, .. } => utc_seconds as int,
        WireTime::Day(_) => 0,
    }
}

/// The wire instant for a resolved wall-clock reading.
pub open spec fn wire_instant(w: WireTime, x: int, nano: u32) -> bool {
    w matches WireTime::Instant { utc_seconds, nano: n, zone } && utc_seconds == x && n == nano
        && zone@ == "America/Los_Angeles"@
}

/// Projects an event onto the service's wire shape. An all-day event becomes
/// its start date and the day after its end date; a timed event becomes the
/// instants its start and end (midnight and 23:59:59 where a time is
/// missing) resolve to in the reference zone. `None` only when a wall-clock
/// reading resolves to no instant.
pub fn convert_to_google_event(event: &CalendarEvent) -> (r: Option<WireEvent>)
    requires
        event.wf(),
    ensures
        r matches Some(w) ==> w.summary == event.title && w.description == event.description
            && w.location == event.location,
        event.spec_all_day() ==> (r matches Some(w) && w.start == WireTime::Day(event.start_date)
            && w.end == WireTime::Day(exclusive_end(*event))),
        !event.spec_all_day() ==> ({
            let st = event.start_time->0;
            let et = event.end_time->0;
            match r {
                Some(w) => resolves_to(event.start_date, st, Some(utc_of(w.start))) && resolves_to(
                    event.end_date,
                    et,
                    Some(utc_of(w.end)),
                ) && wire_instant(w.start, utc_of(w.start), st.nano) && wire_instant(
                    w.end,
                    utc_of(w.end),
                    et.nano,
                ),
                None => resolves_to(event.start_date, st, None) || resolves_to(
                    event.end_date,
                    et,
                    None,
                ),
            }
        }),
{
    let summary = event.title.clone();
    let description = copy_opt(&event.description);
    let location = copy_opt(&event.location);
    if event.is_all_day() {
        return Some(
            WireEvent {
                summary,
                description,
                location,
                start: WireTime::Day(event.start_date),
                end: WireTime::Day(event.end_date.succ()),
            },
        );
    }
    let (sd, st) = event.start_datetime();
    let (ed, et) = event.end_datetime();
    let a = resolve_local(sd, st);
    let b = resolve_local(ed, et);
    match (a, b) {
        (Some(a), Some(b)) => Some(
            WireEvent {
                summary,
                description,
                location,
                start: WireTime::Instant { utc_seconds: a, nano: st.nano, zone: reference_zone() },
                end: WireTime::Instant { utc_seconds: b, nano: et.nano, zone: reference_zone() },
            },
        ),
        _ => None,
    }
}

/// For an all-day event, stepping the wire end date back one day gives the
/// event's end date again.
pub proof fn lemma_all_day_end_round_trip(e: CalendarEvent)
    requires
        e.wf(),
        e.spec_all_day(),
        !e.end_date.is_last(),
    ensures
        exclusive_end(e).prev_day() == e.end_date,
{
    crate::date::lemma_prev_of_next(e.end_date);
}

} // verus!
