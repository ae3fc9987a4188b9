//! Choosing events by date range and purchase, and putting them in order.
use vstd::prelude::*;
use crate::date::{Date, Time};
use crate::event::CalendarEvent;

verus! {

broadcast use vstd::seq_lib::group_seq_properties;

impl Time {
    /// Time-of-day order: by hour, minute, second, then fraction.
    pub open spec fn le(self, o: Time) -> bool {
        self.hour < o.hour || (self.hour == o.hour && (self.minute < o.minute || (self.minute
            == o.minute && (self.second < o.second || (self.second == o.second && self.nano
            <= o.nano)))))
    }
}

/// Optional times ordered with an absent time before every present one.
pub open spec fn time_opt_le(a: Option<Time>, b: Option<Time>) -> bool {
    match (a, b) {
        (None, _) => true,
        (Some(_), None) => false,
        (Some(x), Some(y)) => x.le(y),
    }
}

/// Event order: by start date, then start time with all-day events first.
pub open spec fn event_le(a: CalendarEvent, b: CalendarEvent) -> bool {
    if a.start_date == b.start_date {
        time_opt_le(a.start_time, b.start_time)
    } else {
        a.start_date.le(b.start_date)
    }
}

/// The place of an event in the order; events with the same slot keep their
/// relative order.
pub open spec fn slot(e: CalendarEvent) -> (Date, Option<Time>) {
    (e.start_date, e.start_time)
}

pub open spec fn in_slot(k: (Date, Option<Time>)) -> spec_fn(CalendarEvent) -> bool {
    |e: CalendarEvent| slot(e) == k
}

pub open spec fn sorted(s: Seq<CalendarEvent>) -> bool {
    forall|i: int, j: int| 0 <= i < j < s.len() ==> event_le(#[trigger] s[i], #[trigger] s[j])
}

/// Whether the event passes the date bounds (both inclusive, on the start
/// date) and, when asked, the purchase flag.
pub open spec fn keeps(
    e: CalendarEvent,
    start_date: Option<Date>,
    end_date: Option<Date>,
    purchased_only: bool,
) -> bool {
    &&& (start_date matches Some(sd) ==> sd.le(e.start_date))
    &&& (end_date matches Some(ed) ==> e.start_date.le(ed))
    &&& (purchased_only ==> e.purchased)
}

pub open spec fn keeps_fn(start_date: Option<Date>, end_date: Option<Date>, purchased_only: bool) -> spec_fn(
    CalendarEvent,
) -> bool {
    |e: CalendarEvent| keeps(e, start_date, end_date, purchased_only)
}

proof fn lemma_event_order(a: CalendarEvent, b: CalendarEvent, c: CalendarEvent)
    ensures
        event_le(a, b) || event_le(b, a),
        event_le(a, b) && event_le(b, a) ==> slot(a) == slot(b),
        event_le(a, b) && event_le(b, c) ==> event_le(a, c),
        slot(a) == slot(b) ==> event_le(a, b),
{
    crate::date::lemma_date_order(a.start_date, b.start_date, c.start_date);
}

/// In an ordered sequence, an all-day event stands before every timed event
/// that starts on the same date.
pub proof fn lemma_all_day_before_timed(s: Seq<CalendarEvent>, i: int, j: int)
    requires
        sorted(s),
        0 <= i < s.len(),
        0 <= j < s.len(),
        s[i].start_date == s[j].start_date,
        s[i].start_time is None,
        s[j].start_time is Some,
    ensures
        i < j,
{
    if j < i {
        assert(event_le(s[j], s[i]));
    }
}

/// Whether `a` comes no later than `b` in event order.
pub fn event_before_eq(a: &CalendarEvent, b: &CalendarEvent) -> (r: bool)
    ensures
        r == event_le(*a, *b),
{
    if a.start_date == b.start_date {
        match (a.start_time, b.start_time) {
            (None, _) => true,
            (Some(_), None) => false,
            (Some(x), Some(y)) => x.hour < y.hour || (x.hour == y.hour && (x.minute < y.minute || (
            x.minute == y.minute && (x.second < y.second || (x.second == y.second && x.nano
                <= y.nano))))),
        }
    } else {
        a.start_date.on_or_before(&b.start_date)
    }
}

/// Inserts `x` after every event that does not come later than it.
fn insert_sorted(r: &mut Vec<CalendarEvent>, x: CalendarEvent)
    requires
        sorted(old(r)@),
    ensures
        sorted(final(r)@),
        forall|k: (Date, Option<Time>)| #[trigger]
            final(r)@.filter(in_slot(k)) == old(r)@.filter(in_slot(k)) + (if slot(x) == k {
                seq![x]
            } else {
                Seq::empty()
            }),
{
    let mut p: usize = 0;
    while p < r.len() && event_before_eq(&r[p], &x)
        invariant
            p <= r@.len(),
            forall|j: int| 0 <= j < p ==> event_le(#[trigger] r@[j], x),
        decreases r@.len() - p,
    {
        p = p + 1;
    }
    let ghost before = r@;
    proof {
        assert forall|j: int| p <= j < before.len() implies !event_le(#[trigger] before[j], x) by {
            lemma_event_order(before[p as int], before[j], x);
        }
    }
    r.insert(p, x);
    proof {
        let a = before.subrange(0, p as int);
        let b = before.subrange(p as int, before.len() as int);
        assert(before == a + b);
        assert(r@ == a + seq![x] + b);
        assert forall|i: int, j: int| 0 <= i < j < r@.len() implies event_le(
            #[trigger] r@[i],
            #[trigger] r@[j],
        ) by {
            lemma_event_order(r@[i], r@[j], x);
            lemma_event_order(x, r@[j], r@[i]);
        }
        assert forall|k: (Date, Option<Time>)| #[trigger]
            r@.filter(in_slot(k)) == before.filter(in_slot(k)) + (if slot(x) == k {
                seq![x]
            } else {
                Seq::empty()
            }) by {
            let f = in_slot(k);
            Seq::filter_distributes_over_add(a, b, f);
            Seq::filter_distributes_over_add(a + seq![x], b, f);
            Seq::filter_distributes_over_add(a, seq![x], f);
            reveal_with_fuel(Seq::filter, 2);
            assert(seq![x].drop_last() == Seq::<CalendarEvent>::empty());
            if slot(x) == k {
                assert forall|j: int| 0 <= j < b.len() implies !f(#[trigger] b[j]) by {
                    lemma_event_order(b[j], x, x);
                }
                b.lemma_all_neg_filter_empty(f);
                assert(b.filter(f) == Seq::<CalendarEvent>::empty());
            } else {
                assert(seq![x].filter(f) == Seq::<CalendarEvent>::empty());
            }
        }
    }
}

/// Keeps the events whose start date lies within the bounds (both inclusive)
/// and, when `purchased_only` is set, that are purchased; then orders them by
/// start date and start time, all-day events first on each date, events in
/// the same slot keeping their relative order.
pub fn filter_events(
    events: Vec<CalendarEvent>,
    start_date: Option<Date>,
    end_date: Option<Date>,
    purchased_only: bool,
) -> (r: Vec<CalendarEvent>)
    ensures
        sorted(r@),
        forall|k: (Date, Option<Time>)| #[trigger]
            r@.filter(in_slot(k)) == events@.filter(
                keeps_fn(start_date, end_date, purchased_only),
            ).filter(in_slot(k)),
{
    let ghost s = events@;
    let ghost f = keeps_fn(start_date, end_date, purchased_only);
    let mut rest = events;
    let mut r: Vec<CalendarEvent> = Vec::new();
    let ghost mut i: int = 0;
    while rest.len() > 0
        invariant
            0 <= i <= s.len(),
            f == keeps_fn(start_date, end_date, purchased_only),
            rest@ == s.subrange(i, s.len() as int),
            rest@.len() == s.len() - i,
            sorted(r@),
            forall|k: (Date, Option<Time>)| #[trigger]
                r@.filter(in_slot(k)) == s.subrange(0, i).filter(f).filter(in_slot(k)),
        decreases rest@.len(),
    {
        let e = rest.remove(0);
        let ghost r0 = r@;
        let ghost pre = s.subrange(0, i);
        let ghost e0 = e;
        proof {
            assert(s.subrange(0, i + 1).drop_last() == pre);
            assert(s.subrange(0, i + 1).last() == e0);
            reveal_with_fuel(Seq::filter, 1);
        }
        let in_start = match start_date {
            Some(sd) => sd.on_or_before(&e.start_date),
            None => true,
        };
        let in_end = match end_date {
            Some(ed) => e.start_date.on_or_before(&ed),
            None => true,
        };
        let take = in_start && in_end && (!purchased_only || e.purchased);
        assert(f(e0) == keeps(e0, start_date, end_date, purchased_only));
        assert(take == f(e0));
        if take {
            insert_sorted(&mut r, e);
            proof {
                assert(s.subrange(0, i + 1).filter(f) == pre.filter(f).push(e0));
                assert forall|k: (Date, Option<Time>)| #[trigger]
                    r@.filter(in_slot(k)) == s.subrange(0, i + 1).filter(f).filter(in_slot(k)) by {
                    reveal_with_fuel(Seq::filter, 1);
                    let g = in_slot(k);
                    assert(pre.filter(f).push(e0).drop_last() == pre.filter(f));
                    if slot(e0) == k {
                        assert(r0.filter(g) + seq![e0] == r0.filter(g).push(e0));
                    } else {
                        assert(r0.filter(g) + Seq::<CalendarEvent>::empty() == r0.filter(g));
                    }
                }
            }
        } else {
            proof {
                assert(s.subrange(0, i + 1).filter(f) == pre.filter(f));
            }
        }
        proof {
            i = i + 1;
        }
    }
    proof {
        assert(s.subrange(0, s.len() as int) == s);
    }
    r
}

} // verus!
