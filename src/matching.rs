//! Pairing local events with the events already on a remote calendar, and
//! the paged listing that gathers the remote ones.
use vstd::prelude::*;
use crate::date::Date;
use crate::event::{copy_opt, CalendarEvent};
use crate::text::{lower_of, to_lower};

verus! {

/// An event found on the remote calendar.
#[derive(Debug)]
pub struct FoundCalendarEvent {
    pub id: String,
    pub title: String,
    pub date: Date,
    pub location: Option<String>,
}

impl FoundCalendarEvent {
    /// A field-for-field copy.
    pub fn duplicate(&self) -> (r: FoundCalendarEvent)
        ensures
            r == *self,
    {
        FoundCalendarEvent {
            id: self.id.clone(),
            title: self.title.clone(),
            date: self.date,
            location: copy_opt(&self.location),
        }
    }
}

/// The date of a remote event: its all-day date when it has one, else the
/// date of its start instant.
pub fn extract_event_date(all_day: Option<Date>, instant_day: Option<Date>) -> (r: Option<Date>)
    ensures
        r == (match all_day {
            Some(d) => Some(d),
            None => instant_day,
        }),
{
    match all_day {
        Some(d) => Some(d),
        None => instant_day,
    }
}

/// Builds the record of a remote event from what the listing gave for it;
/// `None` for an event without an id or without a start. A missing title
/// reads as empty.
pub fn found_event(
    id: Option<String>,
    summary: Option<String>,
    location: Option<String>,
    all_day: Option<Date>,
    instant_day: Option<Date>,
) -> (r: Option<FoundCalendarEvent>)
    ensures
        r is Some <==> id is Some && (all_day is Some || instant_day is Some),
        r matches Some(f) ==> {
            &&& f.id == id->0
            &&& f.title@ == (match summary {
                Some(s) => s@,
                None => Seq::empty(),
            })
            &&& f.date == (match all_day {
                Some(d) => d,
                None => instant_day->0,
            })
            &&& f.location == location
        },
{
    let date = match extract_event_date(all_day, instant_day) {
        Some(d) => d,
        None => {
            return None;
        },
    };
    let id = match id {
        Some(i) => i,
        None => {
            return None;
        },
    };
    let title = match summary {
        Some(s) => s,
        None => String::new(),
    };
    Some(FoundCalendarEvent { id, title, date, location })
}

/// The pairs of `e` with the remote events among the first `j`, whose key
/// equals `ek` and whose date is `e`'s start date, in remote order.
pub open spec fn row_pairs(
    e: CalendarEvent,
    ek: Seq<char>,
    remote: Seq<FoundCalendarEvent>,
    rk: Seq<Seq<char>>,
    j: int,
) -> Seq<(CalendarEvent, FoundCalendarEvent)>
    decreases j,
{
    if j <= 0 {
        Seq::empty()
    } else {
        let rest = row_pairs(e, ek, remote, rk, j - 1);
        if rk[j - 1] == ek && remote[j - 1].date == e.start_date {
            rest.push((e, remote[j - 1]))
        } else {
            rest
        }
    }
}

/// All pairs of the first `i` local events, local order first, then remote
/// order.
pub open spec fn keyed_pairs(
    local: Seq<CalendarEvent>,
    lk: Seq<Seq<char>>,
    remote: Seq<FoundCalendarEvent>,
    rk: Seq<Seq<char>>,
    i: int,
) -> Seq<(CalendarEvent, FoundCalendarEvent)>
    decreases i,
{
    if i <= 0 {
        Seq::empty()
    } else {
        keyed_pairs(local, lk, remote, rk, i - 1) + row_pairs(
            local[i - 1],
            lk[i - 1],
            remote,
            rk,
            remote.len() as int,
        )
    }
}

pub open spec fn views(v: Seq<String>) -> Seq<Seq<char>> {
    v.map_values(|s: String| s@)
}

/// Pairs every local event with every remote event that has the same key
/// and falls on its start date; `event_keys` and `found_keys` hold one key
/// per event, in order.
pub fn match_by_keys(
    events: &Vec<CalendarEvent>,
    event_keys: &Vec<String>,
    found: &Vec<FoundCalendarEvent>,
    found_keys: &Vec<String>,
) -> (r: Vec<(CalendarEvent, FoundCalendarEvent)>)
    requires
        event_keys@.len() == events@.len(),
        found_keys@.len() == found@.len(),
    ensures
        r@ == keyed_pairs(
            events@,
            views(event_keys@),
            found@,
            views(found_keys@),
            events@.len() as int,
        ),
{
    let ghost lk = views(event_keys@);
    let ghost rk = views(found_keys@);
    let mut r: Vec<(CalendarEvent, FoundCalendarEvent)> = Vec::new();
    let mut i: usize = 0;
    while i < events.len()
        invariant
            i <= events@.len(),
            event_keys@.len() == events@.len(),
            found_keys@.len() == found@.len(),
            lk == views(event_keys@),
            rk == views(found_keys@),
            r@ == keyed_pairs(events@, lk, found@, rk, i as int),
        decreases events@.len() - i,
    {
        let ghost base = r@;
        let mut j: usize = 0;
        while j < found.len()
            invariant
                i < events@.len(),
                j <= found@.len(),
                event_keys@.len() == events@.len(),
                found_keys@.len() == found@.len(),
                lk == views(event_keys@),
                rk == views(found_keys@),
                r@ == base + row_pairs(events@[i as int], lk[i as int], found@, rk, j as int),
            decreases found@.len() - j,
        {
            if found_keys[j] == event_keys[i] && found[j].date == events[i].start_date {
                let pair = (events[i].duplicate(), found[j].duplicate());
                r.push(pair);
            }
            j = j + 1;
        }
        i = i + 1;
    }
    r
}

/// The key a title is matched by: its lower-case form.
pub open spec fn event_keys(local: Seq<CalendarEvent>) -> Seq<Seq<char>> {
    local.map_values(|e: CalendarEvent| lower_of(e.title@))
}

pub open spec fn found_keys(remote: Seq<FoundCalendarEvent>) -> Seq<Seq<char>> {
    remote.map_values(|f: FoundCalendarEvent| lower_of(f.title@))
}

/// Every pair of a local event and a remote event whose titles agree up to
/// case and whose date is the local event's start date.
pub open spec fn matching_pairs(local: Seq<CalendarEvent>, remote: Seq<FoundCalendarEvent>) -> Seq<
    (CalendarEvent, FoundCalendarEvent),
> {
    keyed_pairs(local, event_keys(local), remote, found_keys(remote), local.len() as int)
}

fn lowered_event_titles(events: &Vec<CalendarEvent>) -> (r: Vec<String>)
    ensures
        views(r@) == event_keys(events@),
        r@.len() == events@.len(),
{
    let mut r: Vec<String> = Vec::new();
    let mut i: usize = 0;
    while i < events.len()
        invariant
            i <= events@.len(),
            r@.len() == i,
            forall|j: int| 0 <= j < i ==> #[trigger] r@[j]@ == lower_of(events@[j].title@),
        decreases events@.len() - i,
    {
        r.push(to_lower(events[i].title.as_str()));
        i = i + 1;
    }
    assert(views(r@) =~= event_keys(events@));
    r
}

fn lowered_found_titles(found: &Vec<FoundCalendarEvent>) -> (r: Vec<String>)
    ensures
        views(r@) == found_keys(found@),
        r@.len() == found@.len(),
{
    let mut r: Vec<String> = Vec::new();
    let mut i: usize = 0;
    while i < found.len()
        invariant
            i <= found@.len(),
            r@.len() == i,
            forall|j: int| 0 <= j < i ==> #[trigger] r@[j]@ == lower_of(found@[j].title@),
        decreases found@.len() - i,
    {
        r.push(to_lower(found[i].title.as_str()));
        i = i + 1;
    }
    assert(views(r@) =~= found_keys(found@));
    r
}

/// Pairs each local event with every remote event whose title equals its
/// title up to case and whose date is its start date. A local event may pair
/// with none, one or several remote events; all pairs are returned, in local
/// order and then remote order.
pub fn find_matching_events(events: &Vec<CalendarEvent>, found: &Vec<FoundCalendarEvent>) -> (r:
    Vec<(CalendarEvent, FoundCalendarEvent)>)
    ensures
        r@ == matching_pairs(events@, found@),
{
    let ek = lowered_event_titles(events);
    let fk = lowered_found_titles(found);
    match_by_keys(events, &ek, found, &fk)
}

/// The dates to list remote events over: from the earliest start date of
/// the events, up to the day after the latest one (excluded).
pub fn fetch_window(events: &Vec<CalendarEvent>) -> (r: Option<(Date, Date)>)
    requires
        forall|i: int| 0 <= i < events@.len() ==> (#[trigger] events@[i]).start_date.wf(),
    ensures
        r is None <==> events@.len() == 0,
        r matches Some(w) ==> {
            &&& exists|i: int| 0 <= i < events@.len() && #[trigger] events@[i].start_date == w.0
            &&& forall|i: int|
                0 <= i < events@.len() ==> w.0.le(#[trigger] events@[i].start_date)
            &&& exists|i: int|
                0 <= i < events@.len() && {
                    let hi = #[trigger] events@[i].start_date;
                    &&& forall|j: int|
                        0 <= j < events@.len() ==> (#[trigger] events@[j].start_date).le(hi)
                    &&& w.1 == (if hi.is_last() { hi } else { hi.next_day() })
                }
        },
{
    if events.len() == 0 {
        return None;
    }
    let mut lo = events[0].start_date;
    let mut hi = events[0].start_date;
    let ghost mut li: int = 0;
    let ghost mut hi_i: int = 0;
    let mut i: usize = 1;
    while i < events.len()
        invariant
            1 <= i <= events@.len(),
            forall|k: int| 0 <= k < events@.len() ==> (#[trigger] events@[k]).start_date.wf(),
            0 <= li < events@.len(),
            0 <= hi_i < events@.len(),
            events@[li].start_date == lo,
            events@[hi_i].start_date == hi,
            forall|k: int| 0 <= k < i ==> lo.le(#[trigger] events@[k].start_date),
            forall|k: int| 0 <= k < i ==> (#[trigger] events@[k].start_date).le(hi),
        decreases events@.len() - i,
    {
        let d = events[i].start_date;
        proof {
            crate::date::lemma_date_order(lo, d, hi);
            crate::date::lemma_date_order(d, hi, lo);
        }
        if !lo.on_or_before(&d) {
            lo = d;
            proof {
                li = i as int;
                assert forall|k: int| 0 <= k < i + 1 implies d.le(#[trigger] events@[k].start_date) by {
                    if k < i {
                        crate::date::lemma_date_order(d, lo, events@[k].start_date);
                        crate::date::lemma_date_order(d, events@[li].start_date, events@[k].start_date);
                    }
                }
            }
        }
        if !d.on_or_before(&hi) {
            hi = d;
            proof {
                hi_i = i as int;
                assert forall|k: int| 0 <= k < i + 1 implies (#[trigger] events@[k].start_date).le(d) by {
                    crate::date::lemma_date_order(events@[k].start_date, d, d);
                    if k < i {
                        crate::date::lemma_date_order(events@[k].start_date, events@[hi_i].start_date, d);
                    }
                }
            }
        }
        i = i + 1;
    }
    Some((lo, hi.succ()))
}

/// What the paged listing has gathered: the events so far, the number of
/// pages taken in, the token of the page to ask for next, and whether the
/// listing is complete.
pub struct FetchState {
    pub found: Seq<FoundCalendarEvent>,
    pub pages: nat,
    pub token: Option<Seq<char>>,
    pub done: bool,
}

/// Before the first page: nothing gathered, the first page still to ask for.
pub open spec fn fetch_start() -> FetchState {
    FetchState { found: Seq::empty(), pages: 0, token: None, done: false }
}

/// Taking in one page: its items are appended, and the listing is complete
/// exactly when the page names no next page.
pub open spec fn fetch_step(
    s: FetchState,
    items: Seq<FoundCalendarEvent>,
    next: Option<Seq<char>>,
) -> FetchState {
    if s.done {
        s
    } else {
        FetchState { found: s.found + items, pages: s.pages + 1, token: next, done: next is None }
    }
}

/// The request to make in state `s`: the page token to send (none for the
/// first page), or nothing once the listing is complete.
pub open spec fn fetch_request(s: FetchState) -> Option<Option<Seq<char>>> {
    if s.done {
        None
    } else {
        Some(s.token)
    }
}

/// What to do next while listing remote events.
pub enum FetchAction {
    /// Ask for a page, sending this page token when there is one.
    Request(Option<String>),
    /// The listing is complete.
    Finished,
}

/// The paged listing of remote events. It stops exactly when a page comes
/// without a next-page token.
pub struct RemoteFetch {
    pub found: Vec<FoundCalendarEvent>,
    pub pages: usize,
    pub token: Option<String>,
    pub done: bool,
}

impl RemoteFetch {
    pub open spec fn view(&self) -> FetchState {
        FetchState {
            found: self.found@,
            pages: self.pages as nat,
            token: crate::coda::opt_view(self.token),
            done: self.done,
        }
    }

    pub fn new() -> (r: RemoteFetch)
        ensures
            r.view() == fetch_start(),
    {
        let r = RemoteFetch { found: Vec::new(), pages: 0, token: None, done: false };
        assert(r.view().found =~= fetch_start().found);
        r
    }

    /// The next request to make.
    pub fn next_action(&self) -> (r: FetchAction)
        ensures
            match (r, fetch_request(self.view())) {
                (FetchAction::Request(t), Some(want)) => crate::coda::opt_view(t) == want,
                (FetchAction::Finished, None) => true,
                _ => false,
            },
    {
        if self.done {
            FetchAction::Finished
        } else {
            FetchAction::Request(copy_opt(&self.token))
        }
    }

    /// Takes in one page of the listing and the token it names for the next
    /// page; a page that arrives after completion is ignored.
    pub fn receive_page(&mut self, items: Vec<FoundCalendarEvent>, next_page_token: Option<String>)
        requires
            old(self).pages < usize::MAX,
        ensures
            final(self).view() == fetch_step(
                old(self).view(),
                items@,
                crate::coda::opt_view(next_page_token),
            ),
    {
        if self.done {
            return;
        }
        let mut items = items;
        self.found.append(&mut items);
        self.pages = self.pages + 1;
        self.done = next_page_token.is_none();
        self.token = next_page_token;
    }
}

/// A listing whose first page names no next page is complete after exactly
/// that page, holding that page's items, with no request left to make.
pub proof fn lemma_first_page_without_token_ends(items: Seq<FoundCalendarEvent>)
    ensures
        ({
            let s = fetch_step(fetch_start(), items, None);
            &&& s.done
            &&& s.pages == 1
            &&& s.found == items
            &&& fetch_request(s) is None
        }),
{
    assert(Seq::<FoundCalendarEvent>::empty() + items =~= items);
}

/// Once complete, a listing asks for nothing more and changes no further.
pub proof fn lemma_complete_listing_is_final(
    s: FetchState,
    items: Seq<FoundCalendarEvent>,
    next: Option<Seq<char>>,
)
    requires
        s.done,
    ensures
        fetch_request(s) is None,
        fetch_step(s, items, next) == s,
{
}

} // verus!
