use calendar_sync::date::{Date, Time};
use calendar_sync::event::CalendarEvent;
use calendar_sync::matching::{
    extract_event_date, fetch_window, find_matching_events, found_event, match_by_keys, FetchAction,
    FoundCalendarEvent, RemoteFetch,
};
use calendar_sync::project::{convert_to_google_event, latest_instant, reference_zone, resolve_local, WireTime};

fn d(y: i32, m: u32, day: u32) -> Date {
    Date::new(y, m, day).unwrap()
}

fn t(h: u32, m: u32) -> Time {
    Time::from_hms(h, m, 0).unwrap()
}

fn event(title: &str, date: Date, time: Option<Time>) -> CalendarEvent {
    CalendarEvent {
        title: title.to_string(),
        description: Some("desc".to_string()),
        location: None,
        organization: None,
        purchased: false,
        start_date: date,
        start_time: time,
        end_date: date,
        end_time: time,
    }
}

fn found(id: &str, title: &str, date: Date) -> FoundCalendarEvent {
    FoundCalendarEvent { id: id.to_string(), title: title.to_string(), date, location: None }
}

#[test]
fn all_day_end_is_exclusive_across_month() {
    let mut e = event("Fair", d(2024, 1, 30), None);
    e.end_date = d(2024, 1, 31);
    let w = convert_to_google_event(&e).unwrap();
    assert_eq!(w.summary, "Fair");
    assert_eq!(w.description.as_deref(), Some("desc"));
    match (&w.start, &w.end) {
        (WireTime::Day(s), WireTime::Day(end)) => {
            assert_eq!(*s, d(2024, 1, 30));
            assert_eq!(*end, d(2024, 2, 1));
            assert_eq!(end.pred(), d(2024, 1, 31));
        }
        other => panic!("unexpected {:?}", other),
    }
}

#[test]
fn date_steps_roll_over() {
    assert_eq!(d(2024, 12, 31).succ(), d(2025, 1, 1));
    assert_eq!(d(2024, 2, 28).succ(), d(2024, 2, 29));
    assert_eq!(d(2023, 2, 28).succ(), d(2023, 3, 1));
    assert_eq!(d(2025, 1, 1).pred(), d(2024, 12, 31));
    assert_eq!(d(2024, 3, 1).pred(), d(2024, 2, 29));
    assert!(Date::new(2023, 2, 29).is_none());
    assert!(Date::new(2024, 13, 1).is_none());
}

#[test]
fn fall_back_overlap_takes_later_instant() {
    // 01:30 happens twice in Los Angeles on 2024-11-03: 08:30 and 09:30 UTC
    assert_eq!(resolve_local(d(2024, 11, 3), t(1, 30)), Some(1730626200));
}

#[test]
fn spring_forward_gap_moves_forward() {
    // 02:30 does not exist on 2024-03-10; it becomes 03:30 PDT, 10:30 UTC
    assert_eq!(resolve_local(d(2024, 3, 10), t(2, 30)), Some(1710066600));
}

#[test]
fn timed_event_projects_to_instants() {
    let mut e = event("Talk", d(2024, 1, 15), Some(t(9, 0)));
    e.end_time = Some(t(10, 30));
    let w = convert_to_google_event(&e).unwrap();
    match (&w.start, &w.end) {
        (
            WireTime::Instant { utc_seconds: a, nano: 0, zone: z1 },
            WireTime::Instant { utc_seconds: b, nano: 0, zone: z2 },
        ) => {
            assert_eq!(*a, 1705338000);
            assert_eq!(*b, 1705338000 + 5400);
            assert_eq!(z1, "America/Los_Angeles");
            assert_eq!(z2, "America/Los_Angeles");
        }
        other => panic!("unexpected {:?}", other),
    }
    assert_eq!(reference_zone(), "America/Los_Angeles");
}

#[test]
fn latest_instant_picks_maximum() {
    assert_eq!(latest_instant(&vec![5, 9, 2]), Some(9));
    assert_eq!(latest_instant(&vec![]), None);
}

#[test]
fn duplicates_on_remote_all_match() {
    let local = vec![event("Gala", d(2024, 3, 1), None)];
    let remote = vec![
        found("r1", "gala", d(2024, 3, 1)),
        found("r2", "GALA", d(2024, 3, 2)),
        found("r3", "gala", d(2024, 3, 1)),
        found("r4", "other", d(2024, 3, 1)),
    ];
    let pairs = find_matching_events(&local, &remote);
    assert_eq!(pairs.len(), 2);
    assert_eq!(pairs[0].1.id, "r1");
    assert_eq!(pairs[1].1.id, "r3");
    assert_eq!(pairs[0].0.title, "Gala");
}

#[test]
fn matching_empty_sets() {
    let local = vec![event("Gala", d(2024, 3, 1), None)];
    assert!(find_matching_events(&local, &vec![]).is_empty());
    assert!(find_matching_events(&vec![], &vec![found("r", "Gala", d(2024, 3, 1))]).is_empty());
}

#[test]
fn match_by_given_keys() {
    let local = vec![event("A", d(2024, 3, 1), None)];
    let remote = vec![found("r1", "B", d(2024, 3, 1))];
    let pairs = match_by_keys(&local, &vec!["k".to_string()], &remote, &vec!["k".to_string()]);
    assert_eq!(pairs.len(), 1);
    let pairs = match_by_keys(&local, &vec!["k".to_string()], &remote, &vec!["j".to_string()]);
    assert!(pairs.is_empty());
}

#[test]
fn remote_records() {
    assert_eq!(extract_event_date(Some(d(2024, 1, 1)), Some(d(2024, 1, 2))), Some(d(2024, 1, 1)));
    assert_eq!(extract_event_date(None, Some(d(2024, 1, 2))), Some(d(2024, 1, 2)));
    assert_eq!(extract_event_date(None, None), None);
    let f = found_event(Some("id".to_string()), None, None, None, Some(d(2024, 1, 2))).unwrap();
    assert_eq!(f.title, "");
    assert_eq!(f.date, d(2024, 1, 2));
    assert!(found_event(None, Some("x".to_string()), None, Some(d(2024, 1, 1)), None).is_none());
    assert!(found_event(Some("id".to_string()), None, None, None, None).is_none());
}

#[test]
fn window_spans_local_dates() {
    let local = vec![
        event("a", d(2024, 3, 5), None),
        event("b", d(2024, 2, 29), None),
        event("c", d(2024, 3, 31), None),
    ];
    assert_eq!(fetch_window(&local), Some((d(2024, 2, 29), d(2024, 4, 1))));
    assert_eq!(fetch_window(&vec![]), None);
}

#[test]
fn single_page_without_token_ends() {
    let mut fetch = RemoteFetch::new();
    assert!(matches!(fetch.next_action(), FetchAction::Request(None)));
    fetch.receive_page(vec![found("r1", "x", d(2024, 1, 1))], None);
    assert!(matches!(fetch.next_action(), FetchAction::Finished));
    assert_eq!(fetch.pages, 1);
    assert_eq!(fetch.found.len(), 1);
}

#[test]
fn pages_follow_tokens() {
    let mut fetch = RemoteFetch::new();
    fetch.receive_page(vec![found("r1", "x", d(2024, 1, 1))], Some("p2".to_string()));
    match fetch.next_action() {
        FetchAction::Request(Some(tok)) => assert_eq!(tok, "p2"),
        _ => panic!("expected a request for the second page"),
    }
    fetch.receive_page(vec![found("r2", "y", d(2024, 1, 2))], None);
    assert!(matches!(fetch.next_action(), FetchAction::Finished));
    fetch.receive_page(vec![found("r3", "z", d(2024, 1, 3))], None);
    assert_eq!(fetch.pages, 2);
    assert_eq!(fetch.found.len(), 2);
}
