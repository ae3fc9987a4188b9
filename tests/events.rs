use calendar_sync::coda::{build_description, get_string_value, parse_coda_row, CellValue};
use calendar_sync::csv_rows::{parse_record, CsvRecord};
use calendar_sync::date::{Date, Time};
use calendar_sync::event::{CalendarEvent, EventError};
use calendar_sync::filter::{event_before_eq, filter_events};
use calendar_sync::stats::tally;
use calendar_sync::text::{strip_matches, truncate};

fn d(y: i32, m: u32, day: u32) -> Date {
    Date::new(y, m, day).unwrap()
}

fn t(h: u32, m: u32) -> Time {
    Time::from_hms(h, m, 0).unwrap()
}

fn event(title: &str, date: Date, time: Option<Time>, purchased: bool) -> CalendarEvent {
    CalendarEvent {
        title: title.to_string(),
        description: None,
        location: None,
        organization: None,
        purchased,
        start_date: date,
        start_time: time,
        end_date: date,
        end_time: time,
    }
}

fn cell(k: &str, v: CellValue) -> (String, CellValue) {
    (k.to_string(), v)
}

fn text(s: &str) -> CellValue {
    CellValue::Text(s.to_string())
}

fn record(title: &str, start_date: &str) -> CsvRecord {
    CsvRecord {
        title: title.to_string(),
        description: None,
        location: None,
        start_date: start_date.to_string(),
        start_time: None,
        end_date: None,
        end_time: None,
    }
}

#[test]
fn all_day_iff_no_times() {
    let mut e = event("a", d(2024, 1, 1), None, false);
    assert!(e.is_all_day());
    e.start_time = Some(t(9, 0));
    assert!(!e.is_all_day());
    e.end_time = Some(t(10, 0));
    assert!(!e.is_all_day());
    e.start_time = None;
    assert!(!e.is_all_day());
}

#[test]
fn start_and_end_defaults() {
    let e = event("a", d(2024, 1, 1), None, false);
    assert_eq!(e.start_datetime(), (d(2024, 1, 1), t(0, 0)));
    assert_eq!(e.end_datetime(), (d(2024, 1, 1), Time::from_hms(23, 59, 59).unwrap()));
    let e = event("b", d(2024, 1, 2), Some(t(9, 15)), false);
    assert_eq!(e.start_datetime(), (d(2024, 1, 2), t(9, 15)));
    assert_eq!(e.end_datetime(), (d(2024, 1, 2), t(9, 15)));
}

#[test]
fn filter_keeps_inclusive_window() {
    let events = vec![
        event("jan1", d(2024, 1, 1), None, false),
        event("jan15", d(2024, 1, 15), None, false),
        event("feb1", d(2024, 2, 1), None, false),
    ];
    let kept = filter_events(events, Some(d(2024, 1, 10)), Some(d(2024, 1, 31)), false);
    assert_eq!(kept.len(), 1);
    assert_eq!(kept[0].title, "jan15");
}

#[test]
fn filter_bounds_are_inclusive() {
    let events = vec![
        event("a", d(2024, 1, 10), None, false),
        event("b", d(2024, 1, 31), None, false),
    ];
    let kept = filter_events(events, Some(d(2024, 1, 10)), Some(d(2024, 1, 31)), false);
    assert_eq!(kept.len(), 2);
}

#[test]
fn filter_purchased_only() {
    let events = vec![
        event("a", d(2024, 1, 10), None, true),
        event("b", d(2024, 1, 11), None, false),
    ];
    let kept = filter_events(events, None, None, true);
    assert_eq!(kept.len(), 1);
    assert_eq!(kept[0].title, "a");
    assert!(filter_events(vec![], None, None, true).is_empty());
}

#[test]
fn all_day_sorts_before_timed() {
    let events = vec![
        event("timed", d(2024, 3, 1), Some(t(9, 0)), false),
        event("allday", d(2024, 3, 1), None, false),
        event("earlier", d(2024, 2, 28), Some(t(20, 0)), false),
    ];
    let sorted = filter_events(events, None, None, false);
    let titles: Vec<&str> = sorted.iter().map(|e| e.title.as_str()).collect();
    assert_eq!(titles, vec!["earlier", "allday", "timed"]);
}

#[test]
fn sort_is_stable_for_equal_slots() {
    let events = vec![
        event("second", d(2024, 3, 1), Some(t(9, 0)), false),
        event("first", d(2024, 2, 1), None, false),
        event("third", d(2024, 3, 1), Some(t(9, 0)), false),
        event("fourth", d(2024, 3, 1), Some(t(9, 0)), false),
    ];
    let sorted = filter_events(events, None, None, false);
    let titles: Vec<&str> = sorted.iter().map(|e| e.title.as_str()).collect();
    assert_eq!(titles, vec!["first", "second", "third", "fourth"]);
}

#[test]
fn event_order_compares_dates_then_times() {
    let a = event("a", d(2024, 3, 1), None, false);
    let b = event("b", d(2024, 3, 1), Some(t(0, 0)), false);
    let c = event("c", d(2023, 12, 31), Some(t(23, 0)), false);
    assert!(event_before_eq(&a, &b));
    assert!(!event_before_eq(&b, &a));
    assert!(event_before_eq(&c, &a));
    assert!(event_before_eq(&a, &a));
}

#[test]
fn coda_row_full() {
    let row = vec![
        cell("Display", text("Gala Night")),
        cell("performanceDate", text("2024-07-17T19:30:00.000-07:00")),
        cell("Organization", text("Symphony")),
        cell("Purchased", text("YES")),
        cell("venue", text("Hall")),
        cell("kenticoUrl", text("https://example.org/gala")),
        cell("works", text("Mahler 5")),
    ];
    let e = parse_coda_row(&row).unwrap();
    assert_eq!(e.title, "Gala Night");
    assert_eq!(e.start_date, d(2024, 7, 17));
    assert_eq!(e.end_date, d(2024, 7, 17));
    assert_eq!(e.start_time, Some(t(19, 30)));
    assert_eq!(e.end_time, Some(t(22, 0)));
    assert_eq!(e.organization.as_deref(), Some("Symphony"));
    assert!(e.purchased);
    assert_eq!(e.location.as_deref(), Some("Hall"));
    assert_eq!(e.description.as_deref(), Some("https://example.org/gala\nMahler 5"));
}

#[test]
fn coda_row_date_only_is_all_day() {
    let row = vec![
        cell("Display", text("Open House")),
        cell("performanceDate", text("2024-02-15")),
        cell("Purchased", CellValue::Other("true".to_string())),
    ];
    let e = parse_coda_row(&row).unwrap();
    assert!(e.is_all_day());
    assert!(e.purchased);
    assert_eq!(e.description, None);
    assert_eq!(e.organization, None);
}

#[test]
fn coda_row_late_start_wraps_end() {
    let row = vec![
        cell("Display", text("Late")),
        cell("performanceDate", text("2024-02-15T23:00:00")),
    ];
    let e = parse_coda_row(&row).unwrap();
    assert_eq!(e.end_date, d(2024, 2, 15));
    assert_eq!(e.end_time, Some(t(1, 30)));
}

#[test]
fn coda_row_errors() {
    let row = vec![cell("performanceDate", text("2024-02-15"))];
    assert!(matches!(parse_coda_row(&row), Err(EventError::MissingField(f)) if f == "Display"));
    let row = vec![cell("Display", text("   ")), cell("performanceDate", text("2024-02-15"))];
    assert!(matches!(parse_coda_row(&row), Err(EventError::MissingField(f)) if f == "Display"));
    let row = vec![cell("Display", text("X")), cell("performanceDate", CellValue::Null)];
    assert!(matches!(parse_coda_row(&row), Err(EventError::MissingField(f)) if f == "performanceDate"));
    let row = vec![cell("Display", text("X")), cell("performanceDate", text("soon"))];
    assert!(matches!(parse_coda_row(&row),
        Err(EventError::InvalidTemporal(f, v)) if f == "performanceDate" && v == "soon"));
}

#[test]
fn cell_text_reading() {
    let row = vec![
        cell("n", CellValue::Other("42".to_string())),
        cell("q", CellValue::Other("\"quoted\"".to_string())),
        cell("e", text("")),
        cell("z", CellValue::Null),
        cell("n", text("shadowed")),
    ];
    assert_eq!(get_string_value(&row, "n").as_deref(), Some("42"));
    assert_eq!(get_string_value(&row, "q").as_deref(), Some("quoted"));
    assert_eq!(get_string_value(&row, "e"), None);
    assert_eq!(get_string_value(&row, "z"), None);
    assert_eq!(get_string_value(&row, "missing"), None);
}

#[test]
fn description_joins_present_parts() {
    let row = vec![cell("artists", text("A")), cell("works", text("W"))];
    assert_eq!(build_description(&row).as_deref(), Some("A\nW"));
    let row = vec![cell("kenticoUrl", text("U"))];
    assert_eq!(build_description(&row).as_deref(), Some("U"));
    assert_eq!(build_description(&vec![]), None);
}

#[test]
fn csv_record_all_day() {
    let mut r = record("Concert", "2024-01-15");
    r.description = Some(String::new());
    r.location = Some("Hall".to_string());
    let e = parse_record(r).unwrap();
    assert_eq!(e.start_date, d(2024, 1, 15));
    assert_eq!(e.end_date, d(2024, 1, 15));
    assert!(e.is_all_day());
    assert_eq!(e.description, None);
    assert_eq!(e.location.as_deref(), Some("Hall"));
    assert!(!e.purchased);
}

#[test]
fn csv_record_timed() {
    let mut r = record("Concert", "01/15/2024");
    r.end_date = Some("2024-01-16".to_string());
    r.start_time = Some("7:30 PM".to_string());
    r.end_time = Some("22:15".to_string());
    let e = parse_record(r).unwrap();
    assert_eq!(e.end_date, d(2024, 1, 16));
    assert_eq!(e.start_time, Some(t(19, 30)));
    assert_eq!(e.end_time, Some(t(22, 15)));
}

#[test]
fn csv_record_start_time_only_gets_default_end() {
    let mut r = record("Concert", "2024-01-15");
    r.start_time = Some("18:00".to_string());
    let e = parse_record(r).unwrap();
    assert_eq!(e.end_time, Some(t(20, 30)));
}

#[test]
fn csv_record_errors() {
    assert!(matches!(parse_record(record("  ", "2024-01-15")),
        Err(EventError::MissingField(f)) if f == "title"));
    assert!(matches!(parse_record(record("A", "")),
        Err(EventError::MissingField(f)) if f == "start_date"));
    assert!(matches!(parse_record(record("A", "someday")),
        Err(EventError::InvalidTemporal(f, v)) if f == "start_date" && v == "someday"));
    let mut r = record("A", "2024-01-15");
    r.end_date = Some("later".to_string());
    assert!(matches!(parse_record(r), Err(EventError::InvalidTemporal(f, _)) if f == "end_date"));
    let mut r = record("A", "2024-01-15");
    r.start_time = Some("noonish".to_string());
    assert!(matches!(parse_record(r), Err(EventError::InvalidTemporal(f, _)) if f == "start_time"));
    let mut r = record("A", "2024-01-15");
    r.end_time = Some("9:00".to_string());
    assert!(matches!(parse_record(r), Err(EventError::MissingField(f)) if f == "start_time"));
}

#[test]
fn truncate_texts() {
    assert_eq!(truncate("short", 10), "short");
    assert_eq!(truncate("exactly10!", 10), "exactly10!");
    assert_eq!(truncate("a longer title here", 10), "a longe...");
    assert_eq!(truncate("héllo wörld", 8), "héllo...");
    assert_eq!(truncate("abcdef", 2), "...");
}

#[test]
fn strip_quotes() {
    assert_eq!(strip_matches("\"\"x\"y\"", '"'), "x\"y");
    assert_eq!(strip_matches("\"\"\"", '"'), "");
    assert_eq!(strip_matches("plain", '"'), "plain");
    assert_eq!(strip_matches("", '"'), "");
}

#[test]
fn tally_counts_per_key() {
    let keys: Vec<String> = ["Hall", "Club", "Hall", "Hall"].iter().map(|s| s.to_string()).collect();
    let purchased = vec![true, true, false, true];
    let counts = tally(&keys, &purchased);
    assert_eq!(counts.len(), 2);
    let hall = counts.iter().find(|c| c.key == "Hall").unwrap();
    assert_eq!((hall.total, hall.purchased), (3, 2));
    let club = counts.iter().find(|c| c.key == "Club").unwrap();
    assert_eq!((club.total, club.purchased), (1, 1));
    assert!(tally(&vec![], &vec![]).is_empty());
}
