use calendar_sync::date::{Date, Time};
use calendar_sync::event::EventError;
use calendar_sync::temporal::{end_after_default, first_success, parse_coda_datetime, parse_date, parse_time};

fn d(y: i32, m: u32, day: u32) -> Date {
    Date::new(y, m, day).unwrap()
}

fn t(h: u32, m: u32, s: u32) -> Time {
    Time::from_hms(h, m, s).unwrap()
}

#[test]
fn test_parse_date_formats() {
    assert!(parse_date("2024-01-15").is_ok());
    assert!(parse_date("01/15/2024").is_ok());
    assert!(parse_date("2024/01/15").is_ok());
}

#[test]
fn test_parse_time_formats() {
    assert!(parse_time("14:30").is_ok());
    assert!(parse_time("14:30:00").is_ok());
    assert!(parse_time("2:30 PM").is_ok());
}

#[test]
fn parse_date_values_and_order() {
    assert_eq!(parse_date("2024-01-15").unwrap(), d(2024, 1, 15));
    assert_eq!(parse_date("  01/15/2024 ").unwrap(), d(2024, 1, 15));
    assert_eq!(parse_date("2024/01/15").unwrap(), d(2024, 1, 15));
    assert_eq!(parse_date("01-15-2024").unwrap(), d(2024, 1, 15));
    // month-first wins where both orders read
    assert_eq!(parse_date("02/03/2024").unwrap(), d(2024, 2, 3));
    // day-first only where month-first fails
    assert_eq!(parse_date("15/01/2024").unwrap(), d(2024, 1, 15));
}

#[test]
fn parse_date_rejects_text() {
    match parse_date("next tuesday") {
        Err(EventError::UnparseableTemporal(raw)) => assert_eq!(raw, "next tuesday"),
        other => panic!("unexpected {:?}", other),
    }
    assert!(parse_date("2024-02-30").is_err());
}

#[test]
fn parse_time_values() {
    assert_eq!(parse_time("14:30").unwrap(), t(14, 30, 0));
    assert_eq!(parse_time("14:30:15").unwrap(), t(14, 30, 15));
    assert_eq!(parse_time("2:30 pm").unwrap(), t(14, 30, 0));
    assert_eq!(parse_time("12:05 AM").unwrap(), t(0, 5, 0));
    assert_eq!(parse_time("7:45PM").unwrap(), t(19, 45, 0));
    assert!(parse_time("25:00").is_err());
}

#[test]
fn coda_offset_instant_keeps_local_clock() {
    let (date, time) = parse_coda_datetime("2024-07-17T19:30:00.000-07:00").unwrap();
    assert_eq!(date, d(2024, 7, 17));
    assert_eq!(time, Some(t(19, 30, 0)));
    let (date, time) = parse_coda_datetime("2024-07-17T23:30:00+02:00").unwrap();
    assert_eq!(date, d(2024, 7, 17));
    assert_eq!(time, Some(t(23, 30, 0)));
}

#[test]
fn coda_naive_datetimes() {
    assert_eq!(parse_coda_datetime("2024-02-15T19:30:00").unwrap(), (d(2024, 2, 15), Some(t(19, 30, 0))));
    let (_, time) = parse_coda_datetime("2024-02-15T19:30:00.250").unwrap();
    assert_eq!(time, Some(Time { hour: 19, minute: 30, second: 0, nano: 250_000_000 }));
    assert_eq!(parse_coda_datetime("2024-02-15T19:30").unwrap(), (d(2024, 2, 15), Some(t(19, 30, 0))));
    assert_eq!(parse_coda_datetime("2024-02-15 19:30:05").unwrap(), (d(2024, 2, 15), Some(t(19, 30, 5))));
    assert_eq!(parse_coda_datetime(" 2024-02-15 08:05 ").unwrap(), (d(2024, 2, 15), Some(t(8, 5, 0))));
}

#[test]
fn coda_twelve_hour_clock() {
    assert_eq!(parse_coda_datetime("2/15/2024 7:30 PM").unwrap(), (d(2024, 2, 15), Some(t(19, 30, 0))));
    assert_eq!(parse_coda_datetime("2/15/2024 7:30 pm").unwrap(), (d(2024, 2, 15), Some(t(19, 30, 0))));
    assert_eq!(parse_coda_datetime("2/15/2024 7:30:10 am").unwrap(), (d(2024, 2, 15), Some(t(7, 30, 10))));
}

#[test]
fn coda_date_only() {
    assert_eq!(parse_coda_datetime("2024-02-15").unwrap(), (d(2024, 2, 15), None));
    assert_eq!(parse_coda_datetime("02/03/2024").unwrap(), (d(2024, 2, 3), None));
    assert_eq!(parse_coda_datetime("25/12/2024").unwrap(), (d(2024, 12, 25), None));
}

#[test]
fn coda_unparseable() {
    match parse_coda_datetime("sometime soon") {
        Err(EventError::UnparseableTemporal(raw)) => assert_eq!(raw, "sometime soon"),
        other => panic!("unexpected {:?}", other),
    }
    assert!(parse_coda_datetime("").is_err());
}

#[test]
fn first_success_takes_first_present() {
    assert_eq!(first_success(&vec![None, Some(3), Some(4)]), Some(3));
    assert_eq!(first_success::<u8>(&vec![None, None]), None);
    assert_eq!(first_success::<u8>(&vec![]), None);
}

#[test]
fn default_end_adds_duration() {
    assert_eq!(end_after_default(Some(t(19, 30, 0))), Some(t(22, 0, 0)));
    // past midnight the time wraps and the date is left alone
    assert_eq!(end_after_default(Some(t(23, 0, 0))), Some(t(1, 30, 0)));
    assert_eq!(end_after_default(None), None);
}
