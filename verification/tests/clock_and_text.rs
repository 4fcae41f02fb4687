use chrono::{DateTime, Datelike, NaiveDate};
use gcal_tui::cal::{ApiEvent, ApiTime, CalEvent};
use gcal_tui::clock::{
    is_before, local_date, local_seconds,
    Moment, MAX_DAY, MIN_DAY, UNIX_EPOCH_DAY,
};
use gcal_tui::ui::agenda_row;
use gcal_tui::text::{push_decimal, push_signed_decimal, push_two_digits, text_less};

fn day(y: i32, m: u32, d: u32) -> i32 {
    NaiveDate::from_ymd_opt(y, m, d).unwrap().num_days_from_ce()
}

fn at(d: i32, secs: u32, frac: u32, offset: i32) -> Moment {
    Moment { day: d, secs, frac, offset }
}

#[test]
fn day_range_matches_chrono() {
    assert_eq!(NaiveDate::MIN.num_days_from_ce(), MIN_DAY);
    assert_eq!(NaiveDate::MAX.num_days_from_ce(), MAX_DAY);
    assert_eq!(day(1970, 1, 1), UNIX_EPOCH_DAY);
}

#[test]
fn local_date_carries_offset_across_midnight() {
    let d = day(2024, 3, 5);
    assert_eq!(local_date(&at(d, 23 * 3600, 0, 2 * 3600)), d + 1);
    assert_eq!(local_seconds(&at(d, 23 * 3600, 0, 2 * 3600)), 3600);
    assert_eq!(local_date(&at(d, 3600, 0, -2 * 3600)), d - 1);
    assert_eq!(local_seconds(&at(d, 3600, 0, -2 * 3600)), 23 * 3600);
    assert_eq!(local_date(&at(d, 3600, 0, 0)), d);
}

#[test]
fn instants_are_ordered_by_utc() {
    let d = day(2024, 3, 5);
    assert!(is_before(&at(d, 10, 0, 7200), &at(d, 11, 0, 0)));
    assert!(!is_before(&at(d, 11, 0, 0), &at(d, 11, 0, 3600)));
    assert!(is_before(&at(d, 11, 5, 0), &at(d, 11, 6, 0)));
    assert!(is_before(&at(d - 1, 86399, 0, 0), &at(d, 0, 0, 0)));
}

fn chrono_delta(a: &str, b: &str) -> chrono::TimeDelta {
    DateTime::parse_from_rfc3339(a).unwrap() - DateTime::parse_from_rfc3339(b).unwrap()
}

fn read(start: Option<&str>, date: Option<&str>) -> Option<CalEvent> {
    CalEvent::from_api(ApiEvent {
        summary: None,
        location: None,
        start: ApiTime { date_time: start.map(|s| s.to_string()), date: date.map(|s| s.to_string()) },
        end: None,
    })
}

fn moment(text: &str) -> Moment {
    read(Some(text), None).unwrap().start.unwrap()
}

fn length_cell(end: Moment, start: Moment) -> String {
    let ev = CalEvent { date: start.day, start: Some(start), end: Some(end), summary: String::new(), location: None };
    agenda_row(&ev, &start).cells[1].clone()
}

fn chrono_length(delta: chrono::TimeDelta) -> String {
    if delta.num_minutes() < 60 {
        format!("{}m", delta.num_minutes())
    } else {
        format!("{}h", delta.num_hours())
    }
}

#[test]
fn spans_agree_with_chrono() {
    let cases = [
        ("2024-03-05T11:00:00Z", "2024-03-05T10:15:00Z"),
        ("2024-03-05T10:15:00Z", "2024-03-05T11:00:00Z"),
        ("2024-03-06T01:00:00.25Z", "2024-03-05T23:59:59.75Z"),
        ("2024-03-05T10:00:00.1Z", "2024-03-05T10:00:01.9Z"),
        ("2017-01-01T00:00:00Z", "2016-12-31T23:59:60Z"),
        ("2016-12-31T23:59:60.5Z", "2016-12-31T23:58:00Z"),
        ("2016-12-31T23:58:00Z", "2016-12-31T23:59:60.5Z"),
        ("2030-01-01T00:00:00Z", "1999-06-15T12:34:56.789Z"),
    ];
    for (a, b) in cases {
        let delta = chrono_delta(a, b);
        assert_eq!(length_cell(moment(a), moment(b)), chrono_length(delta), "{a} - {b}");
    }
}

#[test]
fn exact_span_values() {
    let d = day(2024, 3, 5);
    assert_eq!(length_cell(at(d, 3599, 0, 0), at(d, 0, 0, 0)), "59m");
    assert_eq!(length_cell(at(d, 3600, 0, 0), at(d, 0, 0, 0)), "1h");
    assert_eq!(length_cell(at(d, 0, 0, 0), at(d, 59, 0, 0)), "0m");
    assert_eq!(length_cell(at(d, 0, 0, 0), at(d, 61, 0, 0)), "-1m");
    assert_eq!(length_cell(at(d + 1, 0, 0, 0), at(d, 3600, 0, 0)), "23h");
    assert_eq!(length_cell(at(d, 10, 100, 0), at(d, 9, 900, 0)), "0m");
}

#[test]
fn rfc3339_reads_utc_parts() {
    let m = moment("2024-03-05T01:00:00+02:00");
    assert_eq!((m.day, m.secs, m.frac), (day(2024, 3, 4), 23 * 3600, 0));
    assert!(read(Some("2024-03-05"), None).is_none());
}

#[test]
fn ymd_reads_dates() {
    assert_eq!(read(None, Some("2024-02-29")).unwrap().date, day(2024, 2, 29));
    assert!(read(None, Some("2023-02-29")).is_none());
    assert!(read(None, Some("")).is_none());
}

#[test]
fn decimals_are_printed_as_display_does() {
    for n in [0u64, 7, 10, 99, 100, 12345, u64::MAX] {
        let mut s = String::from("x");
        push_decimal(&mut s, n);
        assert_eq!(s, format!("x{n}"));
    }
    for n in [0i64, -1, 5, -60, 1440, i64::MIN, i64::MAX] {
        let mut s = String::new();
        push_signed_decimal(&mut s, n);
        assert_eq!(s, n.to_string());
    }
    let mut s = String::new();
    push_two_digits(&mut s, 7);
    push_two_digits(&mut s, 42);
    assert_eq!(s, "0742");
}

#[test]
fn text_order_is_string_order() {
    let words = ["", "a", "ab", "b", "B", "é", "z", "/org/gnome/OnlineAccounts/Accounts/account_1", "/org/gnome/OnlineAccounts/Accounts/account_10"];
    for a in words {
        for b in words {
            assert_eq!(text_less(a, b), a < b, "{a:?} < {b:?}");
        }
    }
}
