use chrono::{DateTime, Datelike, Local, NaiveDate};
use gcal_tui::cal::{
    collect_events, events_from_items, fetch_window, query_window, sort_by_start, window_from,
    ApiEvent, ApiTime,
    CalEvent, WindowError,
};
use gcal_tui::clock::{local_date, local_seconds, Moment};

fn day(y: i32, m: u32, d: u32) -> i32 {
    NaiveDate::from_ymd_opt(y, m, d).unwrap().num_days_from_ce()
}

fn timed(start: &str, end: Option<&str>, summary: Option<&str>) -> ApiEvent {
    ApiEvent {
        summary: summary.map(|s| s.to_string()),
        location: None,
        start: ApiTime { date_time: Some(start.to_string()), date: None },
        end: end.map(|e| ApiTime { date_time: Some(e.to_string()), date: None }),
    }
}

fn all_day(date: &str, summary: Option<&str>) -> ApiEvent {
    ApiEvent {
        summary: summary.map(|s| s.to_string()),
        location: Some("Room 1".to_string()),
        start: ApiTime { date_time: None, date: Some(date.to_string()) },
        end: None,
    }
}

fn local_day_of(text: &str) -> i32 {
    DateTime::parse_from_rfc3339(text).unwrap().with_timezone(&Local).date_naive().num_days_from_ce()
}

#[test]
fn all_day_event_reads_its_date() {
    let ev = CalEvent::from_api(all_day("2024-03-05", None)).unwrap();
    assert_eq!(ev.date, day(2024, 3, 5));
    assert!(ev.start.is_none());
    assert!(ev.end.is_none());
    assert_eq!(ev.summary, "(no title)");
    assert_eq!(ev.location.as_deref(), Some("Room 1"));
}

#[test]
fn all_day_event_with_bad_date_is_dropped() {
    assert!(CalEvent::from_api(all_day("2024-13-05", Some("x"))).is_none());
    assert!(CalEvent::from_api(all_day("tomorrow", Some("x"))).is_none());
}

#[test]
fn event_without_start_is_dropped() {
    let ev = ApiEvent {
        summary: Some("x".to_string()),
        location: None,
        start: ApiTime { date_time: None, date: None },
        end: None,
    };
    assert!(CalEvent::from_api(ev).is_none());
}

#[test]
fn timed_event_reads_utc_instant_and_local_date() {
    let text = "2024-03-05T10:30:15.5+02:00";
    let ev = CalEvent::from_api(timed(text, Some("2024-03-05T11:00:00Z"), Some("Standup"))).unwrap();
    let s = ev.start.unwrap();
    assert_eq!(s.day, day(2024, 3, 5));
    assert_eq!(s.secs, 8 * 3600 + 30 * 60 + 15);
    assert_eq!(s.frac, 500_000_000);
    assert_eq!(ev.date, local_day_of(text));
    assert_eq!(ev.date, local_date(&s));
    let e = ev.end.unwrap();
    assert_eq!((e.day, e.secs, e.frac), (day(2024, 3, 5), 11 * 3600, 0));
    assert_eq!(ev.summary, "Standup");
    // the offset is the machine's for that instant
    let expected = DateTime::parse_from_rfc3339(text).unwrap().with_timezone(&Local);
    assert_eq!(s.offset, expected.offset().local_minus_utc());
    assert_eq!(local_seconds(&s), (expected.naive_local().and_utc().timestamp().rem_euclid(86400)) as u32);
}

#[test]
fn timed_event_with_bad_start_is_dropped_even_with_date() {
    let mut ev = timed("2024-03-05 10:30", None, Some("x"));
    ev.start.date = Some("2024-03-05".to_string());
    assert!(CalEvent::from_api(ev).is_none());
}

#[test]
fn timed_event_with_bad_end_keeps_no_end() {
    let ev = CalEvent::from_api(timed("2024-03-05T10:30:00Z", Some("soon"), None)).unwrap();
    assert!(ev.start.is_some());
    assert!(ev.end.is_none());
    assert_eq!(ev.summary, "(no title)");
}

#[test]
fn leap_second_is_read() {
    let ev = CalEvent::from_api(timed("2016-12-31T23:59:60Z", None, None)).unwrap();
    let s = ev.start.unwrap();
    assert_eq!(s.secs, 86399);
    assert_eq!(s.frac, 1_000_000_000);
}

fn entry(date: i32, start: Option<(i32, u32)>, title: &str) -> CalEvent {
    CalEvent {
        date,
        start: start.map(|(d, s)| Moment { day: d, secs: s, frac: 0, offset: 0 }),
        end: None,
        summary: title.to_string(),
        location: None,
    }
}

fn titles(v: &[CalEvent]) -> Vec<String> {
    v.iter().map(|e| e.summary.clone()).collect()
}

#[test]
fn agenda_order_is_by_date_then_start_and_stable() {
    let d = day(2024, 3, 5);
    let v = vec![
        entry(d + 1, Some((d + 1, 100)), "late"),
        entry(d, Some((d, 500)), "b"),
        entry(d, None, "allday1"),
        entry(d, Some((d, 100)), "a"),
        entry(d, None, "allday2"),
        entry(d, Some((d, 500)), "b2"),
        entry(d - 1, None, "yesterday"),
    ];
    let sorted = sort_by_start(v);
    assert_eq!(titles(&sorted), vec!["yesterday", "allday1", "allday2", "a", "b", "b2", "late"]);
}

#[test]
fn agenda_order_compares_instants_not_local_clocks() {
    let d = day(2024, 3, 5);
    let mut first = entry(d, Some((d, 3600)), "first");
    let mut second = entry(d, Some((d, 7200)), "second");
    // later local clock, earlier instant
    first.start.as_mut().unwrap().offset = 10 * 3600;
    second.start.as_mut().unwrap().offset = -3600;
    let sorted = sort_by_start(vec![second, first]);
    assert_eq!(titles(&sorted), vec!["first", "second"]);
}

#[test]
fn sorting_nothing_gives_nothing() {
    assert!(sort_by_start(Vec::new()).is_empty());
}

#[test]
fn reply_becomes_sorted_agenda_without_unreadable_events() {
    let items = vec![
        all_day("2024-03-06", Some("wed")),
        timed("not a time", None, Some("broken")),
        all_day("2024-03-05", Some("tue")),
        ApiEvent {
            summary: Some("nothing".to_string()),
            location: None,
            start: ApiTime { date_time: None, date: None },
            end: None,
        },
    ];
    let collected = collect_events(items.clone());
    assert_eq!(titles(&collected), vec!["wed", "tue"]);
    let agenda = events_from_items(items);
    assert_eq!(titles(&agenda), vec!["tue", "wed"]);
    assert_eq!(agenda[0].date, day(2024, 3, 5));
}

#[test]
fn window_runs_from_local_midnight_to_midnight_after_last_day() {
    let from = day(2024, 3, 4);
    let to = day(2024, 3, 10);
    match fetch_window(from, to) {
        Ok((a, b)) => {
            assert_eq!(local_date(&a), from);
            assert_eq!(local_seconds(&a), 0);
            assert_eq!(local_date(&b), to + 1);
            assert_eq!(local_seconds(&b), 0);
        }
        Err(e) => panic!("{}", e.message()),
    }
}

#[test]
fn window_errors_have_their_messages() {
    assert_eq!(WindowError::AmbiguousStart.message(), "ambiguous local start time");
    assert_eq!(WindowError::AmbiguousEnd.message(), "ambiguous local end time");
}

#[test]
fn window_from_local_midnights() {
    let a = Moment { day: day(2024, 3, 4), secs: 0, frac: 0, offset: 0 };
    let b = Moment { day: day(2024, 3, 11), secs: 0, frac: 0, offset: 0 };
    assert_eq!(window_from(None, Some(b)), Err(WindowError::AmbiguousStart));
    assert_eq!(window_from(None, None), Err(WindowError::AmbiguousStart));
    assert_eq!(window_from(Some(a), None), Err(WindowError::AmbiguousEnd));
    assert_eq!(window_from(Some(a), Some(b)), Ok((a, b)));
}

#[test]
fn query_window_writes_local_midnights() {
    let from = day(2024, 3, 4);
    let to = day(2024, 3, 10);
    let (a, b) = query_window(from, to).ok().unwrap();
    let a = DateTime::parse_from_rfc3339(&a).unwrap();
    let b = DateTime::parse_from_rfc3339(&b).unwrap();
    assert_eq!(a.naive_local(), NaiveDate::from_ymd_opt(2024, 3, 4).unwrap().and_hms_opt(0, 0, 0).unwrap());
    assert_eq!(b.naive_local(), NaiveDate::from_ymd_opt(2024, 3, 11).unwrap().and_hms_opt(0, 0, 0).unwrap());
    assert_eq!(a.with_timezone(&Local).naive_local(), a.naive_local());
}
