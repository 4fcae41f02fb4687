use chrono::{Datelike, NaiveDate};
use gcal_tui::app::{Action, App, Key, Msg, DAYS_BACK};
use gcal_tui::cal::CalEvent;
use gcal_tui::goa::Account;

fn day(y: i32, m: u32, d: u32) -> i32 {
    NaiveDate::from_ymd_opt(y, m, d).unwrap().num_days_from_ce()
}

fn acct() -> Account {
    Account { path: "/a".to_string(), identity: "me@example.com".to_string(), provider: "google".to_string() }
}

fn all_day(date: i32, title: &str) -> CalEvent {
    CalEvent { date, start: None, end: None, summary: title.to_string(), location: None }
}

fn press(code: Key) -> Msg {
    Msg::Key { code, press: true }
}

#[test]
fn new_agenda_covers_a_week_around_today() {
    let today = day(2024, 3, 5);
    let app = App::new(acct(), today);
    assert_eq!(app.days, (today - 1..=today + 5).collect::<Vec<_>>());
    assert_eq!(app.selected, DAYS_BACK as usize);
    assert_eq!(app.current_day(), today);
    assert!(app.events().is_empty());
    assert_eq!(app.status, "");
    assert!(!app.fetching);
}

#[test]
fn stepping_stays_within_the_week() {
    let today = day(2024, 3, 5);
    let mut app = App::new(acct(), today);
    app.prev_day();
    assert_eq!(app.current_day(), today - 1);
    app.prev_day();
    assert_eq!(app.selected, 0);
    for _ in 0..10 {
        app.next_day();
    }
    assert_eq!(app.selected, 6);
    assert_eq!(app.current_day(), today + 5);
    app.today();
    assert_eq!(app.current_day(), today);
}

#[test]
fn next_undoes_prev() {
    let today = day(2024, 3, 5);
    let mut app = App::new(acct(), today);
    app.next_day();
    let before = app.selected;
    app.prev_day();
    app.next_day();
    assert_eq!(app.selected, before);
}

#[test]
fn refresh_only_once_at_a_time() {
    let today = day(2024, 3, 5);
    let mut app = App::new(acct(), today);
    assert_eq!(app.refresh(), Some((today - 1, today + 5)));
    assert!(app.fetching);
    assert_eq!(app.status, "Fetching…");
    assert_eq!(app.refresh(), None);
    assert!(app.fetching);
}

#[test]
fn fetched_events_replace_and_are_counted() {
    let today = day(2024, 3, 5);
    let mut app = App::new(acct(), today);
    app.refresh();
    app.apply_fetch(Ok(vec![all_day(today, "a"), all_day(today + 1, "b"), all_day(today, "c")]));
    assert!(!app.fetching);
    assert_eq!(app.status, "3 events");
    let shown: Vec<&str> = app.events_for_day().iter().map(|e| e.summary.as_str()).collect();
    assert_eq!(shown, vec!["a", "c"]);
    app.next_day();
    let shown: Vec<&str> = app.events_for_day().iter().map(|e| e.summary.as_str()).collect();
    assert_eq!(shown, vec!["b"]);
    app.apply_fetch(Ok(Vec::new()));
    assert_eq!(app.status, "0 events");
    assert!(app.events().is_empty());
}

#[test]
fn failed_fetch_keeps_events_and_shows_error() {
    let today = day(2024, 3, 5);
    let mut app = App::new(acct(), today);
    app.apply_fetch(Ok(vec![all_day(today, "a")]));
    app.refresh();
    app.apply_fetch(Err("timed out".to_string()));
    assert_eq!(app.status, "Error: timed out");
    assert!(!app.fetching);
    assert_eq!(app.events().len(), 1);
}

#[test]
fn keys_drive_the_agenda() {
    let today = day(2024, 3, 5);
    let mut app = App::new(acct(), today);
    assert_eq!(app.step(press(Key::Left)), Action::Draw);
    assert_eq!(app.current_day(), today - 1);
    assert_eq!(app.step(press(Key::Char('l'))), Action::Draw);
    assert_eq!(app.step(press(Key::Right)), Action::Draw);
    assert_eq!(app.current_day(), today + 1);
    assert_eq!(app.step(Msg::Key { code: Key::Char('h'), press: false }), Action::Draw);
    assert_eq!(app.current_day(), today + 1);
    assert_eq!(app.step(press(Key::Char('t'))), Action::Draw);
    assert_eq!(app.current_day(), today);
    assert_eq!(app.step(press(Key::Char('r'))), Action::Fetch { from: today - 1, to: today + 5 });
    assert_eq!(app.step(press(Key::Char('r'))), Action::Draw);
    assert_eq!(app.step(press(Key::Char('x'))), Action::Draw);
    assert_eq!(app.step(press(Key::Other)), Action::Draw);
    assert_eq!(app.step(Msg::OtherInput), Action::Draw);
    assert_eq!(app.step(Msg::Fetched(Ok(vec![all_day(today, "a")]))), Action::Draw);
    assert_eq!(app.status, "1 events");
    assert!(!app.fetching);
    assert_eq!(app.step(press(Key::Char('q'))), Action::Quit);
    assert_eq!(app.step(press(Key::Esc)), Action::Quit);
}

#[test]
fn one_fetch_at_a_time_in_a_run() {
    let today = day(2024, 3, 5);
    let mut app = App::new(acct(), today);
    let mut in_flight = 0;
    let mut run = |app: &mut App, msg: Msg, in_flight: &mut i32| {
        let fetched = matches!(msg, Msg::Fetched(_));
        if let Action::Fetch { .. } = app.step(msg) {
            *in_flight += 1;
        }
        if fetched {
            *in_flight -= 1;
        }
        assert!(*in_flight <= 1);
        assert_eq!(app.fetching, *in_flight == 1);
    };
    run(&mut app, press(Key::Char('r')), &mut in_flight);
    run(&mut app, press(Key::Char('r')), &mut in_flight);
    run(&mut app, press(Key::Left), &mut in_flight);
    run(&mut app, Msg::Fetched(Err("x".to_string())), &mut in_flight);
    run(&mut app, press(Key::Char('r')), &mut in_flight);
    run(&mut app, Msg::Fetched(Ok(vec![])), &mut in_flight);
    assert_eq!(in_flight, 0);
}
