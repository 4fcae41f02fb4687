use chrono::{Datelike, NaiveDate};
use gcal_tui::cal::CalEvent;
use gcal_tui::clock::Moment;
use gcal_tui::ui::{
    agenda_row, agenda_table, agenda_title, is_today, placeholder, status_text,
    widest_line, RowTone, Widths,
};

fn day(y: i32, m: u32, d: u32) -> i32 {
    NaiveDate::from_ymd_opt(y, m, d).unwrap().num_days_from_ce()
}

fn at(d: i32, h: u32, m: u32) -> Moment {
    Moment { day: d, secs: h * 3600 + m * 60, frac: 0, offset: 0 }
}

fn ev(date: i32, start: Option<Moment>, end: Option<Moment>, title: &str) -> CalEvent {
    CalEvent { date, start, end, summary: title.to_string(), location: None }
}

#[test]
fn timed_row_shows_start_length_end() {
    let d = day(2024, 3, 5);
    let row = agenda_row(&ev(d, Some(at(d, 9, 5)), Some(at(d, 9, 50)), "Standup"), &at(d, 8, 0));
    assert_eq!(row.cells, vec!["09:05", "45m", "09:50", "Standup"]);
    assert_eq!(row.tone, RowTone::Plain);
    let row = agenda_row(&ev(d, Some(at(d, 9, 0)), Some(at(d, 11, 59)), "Long"), &at(d, 8, 0));
    assert_eq!(row.cells[1], "2h");
    let row = agenda_row(&ev(d, Some(at(d, 10, 0)), Some(at(d, 9, 55)), "Odd"), &at(d, 8, 0));
    assert_eq!(row.cells[1], "-5m");
}

#[test]
fn clock_uses_local_time() {
    let d = day(2024, 3, 5);
    let mut s = at(d, 23, 30);
    s.offset = 3600 + 15 * 60;
    let row = agenda_row(&ev(d + 1, Some(s), None, "x"), &at(d, 8, 0));
    assert_eq!(row.cells, vec!["00:45", "", "", "x"]);
}

#[test]
fn past_rows() {
    let d = day(2024, 3, 5);
    let now = at(d, 12, 0);
    let row = agenda_row(&ev(d, Some(at(d, 9, 0)), Some(at(d, 10, 0)), "m"), &now);
    assert_eq!(row.tone, RowTone::Past);
    let row = agenda_row(&ev(d, Some(at(d, 9, 0)), None, "m"), &now);
    assert_eq!(row.tone, RowTone::Past);
    let row = agenda_row(&ev(d - 1, Some(at(d - 1, 9, 0)), None, "m"), &now);
    assert_eq!(row.tone, RowTone::Plain);
    let row = agenda_row(&ev(d - 1, None, None, "all day"), &now);
    assert_eq!(row.cells, vec!["-", "", "", "all day"]);
    assert_eq!(row.tone, RowTone::Past);
    let row = agenda_row(&ev(d, None, None, "all day"), &now);
    assert_eq!(row.tone, RowTone::Plain);
}

#[test]
fn ongoing_rows_as_written() {
    let d = day(2024, 3, 5);
    let now = at(d, 12, 0);
    // starts after now and ends before it
    let row = agenda_row(&ev(d, Some(at(d, 13, 0)), Some(at(d, 11, 0)), "weird"), &now);
    assert_eq!(row.tone, RowTone::Ongoing);
    // an event under way in the ordinary sense is shown as begun
    let row = agenda_row(&ev(d, Some(at(d, 11, 0)), Some(at(d, 13, 0)), "now"), &now);
    assert_eq!(row.tone, RowTone::Past);
}

#[test]
fn widest_line_of_cells() {
    assert_eq!(widest_line(""), 0);
    assert_eq!(widest_line("abc"), 3);
    assert_eq!(widest_line("ab\r\ncdef\n"), 4);
    assert_eq!(widest_line("a\n\nbcd"), 3);
    assert_eq!(widest_line("日本"), 4);
    assert_eq!(widest_line("日本語"), 6);
}

#[test]
fn widths_grow_to_fit_rows() {
    let mut w = Widths::default();
    w.observe(&vec!["ab".to_string(), "c".to_string()]);
    assert_eq!(w.cols, vec![2, 1]);
    w.observe(&vec!["a".to_string(), "cdef\nx".to_string(), "zz".to_string()]);
    assert_eq!(w.cols, vec![2, 4, 2]);
    w.observe(&vec![]);
    assert_eq!(w.cols, vec![2, 4, 2]);
    assert_eq!(w.constraints(), vec![2, 4, 2]);
    let w = Widths { cols: vec![70_000, 5] };
    assert_eq!(w.constraints(), vec![4464, 5]);
}

#[test]
fn table_rows_and_widths() {
    let d = day(2024, 3, 5);
    let a = ev(d, Some(at(d, 9, 0)), Some(at(d, 9, 30)), "Standup");
    let b = ev(d, None, None, "Holiday in the sun");
    let (rows, lengths) = agenda_table(&vec![&a, &b], &at(d, 8, 0));
    assert_eq!(rows.len(), 2);
    assert_eq!(rows[1].cells[0], "-");
    assert_eq!(lengths, vec![5, 3, 5, 18]);
}

#[test]
fn labels() {
    assert_eq!(placeholder(true), "  Loading…");
    assert_eq!(placeholder(false), "  Nothing scheduled");
    assert_eq!(agenda_title(day(2024, 3, 5)), " Tuesday 5 March 2024 ");
    assert_eq!(agenda_title(day(1999, 12, 31)), " Friday 31 December 1999 ");
    assert_eq!(status_text("me@x", "3 events"), "quit    me@x  3 events");
    let d = day(2024, 3, 5);
    assert!(is_today(d, &at(d, 12, 0)));
    let mut late = at(d, 23, 0);
    late.offset = 2 * 3600;
    assert!(is_today(d + 1, &late));
}
