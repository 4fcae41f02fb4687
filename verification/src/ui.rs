//! What the agenda shows: the rows of the table, their colours, the column widths, the
//! title and the status line.
use crate::cal::CalEvent;
use crate::clock::{
    before_is_instant_order, instant_key, local_day_is_carried_date, local_day_of,
    date_text, day_in_range, format_date, hours_between, is_before, local_date, local_seconds,
    minutes_between, span_hours, span_minutes, Moment, TITLE_FORMAT,
};
use crate::text::{
    chars_of, owned, push_signed_decimal, push_two_digits, signed_decimal, two_digits,
};
use unicode_width::UnicodeWidthStr;
use vstd::prelude::*;

verus! {

/// The display width of `text` in terminal columns, as unicode-width's
/// `UnicodeWidthStr::width` measures it.
pub uninterp spec fn text_width(text: Seq<char>) -> nat;

/// Calls unicode-width's `UnicodeWidthStr::width`; the contract names the result
/// (`text_width`).
#[verifier::external_body]
pub(crate) fn display_width(text: &str) -> (r: usize)
    ensures
        r == text_width(text@),
{
    UnicodeWidthStr::width(text)
}

// ---------------------------------------------------------------------------------------
// Lines of a cell
// ---------------------------------------------------------------------------------------

/// The line `s[i..k]` that a `\n` at `k` ends, without the `\r` of a `\r\n`.
pub open spec fn line_text(s: Seq<char>, i: int, k: int) -> Seq<char> {
    if k > i && s[k - 1] == '\r' {
        s.subrange(i, k - 1)
    } else {
        s.subrange(i, k)
    }
}

/// The lines of `s` from the line that starts at `start`, read on from position `j`
/// (`start <= j`, no `\n` in between), as `str::lines` splits them: at each `\n`, with a
/// `\r` before it dropped; a last line that no `\n` ends is kept whole; no empty line
/// after a final `\n`.
pub open spec fn lines_scan(s: Seq<char>, start: int, j: int) -> Seq<Seq<char>>
    decreases s.len() - j,
{
    if j >= s.len() {
        if start < s.len() {
            seq![s.subrange(start, s.len() as int)]
        } else {
            Seq::empty()
        }
    } else if s[j] == '\n' {
        seq![line_text(s, start, j)] + lines_scan(s, j + 1, j + 1)
    } else {
        lines_scan(s, start, j + 1)
    }
}

/// The lines of `s`.
pub open spec fn lines_of(s: Seq<char>) -> Seq<Seq<char>> {
    lines_scan(s, 0, 0)
}

/// The greatest display width among `lines`; zero where there are none.
pub open spec fn max_width(lines: Seq<Seq<char>>) -> nat
    decreases lines.len(),
{
    if lines.len() == 0 {
        0
    } else {
        let w = text_width(lines[0]);
        let rest = max_width(lines.drop_first());
        if w >= rest {
            w
        } else {
            rest
        }
    }
}

/// The width a cell needs: that of its widest line.
pub open spec fn cell_width(text: Seq<char>) -> nat {
    max_width(lines_of(text))
}

proof fn lemma_max_width_front(line: Seq<char>, rest: Seq<Seq<char>>)
    ensures
        max_width(seq![line] + rest) == if text_width(line) >= max_width(rest) {
            text_width(line)
        } else {
            max_width(rest)
        },
{
    assert((seq![line] + rest).drop_first() =~= rest);
}

/// The width that the widest line of `text` needs.
pub fn widest_line(text: &str) -> (r: usize)
    ensures
        r == cell_width(text@),
{
    let cs = chars_of(text);
    let ghost s = text@;
    let n = cs.len();
    let mut best: usize = 0;
    let mut start: usize = 0;
    let mut i: usize = 0;
    while i < n
        invariant
            cs@ == s,
            s == text@,
            n == s.len(),
            start <= i <= n,
            cell_width(s) == if best >= max_width(lines_scan(s, start as int, i as int)) {
                best as nat
            } else {
                max_width(lines_scan(s, start as int, i as int))
            },
        decreases n - i,
    {
        if cs[i] == '\n' {
            let mut end: usize = i;
            if end > start && cs[end - 1] == '\r' {
                end = end - 1;
            }
            let w = display_width(text.substring_char(start, end));
            proof {
                assert(s.subrange(start as int, end as int) == line_text(s, start as int, i as int));
                lemma_max_width_front(
                    line_text(s, start as int, i as int),
                    lines_scan(s, i + 1, i + 1),
                );
            }
            if w > best {
                best = w;
            }
            start = i + 1;
        }
        i = i + 1;
    }
    if start < n {
        let w = display_width(text.substring_char(start, n));
        proof {
            lemma_max_width_front(s.subrange(start as int, n as int), Seq::<Seq<char>>::empty());
            assert(seq![s.subrange(start as int, n as int)] + Seq::<Seq<char>>::empty()
                =~= seq![s.subrange(start as int, n as int)]);
        }
        if w > best {
            best = w;
        }
    }
    best
}

// ---------------------------------------------------------------------------------------
// Column widths
// ---------------------------------------------------------------------------------------

/// The widths of the table's columns, grown as rows are seen.
pub struct Widths {
    pub cols: Vec<usize>,
}

/// Column widths as numbers.
pub open spec fn widths_of(cols: Seq<usize>) -> Seq<int> {
    cols.map_values(|c: usize| c as int)
}

/// The widths after seeing a row of `cells`: as many columns as the longer of the two, each
/// column of the row as wide as the wider of what it was and what its cell needs, the others
/// as they were.
pub open spec fn widen(cols: Seq<int>, cells: Seq<Seq<char>>) -> Seq<int> {
    Seq::new(
        if cols.len() >= cells.len() { cols.len() } else { cells.len() },
        |i: int|
            if i < cells.len() {
                let before: int = if i < cols.len() { cols[i] } else { 0 };
                let need = cell_width(cells[i]) as int;
                if before >= need {
                    before
                } else {
                    need
                }
            } else {
                cols[i]
            },
    )
}

/// The widths that fit all of `rows`, seen one after the other from no columns.
pub open spec fn fit_widths(rows: Seq<Seq<Seq<char>>>) -> Seq<int>
    decreases rows.len(),
{
    if rows.len() == 0 {
        Seq::empty()
    } else {
        widen(fit_widths(rows.drop_last()), rows.last())
    }
}

/// Law: after a row is seen, every column is at least as wide as it was and at least as wide
/// as the row's cell in it needs.
pub proof fn widen_fits(cols: Seq<int>, cells: Seq<Seq<char>>)
    ensures
        widen(cols, cells).len() >= cols.len(),
        widen(cols, cells).len() >= cells.len(),
        forall|i: int| 0 <= i < cols.len() ==> #[trigger] widen(cols, cells)[i] >= cols[i],
        forall|i: int| 0 <= i < cells.len() ==> widen(cols, cells)[i] >= cell_width(#[trigger] cells[i]),
{
}

impl Default for Widths {
    fn default() -> (r: Widths)
        ensures
            r.cols@.len() == 0,
    {
        Widths { cols: Vec::new() }
    }
}

impl Widths {
    /// Widens the columns to fit a row of `cells`, adding columns where the row is longer.
    pub fn observe(&mut self, cells: &Vec<String>)
        ensures
            widths_of(final(self).cols@) == widen(widths_of(old(self).cols@), texts(cells@)),
    {
        let ghost before = self.cols@;
        while self.cols.len() < cells.len()
            invariant
                before.len() <= self.cols@.len() <= if before.len() >= cells@.len() {
                    before.len()
                } else {
                    cells@.len()
                },
                forall|i: int| 0 <= i < before.len() ==> #[trigger] self.cols@[i] == before[i],
                forall|i: int| before.len() <= i < self.cols@.len() ==> #[trigger] self.cols@[i] == 0,
            decreases cells@.len() - self.cols@.len(),
        {
            self.cols.push(0);
        }
        let mut i: usize = 0;
        while i < cells.len()
            invariant
                i <= cells@.len(),
                self.cols@.len() == widen(widths_of(before), texts(cells@)).len(),
                forall|k: int|
                    0 <= k < i ==> #[trigger] self.cols@[k] as int == widen(
                        widths_of(before),
                        texts(cells@),
                    )[k],
                forall|k: int|
                    i <= k < self.cols@.len() ==> #[trigger] self.cols@[k] == (if k < before.len() {
                        before[k]
                    } else {
                        0
                    }),
            decreases cells@.len() - i,
        {
            let need = widest_line(cells[i].as_str());
            if need > self.cols[i] {
                self.cols.set(i, need);
            }
            i = i + 1;
        }
        assert(widths_of(self.cols@) =~= widen(widths_of(before), texts(cells@)));
    }

    /// The column lengths for the table, each cut to 16 bits as `as u16` does.
    pub fn constraints(self) -> (r: Vec<u16>)
        ensures
            r@.len() == self.cols@.len(),
            forall|i: int| 0 <= i < r@.len() ==> #[trigger] r@[i] == (self.cols@[i] as u16),
    {
        let mut r: Vec<u16> = Vec::new();
        let mut i: usize = 0;
        while i < self.cols.len()
            invariant
                i <= self.cols@.len(),
                r@.len() == i,
                forall|k: int| 0 <= k < i ==> #[trigger] r@[k] == (self.cols@[k] as u16),
            decreases self.cols@.len() - i,
        {
            r.push(#[verifier::truncate] (self.cols[i] as u16));
            i = i + 1;
        }
        r
    }
}

// ---------------------------------------------------------------------------------------
// Rows
// ---------------------------------------------------------------------------------------

/// How a row is coloured.
#[derive(Clone, Copy, Debug, PartialEq, Eq)]
pub enum RowTone {
    /// An event under way.
    Ongoing,
    /// An event already begun or over.
    Past,
    /// Any other event.
    Plain,
}

/// A row of the agenda table: start, duration, end, title.
pub struct AgendaRow {
    pub cells: Vec<String>,
    pub tone: RowTone,
}

/// The local time of day of `m` as `%H:%M` prints it.
pub open spec fn clock_text(m: Moment) -> Seq<char> {
    two_digits(m.local_hour()) + seq![':'] + two_digits(m.local_minute())
}

/// The length of an event from `start` to `end`: whole minutes with `m` below an hour,
/// otherwise whole hours with `h`.
pub open spec fn duration_text(end: Moment, start: Moment) -> Seq<char> {
    if span_minutes(end, start) < 60 {
        signed_decimal(span_minutes(end, start)) + seq!['m']
    } else {
        signed_decimal(span_hours(end, start)) + seq!['h']
    }
}

/// The cells of the row of `e`.
pub open spec fn row_cells(e: CalEvent) -> Seq<Seq<char>> {
    match (e.start, e.end) {
        (Some(s), Some(t)) => seq![clock_text(s), duration_text(t, s), clock_text(t), e.summary@],
        (Some(s), None) => seq![clock_text(s), Seq::empty(), Seq::empty(), e.summary@],
        _ => seq![seq!['-'], Seq::empty(), Seq::empty(), e.summary@],
    }
}

/// The row of `e` is to be shown as over or begun at `now`: a timed event that has begun
/// (one without an end only where it began today); an all-day event of an earlier day.
pub open spec fn row_past(e: CalEvent, now: Moment) -> bool {
    match (e.start, e.end) {
        (Some(s), Some(_)) => s.before(now),
        (Some(s), None) => s.before(now) && s.local_day() == now.local_day(),
        _ => e.date < now.local_day(),
    }
}

/// The row of `e` is to be shown as under way at `now`: it starts after `now`, ends before
/// it, and starts today (as the agenda has it written).
pub open spec fn row_ongoing(e: CalEvent, now: Moment) -> bool {
    match (e.start, e.end) {
        (Some(s), Some(t)) => now.before(s) && t.before(now) && s.local_day() == now.local_day(),
        _ => false,
    }
}

/// The colour of the row of `e` at `now`.
pub open spec fn row_tone(e: CalEvent, now: Moment) -> RowTone {
    if row_ongoing(e, now) {
        RowTone::Ongoing
    } else if row_past(e, now) {
        RowTone::Past
    } else {
        RowTone::Plain
    }
}

/// Law: how a row is coloured, from the instants and dates themselves.
/// - An event with a start `s` and an end `t` is shown as under way when `s` lies after `now`,
///   `t` before it, and `s` falls on `now`'s local date (the condition the agenda is written
///   with). It is shown as begun or over exactly when `s` lies before `now`, whatever day it
///   began on.
/// - An event with a start and no end is begun exactly when it began before `now` on `now`'s
///   local date.
/// - An all-day event is over exactly when its date is before `now`'s local date.
pub proof fn row_tone_by_instants(e: CalEvent, now: Moment)
    requires
        e.wf(),
        now.wf(),
    ensures
        match (e.start, e.end) {
            (Some(s), Some(t)) => {
                &&& (row_tone(e, now) == RowTone::Ongoing) <==> (instant_key(now) < instant_key(s)
                    && instant_key(t) < instant_key(now) && local_day_of(s) == local_day_of(now))
                &&& (row_tone(e, now) == RowTone::Past) <==> instant_key(s) < instant_key(now)
            },
            (Some(s), None) => {
                &&& row_tone(e, now) != RowTone::Ongoing
                &&& (row_tone(e, now) == RowTone::Past) <==> (instant_key(s) < instant_key(now)
                    && local_day_of(s) == local_day_of(now))
            },
            _ => {
                &&& row_tone(e, now) != RowTone::Ongoing
                &&& (row_tone(e, now) == RowTone::Past) <==> e.date < local_day_of(now)
            },
        },
{
    local_day_is_carried_date(now);
    if let Some(s) = e.start {
        local_day_is_carried_date(s);
        before_is_instant_order(s, now);
        before_is_instant_order(now, s);
        if let Some(t) = e.end {
            before_is_instant_order(t, now);
        }
    }
}

/// The texts of `cells`.
pub open spec fn texts(cells: Seq<String>) -> Seq<Seq<char>> {
    cells.map_values(|c: String| c@)
}

fn clock(m: &Moment) -> (r: String)
    requires
        m.wf(),
    ensures
        r@ == clock_text(*m),
{
    let secs = local_seconds(m);
    let mut r = String::new();
    push_two_digits(&mut r, secs / 3600);
    proof { reveal_strlit(":"); }
    r.append(":");
    push_two_digits(&mut r, (secs / 60) % 60);
    r
}

fn duration(end: &Moment, start: &Moment) -> (r: String)
    requires
        end.wf(),
        start.wf(),
    ensures
        r@ == duration_text(*end, *start),
{
    let minutes = minutes_between(end, start);
    let mut r = String::new();
    if minutes < 60 {
        push_signed_decimal(&mut r, minutes);
        proof { reveal_strlit("m"); }
        r.append("m");
    } else {
        push_signed_decimal(&mut r, hours_between(end, start));
        proof { reveal_strlit("h"); }
        r.append("h");
    }
    r
}

/// The row of `e` at `now`: its cells and its colour.
pub fn agenda_row(e: &CalEvent, now: &Moment) -> (r: AgendaRow)
    requires
        e.wf(),
        now.wf(),
    ensures
        texts(r.cells@) == row_cells(*e),
        r.tone == row_tone(*e, *now),
{
    let (cells, past, ongoing) = match (&e.start, &e.end) {
        (Some(s), Some(t)) => {
            let cells = vec![clock(s), duration(t, s), clock(t), e.summary.clone()];
            assert(texts(cells@) =~= row_cells(*e));
            let past = is_before(s, now);
            let ongoing = is_before(now, s) && is_before(t, now) && local_date(s) == local_date(now);
            (cells, past, ongoing)
        },
        (Some(s), None) => {
            let cells = vec![clock(s), String::new(), String::new(), e.summary.clone()];
            assert(texts(cells@) =~= row_cells(*e));
            let past = is_before(s, now) && local_date(s) == local_date(now);
            (cells, past, false)
        },
        _ => {
            proof { reveal_strlit("-"); }
            let dash = owned("-");
            let cells = vec![dash, String::new(), String::new(), e.summary.clone()];
            assert(texts(cells@)[0] == seq!['-']);
            assert(texts(cells@) =~= row_cells(*e));
            let past = e.date < local_date(now);
            (cells, past, false)
        },
    };
    let tone = if ongoing {
        RowTone::Ongoing
    } else if past {
        RowTone::Past
    } else {
        RowTone::Plain
    };
    AgendaRow { cells, tone }
}

/// The cells of the rows of `events`.
pub open spec fn rows_of(events: Seq<&CalEvent>) -> Seq<Seq<Seq<char>>> {
    events.map_values(|e: &CalEvent| row_cells(*e))
}

/// The rows of the day's events at `now`, and the column lengths that fit them all.
pub fn agenda_table(events: &Vec<&CalEvent>, now: &Moment) -> (r: (Vec<AgendaRow>, Vec<u16>))
    requires
        now.wf(),
        forall|i: int| 0 <= i < events@.len() ==> (#[trigger] events@[i]).wf(),
    ensures
        r.0@.len() == events@.len(),
        forall|i: int|
            0 <= i < events@.len() ==> texts((#[trigger] r.0@[i]).cells@) == row_cells(*events@[i])
                && r.0@[i].tone == row_tone(*events@[i], *now),
        r.1@.len() == fit_widths(rows_of(events@)).len(),
        forall|i: int|
            0 <= i < r.1@.len() ==> #[trigger] r.1@[i] == (fit_widths(rows_of(events@))[i] as u16),
{
    let mut rows: Vec<AgendaRow> = Vec::new();
    let mut widths = Widths::default();
    let mut i: usize = 0;
    while i < events.len()
        invariant
            i <= events@.len(),
            now.wf(),
            forall|k: int| 0 <= k < events@.len() ==> (#[trigger] events@[k]).wf(),
            rows@.len() == i,
            forall|k: int|
                0 <= k < i ==> texts((#[trigger] rows@[k]).cells@) == row_cells(*events@[k])
                    && rows@[k].tone == row_tone(*events@[k], *now),
            widths_of(widths.cols@) == fit_widths(rows_of(events@.take(i as int))),
        decreases events@.len() - i,
    {
        let row = agenda_row(events[i], now);
        widths.observe(&row.cells);
        proof {
            let t = rows_of(events@.take(i + 1));
            assert(t.drop_last() =~= rows_of(events@.take(i as int)));
            assert(t.last() == texts(row.cells@));
        }
        rows.push(row);
        i = i + 1;
    }
    assert(events@.take(i as int) =~= events@);
    let ghost cols = widths.cols@;
    let lengths = widths.constraints();
    assert forall|k: int| 0 <= k < lengths@.len() implies #[trigger] lengths@[k] == (fit_widths(
        rows_of(events@),
    )[k] as u16) by {
        assert(widths_of(cols)[k] == cols[k] as int);
    }
    (rows, lengths)
}

/// What the agenda shows for a day without events: that a fetch is under way, or that the
/// day is free.
pub fn placeholder(fetching: bool) -> (r: &'static str)
    ensures
        r@ == (if fetching { "  Loading…"@ } else { "  Nothing scheduled"@ }),
{
    if fetching {
        "  Loading…"
    } else {
        "  Nothing scheduled"
    }
}

/// The title of the agenda for `day`: its long date, with a space on each side.
pub fn agenda_title(day: i32) -> (r: String)
    requires
        day_in_range(day as int),
    ensures
        r@ == " "@ + date_text(day as int, TITLE_FORMAT@) + " "@,
{
    let mut r = owned(" ");
    let date = format_date(day, TITLE_FORMAT);
    r.append(date.as_str());
    r.append(" ");
    r
}

/// Whether `day` is today at `now` (the title is then drawn in green).
pub fn is_today(day: i32, now: &Moment) -> (r: bool)
    requires
        now.wf(),
    ensures
        r == (day == now.local_day()),
{
    day == local_date(now)
}

/// The end of the status line: the quit key's label, the account's identity and the status.
pub fn status_text(identity: &str, status: &str) -> (r: String)
    ensures
        r@ == "quit    "@ + identity@ + "  "@ + status@,
{
    let mut r = owned("quit    ");
    r.append(identity);
    r.append("  ");
    r.append(status);
    r
}

} // verus!
