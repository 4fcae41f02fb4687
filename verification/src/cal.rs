//! Google Calendar events: from the API's shape to agenda entries, in agenda order.
use crate::clock::{
    before_is_instant_order, instant_key,
    date_parse, day_in_range, format_rfc3339, local_date, localize, local_instant, parse_date,
    parse_rfc3339, rfc3339_text, rfc3339_utc, utc_parts, is_before, Moment, DATE_FORMAT, MAX_DAY,
};
use crate::order::{
    insert_by, insert_by_at, insert_by_split, insert_by_whole, is_total_preorder, ordered_by, sort_by,
    sort_by_keeps_ordered, sort_by_sorts,
};
use crate::text::owned;
use vstd::prelude::*;

verus! {

/// The start or end of an event as the API gives it: a date and time, or a date alone.
#[derive(Clone, Debug)]
pub struct ApiTime {
    pub date_time: Option<String>,
    pub date: Option<String>,
}

/// An event as the API gives it.
#[derive(Clone, Debug)]
pub struct ApiEvent {
    pub summary: Option<String>,
    pub location: Option<String>,
    pub start: ApiTime,
    pub end: Option<ApiTime>,
}

/// An agenda entry: the local date it falls on, its start and end where it has a time of day,
/// its title and its place.
#[derive(Clone, Debug)]
pub struct CalEvent {
    pub date: i32,
    pub start: Option<Moment>,
    pub end: Option<Moment>,
    pub summary: String,
    pub location: Option<String>,
}

impl CalEvent {
    pub open spec fn wf(self) -> bool {
        &&& self.start matches Some(s) ==> s.wf()
        &&& self.end matches Some(e) ==> e.wf()
    }
}

/// The title of an event: its summary, or `(no title)` where it has none.
pub open spec fn title_of(summary: Option<String>) -> Seq<char> {
    match summary {
        Some(s) => s@,
        None => "(no title)"@,
    }
}

/// `m` is the instant that the API text `text` names, in some local offset.
pub open spec fn moment_of_text(m: Moment, text: Seq<char>) -> bool {
    &&& m.wf()
    &&& rfc3339_utc(text) == Some(utc_parts(m))
}

/// The end of an entry as taken from the API's end: the instant of its date and time where
/// there is one that reads; none otherwise.
pub open spec fn end_from_api(api_end: Option<ApiTime>, end: Option<Moment>) -> bool {
    match api_end {
        Some(t) => match t.date_time {
            Some(text) => match rfc3339_utc(text@) {
                Some(_) => end matches Some(m) && moment_of_text(m, text@),
                None => end is None,
            },
            None => end is None,
        },
        None => end is None,
    }
}

/// An event of the API becomes an entry: where its start has a date and time, that must read;
/// otherwise its start must have a date that reads.
pub open spec fn api_accepts(ev: ApiEvent) -> bool {
    match ev.start.date_time {
        Some(text) => rfc3339_utc(text@) is Some,
        None => match ev.start.date {
            Some(text) => date_parse(text@, DATE_FORMAT@) is Some,
            None => false,
        },
    }
}

/// `c` is the entry made of the accepted event `ev` (up to the local offsets, which the
/// machine's time zone decides).
pub open spec fn converts_to(ev: ApiEvent, c: CalEvent) -> bool {
    &&& c.summary@ == title_of(ev.summary)
    &&& c.location == ev.location
    &&& match ev.start.date_time {
        Some(text) => {
            &&& c.start matches Some(s) && moment_of_text(s, text@)
            &&& c.date == c.start->0.local_day()
            &&& end_from_api(ev.end, c.end)
        },
        None => {
            &&& ev.start.date matches Some(text) && date_parse(text@, DATE_FORMAT@) == Some(c.date as int)
            &&& c.start is None
            &&& c.end is None
        },
    }
}

fn title(summary: Option<String>) -> (t: String)
    ensures
        t@ == title_of(summary),
{
    match summary {
        Some(s) => s,
        None => owned("(no title)"),
    }
}

fn read_moment(text: &str) -> (r: Option<Moment>)
    ensures
        rfc3339_utc(text@) is Some <==> r is Some,
        r matches Some(m) ==> moment_of_text(m, text@),
{
    match parse_rfc3339(text) {
        Some(t) => Some(localize(t.0, t.1, t.2)),
        None => None,
    }
}

impl CalEvent {
    /// Makes an agenda entry of an API event, or `None` where its start does not read.
    /// A timed event falls on the local date of its start; its end is kept where it reads.
    pub fn from_api(ev: ApiEvent) -> (r: Option<CalEvent>)
        ensures
            r is Some <==> api_accepts(ev),
            r matches Some(c) ==> converts_to(ev, c) && c.wf(),
    {
        let summary = title(ev.summary);
        match ev.start.date_time {
            Some(dt) => {
                let start = match read_moment(dt.as_str()) {
                    Some(m) => m,
                    None => return None,
                };
                let end = match ev.end {
                    Some(t) => match t.date_time {
                        Some(text) => read_moment(text.as_str()),
                        None => None,
                    },
                    None => None,
                };
                let date = local_date(&start);
                Some(CalEvent { date, start: Some(start), end, summary, location: ev.location })
            },
            None => {
                let text = match ev.start.date {
                    Some(t) => t,
                    None => return None,
                };
                let d = match parse_date(text.as_str(), DATE_FORMAT) {
                    Some(d) => d,
                    None => return None,
                };
                Some(CalEvent { date: d, start: None, end: None, summary, location: ev.location })
            },
        }
    }
}

// ---------------------------------------------------------------------------------------
// Agenda order
// ---------------------------------------------------------------------------------------

/// Order of optional starts: no start comes first; starts by instant.
pub open spec fn start_le(a: Option<Moment>, b: Option<Moment>) -> bool {
    match (a, b) {
        (None, _) => true,
        (Some(_), None) => false,
        (Some(x), Some(y)) => !y.before(x),
    }
}

/// Agenda order: by date, then by start.
pub open spec fn event_le(a: CalEvent, b: CalEvent) -> bool {
    a.date < b.date || (a.date == b.date && start_le(a.start, b.start))
}

/// Agenda order as a relation.
pub open spec fn event_order() -> spec_fn(CalEvent, CalEvent) -> bool {
    |a: CalEvent, b: CalEvent| event_le(a, b)
}

/// The entries in agenda order; entries that tie keep the order they came in (a stable sort,
/// as `sort_by_key` is).
pub open spec fn sort_events(s: Seq<CalEvent>) -> Seq<CalEvent> {
    sort_by(s, event_order())
}

/// Entries in agenda order.
pub open spec fn in_agenda_order(s: Seq<CalEvent>) -> bool {
    ordered_by(s, event_order())
}

/// The entries of the accepted events of `items`, in their order.
pub open spec fn converted(items: Seq<ApiEvent>, out: Seq<CalEvent>) -> bool
    decreases items.len(),
{
    if items.len() == 0 {
        out.len() == 0
    } else if api_accepts(items.last()) {
        &&& out.len() > 0
        &&& converts_to(items.last(), out.last())
        &&& out.last().wf()
        &&& converted(items.drop_last(), out.drop_last())
    } else {
        converted(items.drop_last(), out)
    }
}

fn start_leq(a: &Option<Moment>, b: &Option<Moment>) -> (r: bool)
    ensures
        r == start_le(*a, *b),
{
    match (a, b) {
        (None, _) => true,
        (Some(_), None) => false,
        (Some(x), Some(y)) => !is_before(y, x),
    }
}

fn event_leq(a: &CalEvent, b: &CalEvent) -> (r: bool)
    ensures
        r == event_le(*a, *b),
{
    a.date < b.date || (a.date == b.date && start_leq(&a.start, &b.start))
}

fn insert_in_order(sorted: &mut Vec<CalEvent>, e: CalEvent)
    ensures
        final(sorted)@ == insert_by(old(sorted)@, e, event_order()),
{
    let ghost s = sorted@;
    let mut pos: usize = sorted.len();
    proof {
        insert_by_whole(s, e, event_order());
    }
    while pos > 0 && !event_leq(&sorted[pos - 1], &e)
        invariant
            pos <= s.len(),
            sorted@ == s,
            insert_by(s, e, event_order()) == insert_by(s.take(pos as int), e, event_order())
                + s.skip(pos as int),
        decreases pos,
    {
        proof {
            insert_by_split(s, e, event_order(), pos as int);
        }
        pos = pos - 1;
    }
    proof {
        insert_by_at(s, e, event_order(), pos as int);
    }
    sorted.insert(pos, e);
}

/// Puts entries in agenda order: by date, then by start (entries without a start first);
/// entries that tie keep their order.
pub fn sort_by_start(v: Vec<CalEvent>) -> (r: Vec<CalEvent>)
    ensures
        r@ == sort_events(v@),
{
    let ghost orig = v@;
    let mut rest = v;
    let mut out: Vec<CalEvent> = Vec::new();
    let n = rest.len();
    let mut i: usize = 0;
    while i < n
        invariant
            n == orig.len(),
            i <= n,
            rest@ == orig.skip(i as int),
            out@ == sort_events(orig.take(i as int)),
        decreases n - i,
    {
        let e = rest.remove(0);
        proof {
            assert(orig.take(i + 1).drop_last() =~= orig.take(i as int));
            assert(orig.take(i + 1).last() == e);
            assert(sort_events(orig.take(i + 1)) == insert_by(
                sort_events(orig.take(i as int)),
                e,
                event_order(),
            ));
        }
        insert_in_order(&mut out, e);
        assert(rest@ =~= orig.skip(i + 1));
        i = i + 1;
    }
    assert(orig.take(n as int) =~= orig);
    out
}

/// The accepted events of `items` as entries, in their order.
pub fn collect_events(items: Vec<ApiEvent>) -> (r: Vec<CalEvent>)
    ensures
        converted(items@, r@),
{
    let ghost orig = items@;
    let mut rest = items;
    let mut out: Vec<CalEvent> = Vec::new();
    let n = rest.len();
    let mut i: usize = 0;
    while i < n
        invariant
            n == orig.len(),
            i <= n,
            rest@ == orig.skip(i as int),
            converted(orig.take(i as int), out@),
        decreases n - i,
    {
        let ev = rest.remove(0);
        let ghost before = out@;
        proof {
            assert(orig.take(i + 1).drop_last() =~= orig.take(i as int));
            assert(orig.take(i + 1).last() == ev);
        }
        match CalEvent::from_api(ev) {
            Some(c) => {
                out.push(c);
                assert(out@.drop_last() =~= before);
            },
            None => {},
        }
        assert(rest@ =~= orig.skip(i + 1));
        i = i + 1;
    }
    assert(orig.take(n as int) =~= orig);
    out
}

/// The agenda of a calendar's reply: the entries of the events that read, in agenda order.
pub fn events_from_items(items: Vec<ApiEvent>) -> (r: Vec<CalEvent>)
    ensures
        exists|c: Seq<CalEvent>| converted(items@, c) && r@ == sort_events(c),
{
    let collected = collect_events(items);
    let ghost c = collected@;
    let r = sort_by_start(collected);
    assert(converted(items@, c) && r@ == sort_events(c));
    r
}

/// Law: agenda order orders every two entries, and transitively.
pub proof fn agenda_order_is_total_preorder()
    ensures
        is_total_preorder(event_order()),
{
}

/// Law: the agenda order puts entries in order, and it keeps every entry, each as often
/// as it came (a permutation).
pub proof fn sort_events_sorts(s: Seq<CalEvent>)
    ensures
        in_agenda_order(sort_events(s)),
        sort_events(s).to_multiset() == s.to_multiset(),
        sort_events(s).len() == s.len(),
{
    agenda_order_is_total_preorder();
    sort_by_sorts(s, event_order());
}

/// Law: agenda order is by date, then by start: an entry without a start before any with one,
/// and starts by the instant they stand for (whatever their local offsets).
pub proof fn agenda_order_is_date_then_instant(a: CalEvent, b: CalEvent)
    requires
        a.wf(),
        b.wf(),
    ensures
        event_le(a, b) <==> (a.date < b.date || (a.date == b.date && (a.start is None || (
        b.start is Some && instant_key(a.start->0) <= instant_key(b.start->0))))),
{
    if a.start is Some && b.start is Some {
        before_is_instant_order(b.start->0, a.start->0);
    }
}

/// Law: in the agenda, entries stand by date, and within a date an entry without a start comes
/// before the timed ones, which stand in the order of their start instants.
pub proof fn agenda_is_by_date_then_instant(s: Seq<CalEvent>)
    requires
        forall|i: int| 0 <= i < s.len() ==> (#[trigger] s[i]).wf(),
    ensures
        forall|i: int, j: int|
            0 <= i < j < sort_events(s).len() ==> {
                let (x, y) = (#[trigger] sort_events(s)[i], #[trigger] sort_events(s)[j]);
                x.date < y.date || (x.date == y.date && (x.start is None || (y.start is Some
                    && instant_key(x.start->0) <= instant_key(y.start->0))))
            },
{
    broadcast use vstd::seq_lib::group_seq_properties;

    let r = sort_events(s);
    sort_events_sorts(s);
    assert forall|k: int| 0 <= k < r.len() implies (#[trigger] r[k]).wf() by {
        assert(r.to_multiset().count(r[k]) > 0);
        assert(s.contains(r[k]));
    }
    assert forall|i: int, j: int| 0 <= i < j < r.len() implies {
        let (x, y) = (#[trigger] r[i], #[trigger] r[j]);
        x.date < y.date || (x.date == y.date && (x.start is None || (y.start is Some
            && instant_key(x.start->0) <= instant_key(y.start->0))))
    } by {
        assert(event_order()(r[i], r[j]));
        agenda_order_is_date_then_instant(r[i], r[j]);
    }
}

/// Law: ordering entries that are already in agenda order leaves them as they are.
pub proof fn sort_events_keeps_ordered(s: Seq<CalEvent>)
    requires
        in_agenda_order(s),
    ensures
        sort_events(s) == s,
{
    sort_by_keeps_ordered(s, event_order());
}

/// Why the time window of a fetch could not be set.
#[derive(Clone, Copy, Debug, PartialEq, Eq)]
pub enum WindowError {
    /// Local midnight of the first day is skipped or repeated.
    AmbiguousStart,
    /// Local midnight of the day after the last is skipped or repeated.
    AmbiguousEnd,
}

impl WindowError {
    /// The error's message.
    pub fn message(&self) -> (s: String)
        ensures
            s@ == (match self {
                WindowError::AmbiguousStart => "ambiguous local start time"@,
                WindowError::AmbiguousEnd => "ambiguous local end time"@,
            }),
    {
        match self {
            WindowError::AmbiguousStart => owned("ambiguous local start time"),
            WindowError::AmbiguousEnd => owned("ambiguous local end time"),
        }
    }
}

/// The window of a fetch from the local midnights that the time zone gave: the first day's
/// midnight must be unambiguous, then the midnight after the last day must be.
pub fn window_from(start: Option<Moment>, end: Option<Moment>) -> (r: Result<(Moment, Moment), WindowError>)
    ensures
        r == (match (start, end) {
            (None, _) => Err::<(Moment, Moment), WindowError>(WindowError::AmbiguousStart),
            (Some(_), None) => Err(WindowError::AmbiguousEnd),
            (Some(a), Some(b)) => Ok((a, b)),
        }),
{
    let a = match start {
        Some(m) => m,
        None => return Err(WindowError::AmbiguousStart),
    };
    let b = match end {
        Some(m) => m,
        None => return Err(WindowError::AmbiguousEnd),
    };
    Ok((a, b))
}

/// The window of a fetch for the days `from` to `to`: from local midnight of `from` to local
/// midnight of the day after `to`, as the machine's time zone places them. The midnight after
/// the last day is looked up only once the first day's is known.
pub fn fetch_window(from: i32, to: i32) -> (r: Result<(Moment, Moment), WindowError>)
    requires
        day_in_range(from as int),
        day_in_range(to as int),
        to < MAX_DAY,
    ensures
        r matches Ok((a, b)) ==> is_window(a, b, from as int, to as int),
        r matches Err(WindowError::AmbiguousEnd) ==> exists|a: Moment| is_midnight_of(a, from as int),
{
    let start = local_instant(from, 0);
    let end = match start {
        Some(_) => local_instant(to + 1, 0),
        None => None,
    };
    let r = window_from(start, end);
    proof {
        if let Some(a) = start {
            assert(is_midnight_of(a, from as int));
        }
    }
    r
}

/// `a` to `b` is the window of a fetch for the days `from` to `to`: local midnight of `from`
/// to local midnight of the day after `to`.
pub open spec fn is_window(a: Moment, b: Moment, from: int, to: int) -> bool {
    is_midnight_of(a, from) && is_midnight_of(b, to + 1)
}

/// `m` is local midnight of `day`.
pub open spec fn is_midnight_of(m: Moment, day: int) -> bool {
    m.wf() && m.local_day() == day && m.local_secs() == 0 && m.frac == 0
}

/// The text of an instant in a query, as `to_rfc3339` writes it.
pub open spec fn query_text(m: Moment) -> Seq<char> {
    rfc3339_text(m.day as int, m.secs as int, m.frac as int, m.offset as int)
}

/// The bounds of the query for the days `from` to `to`, as RFC 3339 texts: the window of
/// `fetch_window`, each end written by chrono's `to_rfc3339`.
pub fn query_window(from: i32, to: i32) -> (r: Result<(String, String), WindowError>)
    requires
        day_in_range(from as int),
        day_in_range(to as int),
        to < MAX_DAY,
    ensures
        r matches Ok((x, y)) ==> exists|a: Moment, b: Moment|
            is_window(a, b, from as int, to as int) && x@ == query_text(a) && y@ == query_text(b),
        r matches Err(WindowError::AmbiguousEnd) ==> exists|a: Moment| is_midnight_of(a, from as int),
{
    match fetch_window(from, to) {
        Ok((a, b)) => {
            let x = format_rfc3339(&a);
            let y = format_rfc3339(&b);
            assert(is_window(a, b, from as int, to as int));
            Ok((x, y))
        },
        Err(e) => Err(e),
    }
}

} // verus!
