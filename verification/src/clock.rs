//! Calendar days and instants, as chrono's `NaiveDate` and `DateTime<Local>` hold them.
//!
//! A day is chrono's day number counted from the common era (0001-01-01 is day 1).
//! An instant is a UTC date, the seconds past UTC midnight, the nanoseconds within the
//! second (at or past one second only inside a leap second) and the local offset from UTC
//! that was in force at that instant.
use chrono::{Datelike, TimeZone, Timelike};
use vstd::prelude::*;

verus! {

/// The first day that chrono's `NaiveDate` can hold (-262143-01-01).
pub const MIN_DAY: i32 = -95_746_129;

/// The last day that chrono's `NaiveDate` can hold (+262142-12-31).
pub const MAX_DAY: i32 = 95_745_399;

/// The day number of 1970-01-01.
pub const UNIX_EPOCH_DAY: i32 = 719_163;

pub open spec fn day_in_range(d: int) -> bool {
    MIN_DAY <= d <= MAX_DAY
}

/// An instant together with the local offset from UTC in force at it.
#[derive(Clone, Copy, Debug, PartialEq, Eq)]
pub struct Moment {
    /// The UTC date.
    pub day: i32,
    /// Seconds past UTC midnight.
    pub secs: u32,
    /// Nanoseconds within the second; `1_000_000_000` or more only inside a leap second.
    pub frac: u32,
    /// Local time minus UTC, in seconds.
    pub offset: i32,
}

impl Moment {
    /// The bounds that chrono keeps for a `DateTime`.
    pub open spec fn wf(self) -> bool {
        &&& day_in_range(self.day as int)
        &&& self.secs < 86_400
        &&& self.frac < 2_000_000_000
        &&& -86_400 < self.offset < 86_400
        &&& self.frac >= 1_000_000_000 ==> self.secs % 60 == 59
    }

    /// Local seconds measured from UTC midnight of `self.day` (may leave `0..86400`).
    pub open spec fn local_total(self) -> int {
        self.secs + self.offset
    }

    /// The local date (`date_naive`): the offset applied to the UTC time, carried into the date.
    pub open spec fn local_day(self) -> int {
        self.day + self.local_total() / 86_400
    }

    /// Seconds past local midnight.
    pub open spec fn local_secs(self) -> int {
        self.local_total() % 86_400
    }

    /// The local hour, as `%H` prints it.
    pub open spec fn local_hour(self) -> int {
        self.local_secs() / 3600
    }

    /// The local minute, as `%M` prints it.
    pub open spec fn local_minute(self) -> int {
        (self.local_secs() / 60) % 60
    }

    /// `self` comes strictly before `other`: chrono orders instants by their UTC date and time,
    /// whatever their offsets.
    pub open spec fn before(self, other: Moment) -> bool {
        ||| self.day < other.day
        ||| self.day == other.day && self.secs < other.secs
        ||| self.day == other.day && self.secs == other.secs && self.frac < other.frac
    }
}

/// A number for the instant of `m` that orders instants as chrono's `DateTime` does: by UTC
/// date, then second, then fraction (a fraction stays below two seconds, so the next second's
/// count lies beyond every fraction of this one).
pub open spec fn instant_key(m: Moment) -> int {
    (m.day * 86_400 + m.secs) * 2_000_000_000 + m.frac
}

/// The local date of `m`, from its parts: the UTC date, moved by the days that the offset
/// carries the UTC time across.
pub open spec fn local_day_of(m: Moment) -> int {
    let t: int = m.secs + m.offset;
    if t < 0 {
        m.day - 1
    } else if t >= 86_400 {
        m.day + 1
    } else {
        m.day as int
    }
}

/// Law: `before` is the order of instants, whatever the offsets.
pub proof fn before_is_instant_order(x: Moment, y: Moment)
    requires
        x.wf(),
        y.wf(),
    ensures
        x.before(y) <==> instant_key(x) < instant_key(y),
{
    let kx = x.day * 86_400 + x.secs;
    let ky = y.day * 86_400 + y.secs;
    assert(kx < ky <==> (x.day < y.day || (x.day == y.day && x.secs < y.secs))) by (nonlinear_arith)
        requires
            0 <= x.secs < 86_400,
            0 <= y.secs < 86_400,
            kx == x.day * 86_400 + x.secs,
            ky == y.day * 86_400 + y.secs,
    ;
    assert(instant_key(x) < instant_key(y) <==> (kx < ky || (kx == ky && x.frac < y.frac))) by (nonlinear_arith)
        requires
            0 <= x.frac < 2_000_000_000,
            0 <= y.frac < 2_000_000_000,
            instant_key(x) == kx * 2_000_000_000 + x.frac,
            instant_key(y) == ky * 2_000_000_000 + y.frac,
    ;
}

/// Law: the local date is the UTC date carried by the offset.
pub proof fn local_day_is_carried_date(m: Moment)
    requires
        m.wf(),
    ensures
        m.local_day() == local_day_of(m),
{
}

/// chrono's `num_minutes` of `end - start` (`signed_duration_since` of the UTC date and time,
/// leap seconds counted as chrono counts them), for the instants with the given UTC parts.
pub uninterp spec fn minutes_of_span(
    end_day: int,
    end_secs: int,
    end_frac: int,
    start_day: int,
    start_secs: int,
    start_frac: int,
) -> int;

/// chrono's `num_hours` of `end - start`, for the instants with the given UTC parts.
pub uninterp spec fn hours_of_span(
    end_day: int,
    end_secs: int,
    end_frac: int,
    start_day: int,
    start_secs: int,
    start_frac: int,
) -> int;

/// chrono's `num_minutes` of `end - start`: it depends on the UTC parts alone.
pub open spec fn span_minutes(end: Moment, start: Moment) -> int {
    minutes_of_span(
        end.day as int,
        end.secs as int,
        end.frac as int,
        start.day as int,
        start.secs as int,
        start.frac as int,
    )
}

/// chrono's `num_hours` of `end - start`: it depends on the UTC parts alone.
pub open spec fn span_hours(end: Moment, start: Moment) -> int {
    hours_of_span(
        end.day as int,
        end.secs as int,
        end.frac as int,
        start.day as int,
        start.secs as int,
        start.frac as int,
    )
}

/// Whether chrono's `NaiveDate` can hold the day `d`.
pub fn is_valid_day(d: i32) -> (r: bool)
    ensures
        r == day_in_range(d as int),
{
    MIN_DAY <= d && d <= MAX_DAY
}

/// The local date of `m` (chrono's `date_naive`).
pub fn local_date(m: &Moment) -> (d: i32)
    requires
        m.wf(),
    ensures
        d == m.local_day(),
{
    let total: i32 = m.secs as i32 + m.offset;
    if total < 0 {
        m.day - 1
    } else if total >= 86_400 {
        m.day + 1
    } else {
        m.day
    }
}

/// Seconds past local midnight of `m`.
pub fn local_seconds(m: &Moment) -> (s: u32)
    requires
        m.wf(),
    ensures
        s == m.local_secs(),
        s < 86_400,
{
    let total: i32 = m.secs as i32 + m.offset;
    if total < 0 {
        (total + 86_400) as u32
    } else if total >= 86_400 {
        (total - 86_400) as u32
    } else {
        total as u32
    }
}

/// Whether `a` comes strictly before `b` (chrono's `<` on `DateTime`).
pub fn is_before(a: &Moment, b: &Moment) -> (r: bool)
    ensures
        r == a.before(*b),
{
    if a.day != b.day {
        a.day < b.day
    } else if a.secs != b.secs {
        a.secs < b.secs
    } else {
        a.frac < b.frac
    }
}

/// Calls chrono's `signed_duration_since` on the UTC date and time of `end` and `start` (what
/// `DateTime - DateTime` computes) and takes `num_minutes` of it. The contract names the result
/// (`minutes_of_span`) over the UTC parts, the only parts the subtraction reads.
#[verifier::external_body]
pub(crate) fn minutes_between(end: &Moment, start: &Moment) -> (r: i64)
    requires
        end.wf(),
        start.wf(),
    ensures
        r == minutes_of_span(
            end.day as int,
            end.secs as int,
            end.frac as int,
            start.day as int,
            start.secs as int,
            start.frac as int,
        ),
{
    let e = chrono::NaiveDate::from_num_days_from_ce_opt(end.day).unwrap()
        .and_time(chrono::NaiveTime::from_num_seconds_from_midnight_opt(end.secs, end.frac).unwrap());
    let s = chrono::NaiveDate::from_num_days_from_ce_opt(start.day).unwrap()
        .and_time(chrono::NaiveTime::from_num_seconds_from_midnight_opt(start.secs, start.frac).unwrap());
    e.signed_duration_since(s).num_minutes()
}

/// Calls chrono's `signed_duration_since` on the UTC date and time of `end` and `start` and
/// takes `num_hours` of it. The contract names the result (`hours_of_span`) over the UTC parts.
#[verifier::external_body]
pub(crate) fn hours_between(end: &Moment, start: &Moment) -> (r: i64)
    requires
        end.wf(),
        start.wf(),
    ensures
        r == hours_of_span(
            end.day as int,
            end.secs as int,
            end.frac as int,
            start.day as int,
            start.secs as int,
            start.frac as int,
        ),
{
    let e = chrono::NaiveDate::from_num_days_from_ce_opt(end.day).unwrap()
        .and_time(chrono::NaiveTime::from_num_seconds_from_midnight_opt(end.secs, end.frac).unwrap());
    let s = chrono::NaiveDate::from_num_days_from_ce_opt(start.day).unwrap()
        .and_time(chrono::NaiveTime::from_num_seconds_from_midnight_opt(start.secs, start.frac).unwrap());
    e.signed_duration_since(s).num_hours()
}

/// The UTC date, seconds past UTC midnight and nanoseconds of the instant that chrono's
/// `DateTime::parse_from_rfc3339` reads from `text`, or `None` where it reports an error.
pub uninterp spec fn rfc3339_utc(text: Seq<char>) -> Option<(int, int, int)>;

/// The format of the dates of all-day events: year, month, day.
pub const DATE_FORMAT: &'static str = "%Y-%m-%d";

/// The format of the agenda's title: weekday, day of month, month, year.
pub const TITLE_FORMAT: &'static str = "%A %-d %B %Y";

/// The day that chrono's `NaiveDate::parse_from_str(text, format)` reads, or `None` where it
/// reports an error.
pub uninterp spec fn date_parse(text: Seq<char>, format: Seq<char>) -> Option<int>;

/// chrono's `NaiveDate::format(format)` of the date `day`, as text.
pub uninterp spec fn date_text(day: int, format: Seq<char>) -> Seq<char>;

/// chrono's `to_rfc3339` of the instant with UTC date `day`, UTC time `secs` and `frac`, in
/// the offset `offset`.
pub uninterp spec fn rfc3339_text(day: int, secs: int, frac: int, offset: int) -> Seq<char>;

/// The UTC parts of an instant read as `(day, secs, frac)`, in the form of `rfc3339_utc`.
pub open spec fn utc_parts(m: Moment) -> (int, int, int) {
    (m.day as int, m.secs as int, m.frac as int)
}

/// Calls chrono's `DateTime::parse_from_rfc3339` and takes the UTC date and time of the
/// result. The contract names what it reads (`rfc3339_utc`) and states the bounds that chrono
/// keeps for every `NaiveDateTime`: a date in range, a time of day below 86400 seconds, a
/// fraction below two seconds that reaches one second only in the last second of a minute.
#[verifier::external_body]
pub(crate) fn parse_rfc3339(text: &str) -> (r: Option<(i32, u32, u32)>)
    ensures
        rfc3339_utc(text@) == (match r {
            Some(t) => Some((t.0 as int, t.1 as int, t.2 as int)),
            None => None::<(int, int, int)>,
        }),
        r matches Some(t) ==> {
            &&& day_in_range(t.0 as int)
            &&& t.1 < 86_400
            &&& t.2 < 2_000_000_000
            &&& t.2 >= 1_000_000_000 ==> t.1 % 60 == 59
        },
{
    match chrono::DateTime::parse_from_rfc3339(text) {
        Ok(dt) => {
            let utc = dt.naive_utc();
            Some((utc.date().num_days_from_ce(), utc.time().num_seconds_from_midnight(), utc.time().nanosecond()))
        },
        Err(_) => None,
    }
}

/// Calls chrono's `NaiveDate::parse_from_str(text, format)` and gives the day number of the
/// date read. The contract names the result (`date_parse`) and states that a date chrono
/// returns lies in its range.
#[verifier::external_body]
pub(crate) fn parse_date(text: &str, format: &str) -> (r: Option<i32>)
    ensures
        date_parse(text@, format@) == (match r {
            Some(d) => Some(d as int),
            None => None::<int>,
        }),
        r matches Some(d) ==> day_in_range(d as int),
{
    match chrono::NaiveDate::parse_from_str(text, format) {
        Ok(d) => Some(d.num_days_from_ce()),
        Err(_) => None,
    }
}

/// Asks chrono's `Local` time zone (`offset_from_utc_datetime`, as `with_timezone(&Local)`
/// does) for the offset from UTC in force at the given UTC instant. The answer depends on the
/// machine's time zone, so the contract states only the bound that every chrono `FixedOffset`
/// keeps. chrono panics where the zone lookup itself fails; that is not stated.
#[verifier::external_body]
pub(crate) fn local_offset_at(day: i32, secs: u32, frac: u32) -> (r: i32)
    requires
        day_in_range(day as int),
        secs < 86_400,
        frac < 2_000_000_000,
        frac >= 1_000_000_000 ==> secs % 60 == 59,
    ensures
        -86_400 < r < 86_400,
{
    let date = chrono::NaiveDate::from_num_days_from_ce_opt(day).unwrap();
    let time = chrono::NaiveTime::from_num_seconds_from_midnight_opt(secs, frac).unwrap();
    chrono::Local.offset_from_utc_datetime(&date.and_time(time)).local_minus_utc()
}

/// Calls chrono's `Local.from_local_datetime(..).single()` on the local time `secs` past
/// midnight of `day`. The answer depends on the machine's time zone (`None` where that local
/// time is skipped or repeated); the contract states what holds of every answer chrono gives:
/// the instant found lies at that local date and time.
#[verifier::external_body]
pub(crate) fn local_instant(day: i32, secs: u32) -> (r: Option<Moment>)
    requires
        day_in_range(day as int),
        secs < 86_400,
    ensures
        r matches Some(m) ==> {
            &&& m.wf()
            &&& m.local_day() == day
            &&& m.local_secs() == secs
            &&& m.frac == 0
        },
{
    let date = chrono::NaiveDate::from_num_days_from_ce_opt(day).unwrap();
    let time = chrono::NaiveTime::from_num_seconds_from_midnight_opt(secs, 0).unwrap();
    match chrono::Local.from_local_datetime(&date.and_time(time)).single() {
        Some(dt) => {
            let (d, t) = (dt.naive_utc().date(), dt.naive_utc().time());
            Some(Moment { day: d.num_days_from_ce(), secs: t.num_seconds_from_midnight(), frac: t.nanosecond(), offset: dt.offset().local_minus_utc() })
        },
        None => None,
    }
}

/// Calls chrono's `NaiveDate::format(format)` on the date `day` and names the text
/// (`date_text`). chrono reports an error, and `to_string` then panics, on a malformed
/// format; the contract admits the title's format alone.
#[verifier::external_body]
pub(crate) fn format_date(day: i32, format: &str) -> (r: String)
    requires
        day_in_range(day as int),
        format@ == TITLE_FORMAT@,
    ensures
        r@ == date_text(day as int, format@),
{
    chrono::NaiveDate::from_num_days_from_ce_opt(day).unwrap().format(format).to_string()
}

/// Calls chrono's `to_rfc3339` on the instant `m`, in its offset, and names the text
/// (`rfc3339_text`).
#[verifier::external_body]
pub(crate) fn format_rfc3339(m: &Moment) -> (r: String)
    requires
        m.wf(),
    ensures
        r@ == rfc3339_text(m.day as int, m.secs as int, m.frac as int, m.offset as int),
{
    let date = chrono::NaiveDate::from_num_days_from_ce_opt(m.day).unwrap();
    let time = chrono::NaiveTime::from_num_seconds_from_midnight_opt(m.secs, m.frac).unwrap();
    chrono::FixedOffset::east_opt(m.offset).unwrap().from_utc_datetime(&date.and_time(time)).to_rfc3339()
}

/// The instant given by UTC parts, with the local offset in force at it.
pub fn localize(day: i32, secs: u32, frac: u32) -> (m: Moment)
    requires
        day_in_range(day as int),
        secs < 86_400,
        frac < 2_000_000_000,
        frac >= 1_000_000_000 ==> secs % 60 == 59,
    ensures
        m.wf(),
        m.day == day,
        m.secs == secs,
        m.frac == frac,
{
    let offset = local_offset_at(day, secs, frac);
    Moment { day, secs, frac, offset }
}

} // verus!
