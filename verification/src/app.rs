//! The agenda's state and how it answers keys and fetched events.
use crate::cal::CalEvent;
use crate::clock::{day_in_range, MAX_DAY, MIN_DAY};
use crate::goa::Account;
use crate::text::{owned, push_decimal, decimal};
use vstd::prelude::*;

verus! {

/// How many days before today the agenda shows.
pub const DAYS_BACK: i32 = 1;

/// How many days after today the agenda shows.
pub const DAYS_FORWARD: i32 = 5;

/// How many days the agenda shows.
pub const DAY_COUNT: usize = 7;

/// A key as the agenda reads it.
#[derive(Clone, Copy, Debug, PartialEq, Eq)]
pub enum Key {
    Char(char),
    Esc,
    Left,
    Right,
    Other,
}

/// What reaches the agenda: a key (pressed, or released or repeated), another terminal event,
/// or the outcome of a fetch.
#[derive(Debug)]
pub enum Msg {
    Key { code: Key, press: bool },
    OtherInput,
    Fetched(Result<Vec<CalEvent>, String>),
}

/// What the agenda asks of its runner after a message: to stop, to draw again, or to fetch
/// the events of the days `from` to `to` and then draw again.
#[derive(Clone, Copy, Debug, PartialEq, Eq)]
pub enum Action {
    Quit,
    Draw,
    Fetch { from: i32, to: i32 },
}

/// The agenda: the account shown, the days it covers and the one selected, the events
/// fetched, a status line, and whether a fetch is under way.
pub struct App {
    pub account: Account,
    pub days: Vec<i32>,
    pub selected: usize,
    pub events: Vec<CalEvent>,
    pub status: String,
    pub fetching: bool,
}

/// The selection after a step back: one day earlier, but not before the first.
pub open spec fn prev_index(selected: int) -> int {
    if selected > 0 {
        selected - 1
    } else {
        0
    }
}

/// The selection after a step forward: one day later, but not past the last of `count`.
pub open spec fn next_index(selected: int, count: int) -> int {
    if selected + 1 < count {
        selected + 1
    } else {
        selected
    }
}

/// The events of `s` that fall on `day`, in their order.
pub open spec fn events_on(s: Seq<CalEvent>, day: i32) -> Seq<CalEvent>
    decreases s.len(),
{
    if s.len() == 0 {
        Seq::empty()
    } else if s.last().date == day {
        events_on(s.drop_last(), day).push(s.last())
    } else {
        events_on(s.drop_last(), day)
    }
}

/// The status after a fetch that brought `n` events.
pub open spec fn count_status(n: nat) -> Seq<char> {
    decimal(n) + " events"@
}

/// The status after a fetch that failed with `e`.
pub open spec fn error_status(e: Seq<char>) -> Seq<char> {
    "Error: "@ + e
}

/// The status while a fetch is under way.
pub open spec fn fetching_status() -> Seq<char> {
    "Fetching…"@
}

/// The action that fetches the days of `app`.
pub open spec fn fetch_action(app: App) -> Action {
    Action::Fetch { from: app.days@[0], to: app.days@[DAY_COUNT - 1] }
}

/// `post` differs from `pre` at most in the selection, which is `selected`.
pub open spec fn moved_to(pre: App, post: App, selected: int) -> bool {
    &&& post.account == pre.account
    &&& post.days == pre.days
    &&& post.selected == selected
    &&& post.spec_events() == pre.spec_events()
    &&& post.status == pre.status
    &&& post.fetching == pre.fetching
}

/// What answering a key that is pressed does.
pub open spec fn key_step(pre: App, post: App, code: Key, a: Action) -> bool {
    match code {
        Key::Char('q') | Key::Esc => a == Action::Quit && post == pre,
        Key::Left | Key::Char('h') => a == Action::Draw && moved_to(pre, post, prev_index(pre.selected as int)),
        Key::Right | Key::Char('l') => a == Action::Draw && moved_to(pre, post, next_index(pre.selected as int, DAY_COUNT as int)),
        Key::Char('t') => a == Action::Draw && moved_to(pre, post, DAYS_BACK as int),
        Key::Char('r') => if pre.fetching {
            a == Action::Draw && post == pre
        } else {
            &&& a == fetch_action(pre)
            &&& post.fetching
            &&& post.status@ == fetching_status()
            &&& post.account == pre.account
            &&& post.days == pre.days
            &&& post.selected == pre.selected
            &&& post.spec_events() == pre.spec_events()
        },
        _ => a == Action::Draw && post == pre,
    }
}

/// What answering `msg` does: `pre` becomes `post` and the runner is asked for `a`.
pub open spec fn steps_to(pre: App, post: App, msg: Msg, a: Action) -> bool {
    match msg {
        Msg::Key { code, press } => if press {
            key_step(pre, post, code, a)
        } else {
            a == Action::Draw && post == pre
        },
        Msg::OtherInput => a == Action::Draw && post == pre,
        Msg::Fetched(result) => {
            &&& a == Action::Draw
            &&& !post.fetching
            &&& post.account == pre.account
            &&& post.days == pre.days
            &&& post.selected == pre.selected
            &&& match result {
                Ok(events) => post.spec_events() == events@ && post.status@ == count_status(events@.len()),
                Err(e) => post.spec_events() == pre.spec_events() && post.status@ == error_status(e@),
            }
        },
    }
}

impl App {
    /// The days run from one day before `days[DAYS_BACK]` on, one after the other, all
    /// within chrono's range, and the selection is one of them.
    pub open spec fn wf(&self) -> bool {
        &&& self.days@.len() == DAY_COUNT
        &&& forall|i: int| 0 <= i < DAY_COUNT ==> #[trigger] self.days@[i] == self.days@[0] + i
        &&& day_in_range(self.days@[0] as int)
        &&& day_in_range(self.days@[0] + DAY_COUNT - 1)
        &&& self.selected < DAY_COUNT
    }

    /// The events fetched.
    pub open spec fn spec_events(&self) -> Seq<CalEvent> {
        self.events@
    }

    /// The day selected.
    pub open spec fn spec_current_day(&self) -> i32 {
        self.days@[self.selected as int]
    }

    /// A new agenda for `account`, covering the day before `today` to five days after it,
    /// with `today` selected, no events and no fetch under way.
    pub fn new(account: Account, today: i32) -> (r: App)
        requires
            MIN_DAY + DAYS_BACK <= today <= MAX_DAY - DAYS_FORWARD,
        ensures
            r.wf(),
            r.account == account,
            forall|i: int| 0 <= i < DAY_COUNT ==> #[trigger] r.days@[i] == today - DAYS_BACK + i,
            r.selected == DAYS_BACK,
            r.spec_current_day() == today,
            r.spec_events().len() == 0,
            r.status@.len() == 0,
            !r.fetching,
    {
        let mut days: Vec<i32> = Vec::new();
        let mut off: i32 = -DAYS_BACK;
        while off <= DAYS_FORWARD
            invariant
                -DAYS_BACK <= off <= DAYS_FORWARD + 1,
                days@.len() == off + DAYS_BACK,
                forall|i: int| 0 <= i < days@.len() ==> #[trigger] days@[i] == today - DAYS_BACK + i,
                MIN_DAY + DAYS_BACK <= today <= MAX_DAY - DAYS_FORWARD,
            decreases DAYS_FORWARD + 1 - off,
        {
            days.push(today + off);
            off = off + 1;
        }
        App {
            account,
            days,
            selected: DAYS_BACK as usize,
            events: Vec::new(),
            status: String::new(),
            fetching: false,
        }
    }

    /// The day selected.
    pub fn current_day(&self) -> (d: i32)
        requires
            self.selected < self.days@.len(),
        ensures
            d == self.spec_current_day(),
    {
        self.days[self.selected]
    }

    /// The events fetched.
    pub fn events(&self) -> (r: &Vec<CalEvent>)
        ensures
            r@ == self.spec_events(),
    {
        &self.events
    }

    /// The events that fall on the day selected, in agenda order.
    pub fn events_for_day(&self) -> (r: Vec<&CalEvent>)
        requires
            self.selected < self.days@.len(),
        ensures
            r@.len() == events_on(self.spec_events(), self.spec_current_day()).len(),
            forall|i: int|
                0 <= i < r@.len() ==> *#[trigger] r@[i] == events_on(
                    self.spec_events(),
                    self.spec_current_day(),
                )[i],
    {
        let day = self.current_day();
        let mut out: Vec<&CalEvent> = Vec::new();
        let mut i: usize = 0;
        while i < self.events.len()
            invariant
                i <= self.events@.len(),
                day == self.spec_current_day(),
                out@.len() == events_on(self.events@.take(i as int), day).len(),
                forall|k: int|
                    0 <= k < out@.len() ==> *#[trigger] out@[k] == events_on(
                        self.events@.take(i as int),
                        day,
                    )[k],
            decreases self.events@.len() - i,
        {
            proof {
                let t = self.events@.take(i + 1);
                assert(t.drop_last() =~= self.events@.take(i as int));
                assert(t.last() == self.events@[i as int]);
            }
            if self.events[i].date == day {
                out.push(&self.events[i]);
            }
            i = i + 1;
        }
        assert(self.events@.take(i as int) =~= self.events@);
        out
    }

    /// Starts a fetch, unless one is under way: marks the agenda as fetching, says so in the
    /// status, and returns the first and last day to fetch. While a fetch is under way it
    /// changes nothing and returns `None`.
    pub fn refresh(&mut self) -> (r: Option<(i32, i32)>)
        requires
            old(self).fetching || old(self).days@.len() > 0,
        ensures
            old(self).wf() ==> final(self).wf(),
            old(self).fetching ==> r is None && *final(self) == *old(self),
            !old(self).fetching ==> {
                &&& r == Some((old(self).days@[0], old(self).days@[old(self).days@.len() - 1]))
                &&& final(self).fetching
                &&& final(self).status@ == fetching_status()
                &&& final(self).account == old(self).account
                &&& final(self).days == old(self).days
                &&& final(self).selected == old(self).selected
                &&& final(self).spec_events() == old(self).spec_events()
            },
    {
        if self.fetching {
            return None;
        }
        self.fetching = true;
        self.status = owned("Fetching…");
        let first = self.days[0];
        let last = self.days[self.days.len() - 1];
        Some((first, last))
    }

    /// Takes in the outcome of a fetch: the fetch is over; on success the events are
    /// replaced and the status counts them, on failure the events stay and the status shows
    /// the error.
    pub fn apply_fetch(&mut self, result: Result<Vec<CalEvent>, String>)
        ensures
            old(self).wf() ==> final(self).wf(),
            !final(self).fetching,
            final(self).account == old(self).account,
            final(self).days == old(self).days,
            final(self).selected == old(self).selected,
            match result {
                Ok(events) => {
                    &&& final(self).spec_events() == events@
                    &&& final(self).status@ == count_status(events@.len())
                },
                Err(e) => {
                    &&& final(self).spec_events() == old(self).spec_events()
                    &&& final(self).status@ == error_status(e@)
                },
            },
    {
        self.fetching = false;
        match result {
            Ok(events) => {
                let mut status = String::new();
                push_decimal(&mut status, events.len() as u64);
                status.append(" events");
                self.status = status;
                self.events = events;
            },
            Err(e) => {
                let mut status = owned("Error: ");
                status.append(e.as_str());
                self.status = status;
            },
        }
    }

    /// Selects the day before, if there is one.
    pub fn prev_day(&mut self)
        ensures
            old(self).wf() ==> final(self).wf(),
            final(self).selected == prev_index(old(self).selected as int),
            final(self).days == old(self).days,
            final(self).account == old(self).account,
            final(self).status == old(self).status,
            final(self).fetching == old(self).fetching,
            final(self).spec_events() == old(self).spec_events(),
    {
        self.selected = if self.selected > 0 { self.selected - 1 } else { 0 };
    }

    /// Selects the day after, if there is one.
    pub fn next_day(&mut self)
        ensures
            old(self).wf() ==> final(self).wf(),
            final(self).selected == next_index(old(self).selected as int, old(self).days@.len() as int),
            final(self).days == old(self).days,
            final(self).account == old(self).account,
            final(self).status == old(self).status,
            final(self).fetching == old(self).fetching,
            final(self).spec_events() == old(self).spec_events(),
    {
        // `selected + 1 < len`, written so that it cannot overflow
        if self.days.len() > 0 && self.selected < self.days.len() - 1 {
            self.selected = self.selected + 1;
        }
    }

    /// Selects today again.
    pub fn today(&mut self)
        ensures
            old(self).wf() ==> final(self).wf(),
            final(self).selected == DAYS_BACK,
            final(self).days == old(self).days,
            final(self).account == old(self).account,
            final(self).status == old(self).status,
            final(self).fetching == old(self).fetching,
            final(self).spec_events() == old(self).spec_events(),
    {
        self.selected = DAYS_BACK as usize;
    }

    /// Answers one message: `q` or Esc quits; Left or `h` steps back, Right or `l` forward,
    /// `t` returns to today, `r` starts a fetch; released and repeated keys, other keys and
    /// other events change nothing; a fetched outcome is taken in.
    pub fn step(&mut self, msg: Msg) -> (a: Action)
        requires
            old(self).wf(),
        ensures
            final(self).wf(),
            steps_to(*old(self), *final(self), msg, a),
    {
        match msg {
            Msg::Fetched(result) => {
                self.apply_fetch(result);
                Action::Draw
            },
            Msg::Key { code, press } => {
                if !press {
                    return Action::Draw;
                }
                match code {
                    Key::Char('q') | Key::Esc => Action::Quit,
                    Key::Left | Key::Char('h') => {
                        self.prev_day();
                        Action::Draw
                    },
                    Key::Right | Key::Char('l') => {
                        self.next_day();
                        Action::Draw
                    },
                    Key::Char('t') => {
                        self.today();
                        Action::Draw
                    },
                    Key::Char('r') => match self.refresh() {
                        Some((from, to)) => Action::Fetch { from, to },
                        None => Action::Draw,
                    },
                    _ => Action::Draw,
                }
            },
            Msg::OtherInput => Action::Draw,
        }
    }
}

/// Law: a step forward undoes a step back, unless the first day was selected.
pub proof fn next_undoes_prev(selected: int, count: int)
    requires
        0 < selected < count,
    ensures
        next_index(prev_index(selected), count) == selected,
{
}

/// Law: a step back undoes a step forward, unless the last day was selected.
pub proof fn prev_undoes_next(selected: int, count: int)
    requires
        0 <= selected,
        selected + 1 < count,
    ensures
        prev_index(next_index(selected, count)) == selected,
{
}

/// Law: stepping never leaves the days shown.
pub proof fn steps_stay_in_range(selected: int, count: int)
    requires
        0 <= selected < count,
    ensures
        0 <= prev_index(selected) < count,
        0 <= next_index(selected, count) < count,
{
}

/// Law: the events shown for a day are exactly the events on that day, each in the place it
/// has among them in the agenda.
pub proof fn events_on_are_on_day(s: Seq<CalEvent>, day: i32)
    ensures
        forall|i: int| 0 <= i < events_on(s, day).len() ==> (#[trigger] events_on(s, day)[i]).date == day,
        forall|i: int| 0 <= i < s.len() && (#[trigger] s[i]).date == day ==> events_on(s, day).contains(s[i]),
        events_on(s, day).len() <= s.len(),
    decreases s.len(),
{
    if s.len() > 0 {
        let d = s.drop_last();
        events_on_are_on_day(d, day);
        assert forall|i: int| 0 <= i < s.len() && (#[trigger] s[i]).date == day implies events_on(
            s,
            day,
        ).contains(s[i]) by {
            if i < s.len() - 1 {
                assert(d[i] == s[i]);
                let w = choose|w: int| 0 <= w < events_on(d, day).len() && events_on(d, day)[w] == d[i];
                if s.last().date == day {
                    assert(events_on(s, day)[w] == s[i]);
                }
            } else {
                assert(events_on(s, day)[events_on(s, day).len() - 1] == s[i]);
            }
        }
    }
}

/// Law: pressing `r` and then receiving the fetched events shows them: the agenda holds
/// exactly the events fetched, counts them in the status, is no longer fetching, and keeps the
/// day selected.
pub proof fn fetch_round_trip(
    a0: App,
    a1: App,
    a2: App,
    act1: Action,
    act2: Action,
    events: Vec<CalEvent>,
)
    requires
        a0.wf(),
        !a0.fetching,
        steps_to(a0, a1, Msg::Key { code: Key::Char('r'), press: true }, act1),
        steps_to(a1, a2, Msg::Fetched(Ok(events)), act2),
    ensures
        act1 == fetch_action(a0),
        act2 == Action::Draw,
        a2.spec_events() == events@,
        a2.status@ == count_status(events@.len()),
        !a2.fetching,
        a2.selected == a0.selected,
        a2.days == a0.days,
{
}

/// Law: while a fetch is under way, `r` is ignored: nothing changes and no second fetch
/// starts.
pub proof fn refresh_ignored_while_fetching(a0: App, a1: App, act: Action)
    requires
        a0.fetching,
        steps_to(a0, a1, Msg::Key { code: Key::Char('r'), press: true }, act),
    ensures
        a1 == a0,
        act == Action::Draw,
{
}

/// Law: a failed fetch keeps the events shown and reports the error.
pub proof fn failed_fetch_keeps_events(a0: App, a1: App, act: Action, e: String)
    requires
        steps_to(a0, a1, Msg::Fetched(Err(e)), act),
    ensures
        a1.spec_events() == a0.spec_events(),
        a1.status@ == "Error: "@ + e@,
        !a1.fetching,
        act == Action::Draw,
{
}

/// Law: `t` selects the day the agenda was opened on, wherever the selection was.
pub proof fn today_selects_opening_day(a0: App, a1: App, act: Action, today: i32)
    requires
        a0.wf(),
        forall|i: int| 0 <= i < DAY_COUNT ==> #[trigger] a0.days@[i] == today - DAYS_BACK + i,
        steps_to(a0, a1, Msg::Key { code: Key::Char('t'), press: true }, act),
    ensures
        a1.spec_current_day() == today,
{
    assert(a1.days@[DAYS_BACK as int] == today - DAYS_BACK + DAYS_BACK);
}

/// `post` is `pre` with the selection `selected` and all else kept.
pub open spec fn only_selection_moved(pre: App, post: App, selected: int) -> bool {
    &&& post.selected == selected
    &&& post.account == pre.account
    &&& post.days == pre.days
    &&& post.spec_events() == pre.spec_events()
    &&& post.status == pre.status
    &&& post.fetching == pre.fetching
}

/// Law: what each pressed key does.
/// - Left and `h` select the day before, or stay on the first day.
/// - Right and `l` select the day after, or stay on the last day.
/// - `t` selects the day the agenda opened on (the second of the seven).
/// - `q` and Esc quit and change nothing.
/// - `r` starts a fetch of the first to the last day shown, unless one is under way, when it
///   changes nothing.
/// - Any other key changes nothing.
pub proof fn keys_do_what_they_say(pre: App, post: App, code: Key, a: Action)
    requires
        pre.wf(),
        steps_to(pre, post, Msg::Key { code, press: true }, a),
    ensures
        code == Key::Left || code == Key::Char('h') ==> a == Action::Draw && only_selection_moved(
            pre,
            post,
            if pre.selected > 0 { pre.selected - 1 } else { 0 },
        ),
        code == Key::Right || code == Key::Char('l') ==> a == Action::Draw && only_selection_moved(
            pre,
            post,
            if pre.selected < 6 { pre.selected + 1 } else { pre.selected as int },
        ),
        code == Key::Char('t') ==> a == Action::Draw && only_selection_moved(pre, post, 1),
        code == Key::Char('q') || code == Key::Esc ==> a == Action::Quit && post == pre,
        code == Key::Char('r') && pre.fetching ==> a == Action::Draw && post == pre,
        code == Key::Char('r') && !pre.fetching ==> {
            &&& a == (Action::Fetch { from: pre.days@[0], to: pre.days@[6] })
            &&& post.fetching
            &&& post.status@ == "Fetching…"@
            &&& post.selected == pre.selected
            &&& post.days == pre.days
            &&& post.spec_events() == pre.spec_events()
        },
        code == Key::Other || (code matches Key::Char(c) && c != 'h' && c != 'l' && c != 't'
            && c != 'q' && c != 'r') ==> a == Action::Draw && post == pre,
{
}

/// Law: a key that is released or repeated, and any other terminal event, change nothing.
pub proof fn non_presses_change_nothing(pre: App, post: App, msg: Msg, a: Action)
    requires
        steps_to(pre, post, msg, a),
        msg is OtherInput || (msg matches Msg::Key { press, .. } && !press),
    ensures
        a == Action::Draw,
        post == pre,
{
}

/// How many of `actions` start a fetch.
pub open spec fn fetches_started(actions: Seq<Action>) -> int
    decreases actions.len(),
{
    if actions.len() == 0 {
        0
    } else {
        fetches_started(actions.drop_last()) + if actions.last() is Fetch { 1int } else { 0int }
    }
}

/// How many of `msgs` deliver the outcome of a fetch.
pub open spec fn fetches_answered(msgs: Seq<Msg>) -> int
    decreases msgs.len(),
{
    if msgs.len() == 0 {
        0
    } else {
        fetches_answered(msgs.drop_last()) + if msgs.last() is Fetched { 1int } else { 0int }
    }
}

/// The fetches under way after the first `k` messages of a run that began with `initial`
/// of them under way: those begun, less those answered.
pub open spec fn in_flight(initial: int, msgs: Seq<Msg>, actions: Seq<Action>, k: int) -> int {
    initial + fetches_started(actions.take(k)) - fetches_answered(msgs.take(k))
}

/// A run of the agenda: each message `msgs[i]` takes `states[i]` to `states[i + 1]` and asks
/// for `actions[i]`.
pub open spec fn is_run(states: Seq<App>, msgs: Seq<Msg>, actions: Seq<Action>) -> bool {
    &&& states.len() == msgs.len() + 1
    &&& actions.len() == msgs.len()
    &&& states[0].wf()
    &&& forall|i: int|
        0 <= i < msgs.len() ==> #[trigger] steps_to(states[i], states[i + 1], msgs[i], actions[i])
}

proof fn lemma_step_keeps_wf(pre: App, post: App, msg: Msg, a: Action)
    requires
        pre.wf(),
        steps_to(pre, post, msg, a),
    ensures
        post.wf(),
{
}

/// Law: at most one fetch is under way at any point of a run, and the agenda shows it as
/// fetching exactly when one is. It holds of every run that begins with at most one fetch
/// under way, shown as it is (a new agenda, or one just refreshed), where the outcome of a
/// fetch arrives only while one is under way (each fetch started is answered once).
pub proof fn one_fetch_at_a_time(initial: int, states: Seq<App>, msgs: Seq<Msg>, actions: Seq<Action>)
    requires
        is_run(states, msgs, actions),
        0 <= initial <= 1,
        states[0].fetching <==> initial == 1,
        forall|i: int|
            0 <= i < msgs.len() && (#[trigger] msgs[i]) is Fetched ==> in_flight(initial, msgs, actions, i) > 0,
    ensures
        forall|k: int|
            0 <= k <= msgs.len() ==> 0 <= #[trigger] in_flight(initial, msgs, actions, k) <= 1 && (
            states[k].fetching <==> in_flight(initial, msgs, actions, k) == 1),
{
    assert forall|k: int| 0 <= k <= msgs.len() implies 0 <= #[trigger] in_flight(
        initial,
        msgs,
        actions,
        k,
    ) <= 1 && (states[k].fetching <==> in_flight(initial, msgs, actions, k) == 1) by {
        lemma_run_prefix(initial, states, msgs, actions, k);
    }
}

proof fn lemma_run_prefix(initial: int, states: Seq<App>, msgs: Seq<Msg>, actions: Seq<Action>, k: int)
    requires
        is_run(states, msgs, actions),
        0 <= initial <= 1,
        states[0].fetching <==> initial == 1,
        forall|i: int|
            0 <= i < msgs.len() && (#[trigger] msgs[i]) is Fetched ==> in_flight(initial, msgs, actions, i) > 0,
        0 <= k <= msgs.len(),
    ensures
        states[k].wf(),
        0 <= in_flight(initial, msgs, actions, k) <= 1,
        states[k].fetching <==> in_flight(initial, msgs, actions, k) == 1,
    decreases k,
{
    if k == 0 {
        assert(actions.take(0) =~= Seq::<Action>::empty());
        assert(msgs.take(0) =~= Seq::<Msg>::empty());
    } else {
        let j = k - 1;
        lemma_run_prefix(initial, states, msgs, actions, j);
        assert(steps_to(states[j], states[j + 1], msgs[j], actions[j]));
        lemma_step_keeps_wf(states[j], states[k], msgs[j], actions[j]);
        assert(actions.take(k).drop_last() =~= actions.take(j));
        assert(msgs.take(k).drop_last() =~= msgs.take(j));
        assert(actions.take(k).last() == actions[j]);
        assert(msgs.take(k).last() == msgs[j]);
    }
}

} // verus!
