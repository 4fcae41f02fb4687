//! An agenda of a Google calendar, reached through a GNOME Online Accounts account:
//! the accounts that expose a calendar and the one to use (`goa`), the calendar's events in
//! agenda order (`cal`), the days and instants they fall on (`clock`), the agenda's state and
//! how it answers keys (`app`), what it shows (`ui`), and the text it builds (`text`).
use vstd::prelude::*;

pub mod app;
pub mod cal;
pub mod clock;
pub mod goa;
pub mod order;
pub mod text;
pub mod ui;

verus! {
}
