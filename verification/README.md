# gcal-tui

A minimal agenda TUI over Google Calendar, authenticated through GNOME Online Accounts,
with its logic verified by Verus.

- `src/` is the verified library: which online accounts expose a calendar and which one is
  used, how the calendar's reply becomes agenda entries and in what order they stand, the
  agenda's state and how it answers keys and fetched events, and the rows, their tones
  (under way, begun or over, plain), whether the title's day is today, the column widths and
  the labels that the agenda shows.
- `app/` is the program around it: the D-Bus calls to the accounts daemon, the HTTP request
  to the calendar API and its JSON reply, the input and fetch threads, and the drawing with
  ratatui, which maps the tones and the title's day to colours.
- `tests/` runs the library on concrete values.

Dates are chrono's day numbers (0001-01-01 is day 1); an instant is its UTC date, the
seconds and nanoseconds past UTC midnight, and the local offset in force at it.
