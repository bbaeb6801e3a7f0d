# chronograph

A desktop tracker of active-window time. The library under `src/` holds the
logic, verified with Verus; `app/` is the program around it.

- `aggregator` — the session state machine: which row to close, which window
  to open a row for, what to publish as the active window; idle and pause
  handling, heartbeats, recovery after a crash.
- `tracker`, `idle` — which foreground-window readings and idle readings are
  news.
- `totals`, `names`, `view`, `history`, `duration` — today's totals per
  process, the sorted list the window shows, the app manager's lists, the
  history headings, and how durations are printed.
- `icon` — the 32×32 clock icon, drawn with exact integer geometry.
- `autostart`, `db`, `instance`, `tray` — start-up entry, database location,
  single-instance and tray decisions.

`app/` reads the windows and the clock, talks to SQLite, draws the GUI and
runs the event loops, handing plain values to the library and doing what it
returns.

Building `app/` needs two crates that `Cargo.toml` does not list, because
only `app/` uses them: `eframe` (the window and its event loop) and `x-win`
(the foreground window's process, path and title). `app/db.rs` creates the
`sessions` table itself, with the columns that the app's queries read and
write.
