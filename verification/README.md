# timecat

A large seven-segment digital clock for terminals, with the current and
next calendar events underneath and a flashing alert before meetings.

The library under `src/` holds the clock's logic, verified with Verus:

- `text`: building strings, trimming, splitting fields and lines, decimals.
- `width`: display widths (through `unicode-width`), truncation, centering.
- `digits`: the glyphs and the rendering of the big clock.
- `layout`: the clock scale and where the clock and calendar lines go.
- `time`: moments on the local clock, parsed through `chrono`.
- `events`: calendar events, read from tab-separated lines, and their order.
- `calendar`: the calendar state, the lines shown, the alert due.
- `json`: the Google Workspace CLI request and answer (through `serde_json`).
- `alert`: the alert state, dismissal and flashing colours.
- `frame`: the screen as text fragments and the drawing steps for it.
- `control`: input events, command-line requests, redraw decisions.

`app/main.rs` is the program around it: the terminal session (crossterm),
the clock loop, environment variables and the calendar programs it runs.
