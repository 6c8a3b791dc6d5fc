# wayland_macos

A Wayland compositor that shows Linux applications as native macOS windows, with its
logic verified in Verus.

- `src/` is the library: no I/O, no clock, no windowing calls. State goes in, and the
  state after plus a list of what to send or do comes out.
  - `wayland` and its modules: what each client request, commit and input event does.
  - `desktop`, `geometry`, `keys`, `pixels`: the windowing side, from commands and native
    events to native actions.
  - `rail`, `rail_route`: windows of a remote session.
  - `router`, `host`, `ipc`: one process per application.
  - `cli`, `timing`, `demo`: the launcher's decisions, the clock's, and test pictures.
- `app/` performs what the library decides: sockets, shared memory, AppKit, processes.
- `tests/` runs the library on concrete values.

Lengths on the screen are integers in 1/256 of a point, the precision of Wayland's
fixed-point numbers; corners of centered windows are in half of that, so that a middle is
exact. Protocol objects are known by numbers that are never used twice.
Two functions of the standard library are taken at their word: upper-casing a character,
and reading bytes as UTF-8 with replacement characters.
