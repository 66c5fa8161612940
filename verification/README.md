# flatpak-smoke

Checks that a Flatpak installs and shows a window, and captures screenshots of its windows as a
recipe asks.

- `src/` is the library: the rules of a run, as functions and state machines with contracts that
  Verus proves. It reads and writes nothing itself. Each machine says what to do next and takes in
  what came of it.
- `app/` is the `flatpak-smoke` command: arguments, processes, sockets and files around the
  library.
- `tests/` runs the library on concrete values.

What a run does is in `src/verify.rs` and `src/session.rs` for a verification, and in
`src/screenshot/run.rs` and `src/screenshot/workflow.rs` for a capture. What is taken for granted
of other crates and of the standard library is stated next to the functions that call them; their
doc comments name what they call.

The capture helper's files (`metadata.json`, `extension.js` and `client.py`) are read from
`/usr/share/flatpak-smoke/desktop/gnome`, or from the directory that `FLATPAK_SMOKE_HELPER_DIR`
names.
