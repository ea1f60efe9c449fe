# timon

A terminal and SSH client library whose logic is verified with Verus.

- `src/` is the verified library: saved records and their edit forms, the management pages
  (search, lists, statistics, logs), terminal key and mouse encoding, selections and grid
  snapshots, colour themes, shortcuts, the tab strip, and the decisions behind SSH, local,
  serial and SFTP sessions. `workspace` holds the main window as a state machine:
  `update` takes the window's state and an event (a user action, or the outcome of outside
  work) and returns the next state and the outside work to do, as `update_step` states.
  Each public function states its result in `ensures`; laws that relate several functions
  are public proof functions (`lemma_*`).
- `tests/` runs the library on concrete values.
- `app/` is a small command-line front end: it reads the workspace database and settings,
  prints the management pages, or opens one connection and relays this terminal to it. The
  network, pseudo-terminal, serial and SQLite work happens there; `app/window.rs` runs the
  database side of the window's state machine.
