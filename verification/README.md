# Blankstop

Blankstop is a Windows tray app that watches clipboard updates from terminal
apps and undoes soft wraps before the text is pasted. This crate holds its
logic as a library verified with Verus, and the app around it.

## Layout

- `src/sanitize.rs` and `src/sanitize/`: the sanitizer. Cleaning (line
  endings, invisible characters, a bullet before code), the text-mode reflow
  (blank edges, rule A for a few wrapped prose lines, the boundary-by-boundary
  join decision with its bracket and string context), the toast message, and
  the proof that the output ends its lines with LF alone. There is no
  separate JavaScript path: JS-like text goes through text mode like any other
  text that is not a shell session, and is not checked by a JS parser.
- `src/shell.rs` and `src/shell/`: shell sessions. Detection of bash,
  PowerShell and cmd, heredoc terminator repair, explicit continuations,
  string and token wraps.
- `src/clipboard.rs`: the listener's decisions. Handling a clipboard update
  and "Sanitize now" are runs of steps; each step takes the outcome of the
  last outside action (reading or writing the clipboard, finding the owner's
  executable, showing a toast) and names the next one. Neither writes the
  clipboard while sanitizing is disabled or paused.
- `src/state.rs`, `src/tray.rs`, `src/process.rs`, `src/layout.rs`: settings
  and their normalization, the activity log, the runtime state, the tray
  menu's actions, executable names, and window placement.
- `src/text.rs`, `src/unicode.rs`, `src/lits.rs`: character-sequence helpers,
  the Unicode case mapping that std computes, and fixed strings.
- `app/`: the Tauri app, the settings file, and the Win32 clipboard listener,
  which performs what the library's steps ask for.
- `tests/`: tests of the library.

Every function in `src/` carries a contract over sequences of characters; the
laws (`law_*`) state what holds across calls, such as when a clipboard
update is written back and what reading the written text gives.
