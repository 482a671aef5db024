# agent-shell

Desktop automation for Linux: windows, workspaces and monitors of KWin, Mutter,
Hyprland and Sway, the accessibility tree, audio, the clipboard and the
appearance settings.

- `src/` is the library. It parses what compositors and tools report, decides what
  to ask them next, and writes the commands, messages and scripts that they are
  sent. Everything in it is verified with Verus.
- `app/` talks to processes, sockets, buses and displays. It performs what the
  library decides and hands back what came of it.
- `tests/` runs the library on concrete values.

JSON is read and written with `serde_json`; `src/json.rs` holds the four functions
that call it, `src/text.rs` those that call into the standard library.
