# oven_tui

The terminal interface of Oven, a coding agent, as a library whose behaviour is
stated in contracts and proved with Verus.

- `src/components/` holds the widgets of the framed interface: the input line
  with its popups and wizards, the transcript, the queue, the task list, the
  status row, and `ui.rs`, which says what keys, the mouse and the session do to
  all of them.
- `src/ui/` holds the plain interface, which shares the popups, the editor and
  the text functions with the framed one.
- `src/cli.rs` decides what the program does with its arguments.
- `src/text.rs`, `src/width.rs`, `src/style.rs`, `src/keys.rs`, `src/table.rs`
  and `src/seqs.rs` are what the widgets share.
- `tests/` runs the library on concrete values.
- `app/` is the program around it: terminal input and output, the clipboard, and
  the connection to the agent. It is not verified.

Each widget has a view: a plain mathematical value. A spec function on the view
says what a key, an event or a redraw makes of it, and the executable method
ensures exactly that. What holds of a widget over several steps stands as public
proof functions at the end of its module, or in a `laws.rs` beside it.

The editor is `tui-textarea-2`, columns are counted by `unicode-width`, bands of
the screen are split by `ratatui`, and clipboard text is encoded by `base64`. The
functions that call these crates carry their contracts without proof, and say in
their doc comments what they claim.
