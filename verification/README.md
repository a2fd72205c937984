# umbr

A screen locker for Wayland whose look is written in a small layout
language. The library (`src/`) is verified with Verus; the program around it
(`app/`) talks to the compositor, the GPU and the shell.

Library modules:

- `tokens`, `parser`: the layout language, read from text into a `Uheex`
  tree (`parse_document`); every outcome is stated by `parse_spec`.
- `codegen`: the Slint component for a layout (`Uheex::to_slint`).
- `duration`: durations such as `500ms` or `2m` (`DurationHuman::from_str`).
- `vars`: variables whose values come from shell commands
  (`Uheex::shell_commands`, `Uheex::resolve_vars`).
- `markup`: the tag markup (`<ui.label :text="Hi"/>`, `<% @name %>`).
- `state`: the password being typed (`PasswordBuffer`).
- `session`: the decisions of the lock itself: what the interface does with a
  message from the windowing side, when the lock surface is announced, when a
  password unlocks, and what a key press does to the typed password.
- `render`, `font`: the parts of drawing that need no floating point: color
  codes, alignments, the bitmap font and frames read back from the GPU.
- `text`: string helpers; `laws`: properties of the parser and code
  generator taken together.

`tests/` runs the library on concrete layouts and inputs.
