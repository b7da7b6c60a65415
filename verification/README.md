# phosphor_tui

The terminal interface of the phosphor sequencer, as a library of verified
layout functions: what each panel shows for the state it is given.

- `src/` is the library. Each function states what it returns in terms of
  `Seq`s of styled text or of cells, and Verus proves it. The laws of the
  interface are public proof functions beside the code they are about, or
  clauses of the functions themselves: a window holds its cursor, a saved
  theme reads back as itself, a name cut to its room never runs past it, and
  the rows of the keyboard bands are no wider than the pane.
- `app/` is what cannot be proved here: turning the library's styled text
  into ratatui's, the readings that are made of floating-point numbers, the
  waveform reduction and its cache, the theme preference on disk, and the
  clock the blinking indicators share.
- `tests/` runs the library on concrete values.

Five functions are trusted rather than proved, each a call into code
outside the crate: `config_field` and `config_text` in `src/config.rs`,
which read and write the theme preference as JSON through `serde_json`;
`lowercase` in `src/clips.rs` and `uppercase` in `src/clip_view.rs`, which
call std's `str::to_lowercase` and `str::to_uppercase`; and `push_char` in
`src/text.rs`, which calls `String::push`.
