# herdr

The verified core of a terminal workspace manager: the workspace switcher and picker, the
directory search behind them, and the two-character jumps of copy mode.

- `src/` is the library, verified with Verus. The state of the application, what keys and mouse
  events do to it, the rows that are shown and where they stand, and the steps that draw them each
  have a contract over a mathematical model. `switcher_laws.rs` and `picker_laws.rs` hold what is
  proved of several operations together. What the proofs take on trust are the contracts of a few
  calls: `char::is_uppercase`, `char::to_lowercase`, `char::is_alphanumeric`, `char::from_u32`,
  `str::to_lowercase`, `String::push`, `String::pop` and `String::clear` of the standard library,
  and `Rect::new`, `Rect::union` and `Block::inner` of ratatui. A comment above each says what is
  claimed of it.
- `app/` is the ordinary Rust around it: it runs the directory provider, reads directories,
  translates keys, captures panes and carries out the drawing steps.
- `tests/` runs the library on concrete values.
