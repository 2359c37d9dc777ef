# my_open_claude

The chat screen of a terminal coding assistant, as a library whose behaviour is stated
in contracts and proved with Verus.

- `src/` — the verified library: message segmentation, inline Markdown, wrapping, the
  conversation log and its persisted form, scrolling, keyboard shortcuts, the main input
  line with slash commands, the command form, the model, history and file pickers, text
  selection and copy, and the views that the screen draws (header, history blocks,
  popups, bottom bar). `laws.rs` and `listing_laws.rs` hold the properties that relate
  several operations. Calls into `textwrap`, `syntect`, `chrono` and a few `std`
  functions stand behind small trusted wrappers, each with a doc comment saying what its
  contract claims.
- `tests/` — tests of the library on concrete values.
- `app/` — the terminal side: conversions to and from `crossterm` and `ratatui`, the
  drawing of the library's views, clipboard, opening links, reading directories, and the
  key and mouse dispatch that performs what the library decides.
