# lookxy

A mail and calendar client for the terminal, with its logic verified by Verus.

- `src/` is the library. It holds the client's state and every rule of it: what a
  key or a sync event does (`app`), what the panes and popups show and where
  (`ui`), dates and times (`datetime`, `ui::calendar`), the settings (`config`),
  the names of files (`paths`), the verbs and tools that other programs call
  (`control`, `mcp`, `skill`), and the command line (`cli`). The library does no
  input or output: what it wants done it appends to `App::actions`.
- `app/` is the program around it. It draws with `ratatui`, carries the actions
  out on the mail engine, and hands back what came of them.
- `tests/` runs the library over a mailbox in memory.

The library trusts what it calls and does not prove: the widths that
`unicode-width` gives characters and texts (`ui::width`), the splitting of an area
by `ratatui` (`ui::layout`), the decoding of pictures by `image` (`ui::picture`),
and of the standard library the last component of a path and a path without its
extension (`paths`), and the appending of a character to a string (`text`).
