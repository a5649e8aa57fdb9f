# herdr-quicknotes

A popup notes manager for the Herdr terminal multiplexer: notes kept as JSON
files, a modal terminal screen with fuzzy search, clipboard copy and editing in
`$EDITOR`, and a command line for scripts.

`src/` is the library, verified with Verus:

- `clock` — instants as seconds and nanoseconds, the clock and `chrono`
  formatting behind trusted wrappers.
- `note` — notes, their identifiers, the clipboard and editor texts, and
  reading an edited text back (with the round-trip law).
- `order` — the stable, largest-first sort that lists and searches use.
- `text` — white space, trimming, lines and joining, as `std` defines them.
- `store` — where notes live: paths, which files are notes, and listing.
- `search` — the fuzzy matcher behind a trusted wrapper and the ranking of
  matches.
- `tui` — the screen's state and the key-driven state machine.
- `screen`, `layout` — what the screen shows, and where.

`app/` is the program: argument parsing, file I/O, JSON, the clipboard, the
external editor and drawing with `ratatui`.
