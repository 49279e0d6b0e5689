# tui_document

A text document for terminal user interfaces, backed by the rope of the
`ropey` crate and drawn with `ratatui`.

- `src/` is the verified library. `text.rs` models a text: its lines, where
  each line starts, and how `Document::insert` cuts an inserted string into
  pieces. `rope_ops.rs` and `widget_types.rs` hold the trusted declarations
  and wrappers through which the library uses `ropey` and `ratatui`.
  `document.rs` is the document itself, `range.rs` its char ranges,
  `error.rs` its errors, `search.rs` the search iterator, and `laws.rs` the
  laws that relate the editing operations.
- `app/` holds what reaches outside the library: reading and writing
  documents through `std::io`, and the ratatui widget that draws one.
- `tests/` runs the library on concrete documents.
