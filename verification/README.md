# terminal_editor_rust

A small terminal text editor whose editing core is verified with Verus.

- `src/` is the verified library:
  - `lines.rs`: text as lines, splitting on line feeds and joining back;
  - `cursor.rs`: positions, ranges, and the cursor with its selection;
  - `buffer.rs`: the lines of a document and `replace_range`, the one edit
    primitive, with what it does to the lines and to the text as a whole;
  - `history.rs`: undo and redo stacks with revision numbers;
  - `document.rs`: the editing actions on a buffer with cursor, viewport and history;
  - `consistency.rs`: what every action keeps, and what undo and redo give back;
  - `viewport.rs`, `terminal.rs`: scrolling, the gutter, the status line and the
    visible text of each screen row;
  - `clipboard.rs`, `editor.rs`: open documents, key and mouse events, the clipboard.
- `app/` reads the terminal's events, draws the screen and opens files.
- `tests/` runs the library on concrete inputs.
