# lesson_viewer

A terminal reader for a book of Markdown lessons (`./book`, ordered by its `SUMMARY.md`),
which draws each lesson with styled headings, lists, quotes, tables and syntax-highlighted
code boxes, and remembers which lessons were read in `progress.json`.

- `src/` is the library, verified with Verus:
  - `text.rs`: character-level helpers (lines, trimming, searching, decimal numbers);
  - `style.rs`: styled spans and lines;
  - `events.rs`, `highlight.rs`: the Markdown parser's events and syntect's highlighting;
  - `render_spec.rs`, `markdown.rs`, `code_block.rs`, `table.rs`: how a document is drawn,
    stated as a state machine over its events, and the code that draws it;
  - `render_laws.rs`: properties of drawn documents (blank lines, box and table widths);
  - `content.rs`, `models.rs`: lesson titles, the table of contents, progress;
  - `app.rs`: the reader's state and what each key does, with its laws.
- `app/` is the program around it: terminal set-up, the event loop, drawing with ratatui,
  and reading and writing files.
- `tests/` runs the library on concrete inputs.
