# query_table

A verified library behind a terminal viewer for the rows of a database
query, written in Verus.

- `src/value.rs`: database values and how a cell shows them.
- `src/row.rs`: a result row, a map from column names to values.
- `src/text.rs`: character-level string work (order, lines, flattening).
- `src/screens.rs`: the table of a result: sorted headers, cells, and the
  window of columns that fits on screen.
- `src/layout.rs`: screen areas; the vertical split and text widths come
  from ratatui through trusted wrappers.
- `src/app.rs`: the table view's state, what each key does, and what a
  frame shows.
- `src/query.rs`: output formats, table commands, events and errors.
- `src/laws.rs`: properties that span several operations.
- `app/`: the terminal, keyboard and clipboard around the library.
- `tests/`: tests of the library on concrete values.
