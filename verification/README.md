# devsql

The verified core of a SQL layer over coding-assistant data and source trees.

- `src/` is the library, verified with Verus: transcript discovery from walked
  directory entries, the session listing (newest first) and search, the rows of
  the virtual tables (`transcripts`, `sessions`, `todos`, `jhistory` /
  `codex_history`), the per-session aggregation, the symbol-level semantic diff,
  the line views of source files, and the tree-sitter language table and
  queries. Every public function states what it returns, except where the result is
  a tree-sitter object, whose inside Verus cannot see (the contracts then say
  which grammar and which query source it was made from, and when it is
  refused); the laws of the library are public proof functions beside the
  functions they relate.
- `app/` is the I/O around it: walking directories, reading files, parsing JSON,
  the GlueSQL storage traits, the SQLite loaders and reading blobs from Git.
- `tests/` runs the library on concrete values.
