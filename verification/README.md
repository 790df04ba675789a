# lexer

A lexer for a small block language, verified with Verus.

- `src/code.rs`, `src/slice.rs`: source text indexed by characters, and ranges of it.
- `src/diag.rs`: diagnostics that keep only what was raised furthest on.
- `src/parse.rs`: the `Parse` and `DiagParse` traits every construct implements, stated over
  a model of what recognizing it at a position yields.
- `src/items/`: the constructs (names, literals, assignments, blocks, items, lists of items),
  how each is recognized, and how each is shown.
- `src/ast/`: resolving the names of a list of items, and expanding its blocks.
- `src/lexer2/`: the second lexer: its source text, its cache of recognized items and
  errors, the layout of its diagnostics, its name and string tokens, recognizing a regular
  expression at the cursor, and the `Recog` engine that looks in the cache before recognizing
  (`Recog::recog`), recognizes items up to the end of the code (`items`), the elements of a
  construct (`construct::construct`) and one of two kinds of item (`construct::alternative`).
- `app/`: the command line, tracing, colours, and the messages shown to the user.
