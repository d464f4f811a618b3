# myexpl

The front end of a compiler for ExpL, a small teaching language: symbol
tables, the typed syntax-tree constructors that the grammar's actions call,
and the checks they run. The library in `src/` is verified with Verus.

- `decimal`: reading a `u32` literal from its text and writing it back.
- `type_table`: the language's types (`int`, `bool`, `str`, `void`, pointers
  and arrays of scalars) and the builder that assembles a declared type.
- `symbol`: symbols, scoped symbol tables and the symbol builder; variables
  are laid out in memory as they are declared.
- `ast`: the syntax tree and the type and source span of each node.
- `utils`: the node constructors, which type-check their operands, and the
  label generator.
- `frontend`: the shared parser state (global and local tables, the current
  function's parameters) and the declaration and lookup actions.

Source positions are `lrpar::Span`s. The grammar's actions hand the library
each token's text and span. `app/` holds the command-line driver and the
lexer-side conversions for the actions without preconditions. The lexer and
the parser are generated from grammar files by a build script, and code
generation lives beside them; none of these is part of this build, so the
driver reads and checks its input file and then stops with an error: it does
not compile programs.
