# bolt

The compiler of the Bolt language and its language-server logic, written as a
Verus library: every function in `src/` carries a contract that Verus proves.

## Layout

- `src/lexer.rs`, `src/parser/`, `src/parser_spec.rs`: source text to tokens to
  an AST (`src/ast.rs`), each stage specified by a recursive model of what it
  accepts and builds.
- `src/symbol_table.rs`: scoped declarations made while parsing.
- `src/type_checker/`: type inference and checking of programs.
- `src/module.rs`: loaded modules, their exports and resolved imports.
- `src/c_codegen/`: generation of one C translation unit from a program and
  its modules (statements, expressions, generic instances, native blocks).
- `src/codegen/`: the smaller expression and statement compilers and the
  naming of generic instances.
- `src/hover/`, `src/lsp_core.rs`, `src/lsp_handlers.rs`: hover texts,
  completions, diagnostics and document state of the language servers.
- `src/properties.rs`: laws that relate several operations.
- `app/`: the `bolt` command (files, GCC) and the stdin/stdout loops of the
  two language servers, which hand plain values to the library.
- `tests/`: tests of the library.
