# wst

WST ("Well Structured Type") is a small language for describing data types —
enums, variants, structs, protocols and constants — that compiles to TypeScript
and to a JSON form of its syntax tree. This crate is the language's library,
verified with Verus, and a thin command-line program around it.

## Layout

- `src/` — the verified library.
  - `text.rs`: characters and strings (the few calls into `std` that the
    library trusts are here, each with its contract).
  - `lexer.rs`: source text to tokens; `lex` states what tokenizing gives.
  - `ast.rs`, `view.rs`, `copy.rs`: the syntax tree, its mathematical view, and
    copies with the same view.
  - `grammar.rs`, `parser.rs`: the grammar as spec functions over tokens, and
    the parser proved to follow it.
  - `diagnostics.rs`: reading a whole source text, and error messages.
  - `compiler.rs`, `compiler/typescript.rs`: copy resolution (`copy`,
    `@exclude`) and the TypeScript generator (`ts_output`).
  - `messages.rs`, `validator.rs`: semantic validation (`validation_errors`).
  - `laws.rs`: properties of the library as a whole, proved.
- `tests/` — tests that run the library.
- `app/` — the `wst` command: argument handling, reading files and imports,
  writing output, and the JSON format (serde).

The library does no I/O: callers hand it the parsed files of a file's imports.
