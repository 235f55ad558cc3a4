# tpbuffers

A code generator for Tech Paws Buffers: from a description of structs,
enums, constants, RPC methods, signals and directives it writes whole Rust
and Swift files: the models, the buffer readers and writers, the constants
and the RPC glue. For Kotlin it builds the constants, the struct models,
the enum cases and the RPC call functions, with a writer for Kotlin
source; for Dart, the file header, the struct models (copied by value, or kept
in a pool for the `emplace` memory kind), the enum buffer code and a
writer for Dart source.

The library under `src/` is written in Verus. Every generator states, in
its contract, the exact text or the exact tokens it produces, as spec
functions over the nodes, and Verus proves the code against them.

- `writer.rs` — the indenting text writer and its model, `WriterState`.
- `text.rs` — small text helpers, and the one call into `convert_case`.
- `ast.rs` — the nodes, their views, and the lookups of directives.
- `rust_generator.rs`, `rust/` — the Rust file: models, buffers, constants.
- `swift/`, `kotlin/`, `dart/` — for each language an intermediate
  representation of the source with its writer, and the generators that
  build it.
- `rust/rpc.rs` and `swift/generator.rs` — the RPC handlers and callers.
- `lexer.rs` — the literals and the tokenizer of the description language.
- `parser.rs` — the grammar of the description language: a parser whose
  contract is a spec function over the tokens.

`app/` is the command line front end: it reads a description, checks it,
runs a generator and writes the file. `tests/` holds the tests.
