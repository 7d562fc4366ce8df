# tdlib_rs

A generator of Rust clients for TDLib, verified with Verus.

The library (`src/`) reads the Type Language schema of TDLib and produces
the text of a client crate: one struct per constructor, one enum per union
type, and one asynchronous request function per TL function, grouped by
business domain. Every function of the library carries a contract, and the
properties that span functions are proved as lemmas:

- `tl/`: types, parameters, definitions and whole schema files, with the
  laws that printing a well-formed type, parameter or definition and reading
  it back gives it again (`tl/roundtrip.rs`).
- `domain.rs`: the business-domain classification of names.
- `metadata.rs`, `graph.rs`: which constructors are recursive (and must be
  boxed) and which may derive `Default`, by reachability in the schema;
  `bare.rs` relates the latter to the recursive check over parameters and
  finds the schemas on which that check would never end.
- `rustifier.rs`: how TL names become Rust names.
- `codegen/`: the text of the generated `types`, `enums` and `functions`
  modules, each grouped into one file per business domain in ascending
  order of the domain names; every union type gets one enum whose variants
  box their payloads and come with constructor functions and `From`
  conversions, and every function lands in exactly one domain file.
  `codegen/containment.rs` shows that enums never hold a type by value, so
  a generated type can only have infinite size through structs that name
  each other by bare types.
- `stats.rs`: the counts reported by `inspect`.
- `tool.rs`: where schemas are fetched from and saved to, and the manifest
  of the generated crate.
- `runtime.rs`: how the client runtime routes the responses of TDLib.

`app/` is the command-line program (`generate`, `fetch`, `inspect`): it
handles arguments, the network and the file system, and calls the library.
The snake-case conversion of names is done by the `convert_case` crate.
