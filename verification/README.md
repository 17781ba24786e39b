# rlyeh type-checking core, verified

A Verus library holding the parts of the rlyeh type checker that compute on
types and syntax trees, each with a contract proved by Verus.

Layout of `src/`:

- `ty.rs`, `render.rs`: the `Type` language, its model `Ty`, classifications,
  structural equality, compatibility, and the canonical text of a type.
- `subst.rs`, `generic.rs`: substitutions, unification (with the law that
  unification recovers an instance), occurrence tests, `Self` replacement,
  instance keys of generic functions.
- `binary.rs`, `misc.rs`: operator typing, built-in signatures, run-time type
  identities (FNV-1a of the canonical text), `dyn Any` checks.
- `resolve.rs`: disjointness of union members, with an exact characterization
  of when two members overlap and the law that overlap does not depend on
  their order (except for a leafless union nested inside the other member).
- `layout.rs`: heap slot counts of types and the tags of enum variants.
- `symbols.rs`: traits, trait implementations, associated types, callables
  and the trait bounds of generic parameters.
- `format.rs`: format strings (`{}`, `{:?}`, `{:<fill><align><width>}`).
- `ast.rs`, `desugar.rs`, `context.rs`: the syntax tree that the desugarings
  build, its model, and the part of the checking context they read.
- `iterator.rs`: the expansion of the iterator adapters (`map`, `filter`,
  `fold`, `take`, `skip`, `collect`) into a loop.
- `json_ser.rs`, `json_de.rs`, `toml_de.rs`, `calls.rs`: the expansions of
  `json.stringify`, `json.parse`, `json.try_parse`, `toml.parse`,
  `toml.try_parse`, `json.to_writer` and `json.from_reader`.

Not part of this library: the expression checker proper, which lowers
expressions to the typed intermediate representation (calls, method
dispatch, slicing, built-in methods, pattern matching, closures, heap
values) and resolves written types against the declared items. It rests on
parts of the type checker that this library does not hold: statement and
item checking, variable scopes and constants, method and trait-impl lookup,
field layouts, and the comparison and membership operators. Where one of
its steps is a pure computation on types or syntax trees (the desugarings,
the iterator adapters, operator typing, unification, union disjointness,
layouts), that step is here, and the checker's results it needs (an
inferred type, a resolved target type) are taken as arguments.

`tests/` runs the library on concrete inputs.
