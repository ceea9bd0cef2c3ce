# rusqlite_derive

The verified core of the `RusqliteFetch` and `RusqliteWrite` derives: given a
struct described as plain values (its fields, their `#[rusqlite(...)]`
settings and type tokens), the library decides the read and write mappings
and proves them correct against their specifications.

- `src/model.rs` – the derive input as plain values.
- `src/table.rs` – struct settings (`from`, `table`, `crate`), first value wins, repetitions reported.
- `src/tokens.rs` – type tokens, generic-parameter detection, flattening of `aggregate(...)` options.
- `src/bounds.rs` – the `where` predicates added for generic-dependent fields.
- `src/fetch.rs` – read mapping: selected expressions, source, `SELECT` statements, field reads.
- `src/write.rs` – write mapping: validation, `INSERT` / `UPDATE` / upsert statements, binding order.
- `src/aggregate.rs` – which conversion failures an aggregate reports, which NULLs it omits.
- `src/text.rs` – joining, decimal numbers, placeholders, raw identifiers.
- `src/laws.rs` – properties proved for every input.

`app/` holds what Verus does not see: reading `syn` input into the model,
rendering the mappings with `quote`, and the runtime traits and helpers the
generated impls call through `rusqlite`.
