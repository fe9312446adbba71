# gluesql_core (storage tracing slice)

A Verus library for the part of a SQL engine that sits between the executor and a
storage: the route by which every storage call passes, an iterator wrapper that counts
what a storage scan yields, the user-defined-function and fetch steps of the executor,
the `Glue` entry point, and the planning behind the storage-instrumenting attribute.

Layout:

- `src/store.rs` — the storage traits, each with a model (`schemas`, `scanned`,
  `functions`) that its methods' contracts speak of, and relations naming the errors
  that the calls the executor builds on may give.
- `src/trace.rs` — one function per storage method; each hands its arguments over and
  promises what the trait promises.
- `src/traced.rs` — `TracedResultIterator`, which passes items through unchanged and
  counts rows, errors and completion, recording them in a `tracing` span when dropped.
- `src/executor/` — `CREATE FUNCTION` / `DROP FUNCTION` (`alter.rs`), row and column
  fetching with expression filters (`fetch.rs`), and statement dispatch (`execute.rs`).
- `src/translate.rs` — binding of statement parameters.
- `src/glue.rs` — planning and executing a list of statements in order.
- `src/instrument.rs` — what the storage-instrumenting attribute adds to each method. By
  default a span records only the counts of `rows` and `keys`: no argument values, keys,
  row contents or error messages; `capture = "full"` records them, `capture = "off"`
  records only the error of a returned `Err`.
- `src/attribute.rs` — the attribute on its tokens: `syn` parses the options and the
  `impl` block, each node is read into plain values, and `instrument::expand` plans them.
- `src/memory.rs` — an in-memory storage that implements the traits, with `src/named.rs`
  holding the lemmas about lists of named items that it rests on.
- `app/` — the attribute's output: the planned `tracing::instrument` attributes and
  iterator wrappers written with `quote`, and its errors placed on their tokens; the error type with its
  `serde` and `thiserror` derives, and a `fetch` that emits the `full_scan` access-path
  event before it calls the library's `fetch`.
