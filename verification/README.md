# MongoKeeper

MongoKeeper wraps a MongoDB collection so that every update, replace, or delete archives the
document's previous version into a companion history collection first, in one transaction with
the mutation.

The decisions are a library verified with Verus; the conversation with the server is ordinary
Rust around it.

- `src/` is the library. `collection.rs` opens the two collections and begins mutations,
  `model.rs` says what each write archives, `transaction.rs` is the machine that says what to
  ask of the server next, `retry.rs` and `retention.rs` hold the rules about time, and
  `driver.rs` lists what is taken from the driver and from `bson` without proof.
- `src/laws.rs` states and proves what holds of whole runs, whatever the server answers: a
  transaction leaves everything or nothing, a mutation follows its archive, every changed
  document has its previous version in the history, and retries end with their window.
- `src/trail.rs` does the same for several calls on one collection, one after the other or at
  the same time: the history is append-only, and followed by the current document it is the
  full sequence of versions.
- `app/` performs the requests with the asynchronous driver.
- `tests/` drives the machine against a server that lives in memory.

A transaction needs a replica set or a sharded cluster. On a standalone server, collections
opened with `new_standalone` archive and mutate in two steps: a failure in between can leave a
history entry whose mutation never happened, and never the reverse.
