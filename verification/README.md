# portal_storage

The storage of one node of a content network. A node keeps the content nearest to it, within a fixed
number of bytes: once these are used up, the farthest content is dropped first, and content outside
the radius that remains is refused.

- `src/` decides. Operations are state machines: a method of `PortalStorage` starts one, and the
  method of the same name that ends in `_reply` goes on from a database's answer. Everything in it is
  verified with Verus; `hex_text.rs` holds the one call that is trusted.
- `src/databases.rs` models what the databases hold and how they answer. `src/store_run.rs`,
  `src/store_if_should_run.rs`, `src/history.rs` and `src/laws.rs` state and prove what follows for
  whole operations.
- `app/` performs the database calls and runs the event loop.
- `tests/` runs the operations against SQLite.
