# tryx_postgres

A PostgreSQL storage backend for the Tryx store interface, exported as a
C ABI (`tryx_store_*`).

- `src/` is the verified library: the statements each store operation
  sends (`pg`, `statement`), the generic opcode call (`dispatch`), the
  reading of connection strings (`dsn`), of the opening configuration
  (`config`) and of JSON arguments (`json`), the JSON text read and
  written through `serde_json` (`encode`), the replies and status codes
  handed across the C boundary (`buffer`, `ffi`), a model of the tables
  and of what each statement does to them (`model`), and the laws proved
  over it (`laws`).
- `app/` runs the library's statements on a connection pool
  (`deadpool-postgres`, `tokio-postgres`), fetches the rows each query
  names, and exports the C functions.
- `tests/` exercises the library, including the store's round trips against
  an in-memory table set.
