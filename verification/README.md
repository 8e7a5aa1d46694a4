# ledger_boot

The start of the ledger accounting service, verified with Verus.

- `src/` decides: the order in which the service starts and what stops it
  (`boot`), the TLS settings and the files they come from (`tls`), the gRPC
  server and its callers (`grpc`), the filter for the log (`log_filter`), the
  export of traces (`telemetry`), and the snapshot task (`snapshot`). `text` holds the text
  handling, `tonic_tls` and `observability` what is taken from outside crates.
- `app/` is the service itself: it reads the environment and the files, and does
  what `src/` answers with. The store and its handlers are those of the
  `accounting_ledger` crate.
- `tests/` runs the library.
