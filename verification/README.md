# opc-da-client

An OPC DA client core and its interactive terminal front end, written in Verus.
The library under `src/` is verified: its functions carry contracts
that Verus proves, and the properties that span several calls are stated and
proved as lemmas.

## Layout

- `src/worker/` — the request worker: the two-tier priority queue, the connection
  pool with its LRU eviction, circuit breaker and retry policy, and the read, write
  and browse operations run on a pooled connection.
- `src/connector/` — the server, group and connector interfaces the worker is
  written against, the reading of name enumerations that arrive in batches, and an
  in-memory implementation of the interfaces.
- `src/catalog.rs` — resolving the registered server classes of a host, and the
  catalog order (by ProgID, each once).
- `src/variant.rs` — display text of variant values and the conversions between
  variants and tag values.
- `src/discovery.rs`, `src/security.rs`, `src/builder.rs` — registry inspection
  rules, DCOM authentication levels and client configuration.
- `src/tui/` — the terminal application's state machine: screens, key commands,
  selection, search, and the background work it requests.
- `src/types.rs`, `src/error.rs`, `src/text.rs`, `src/clock.rs`,
  `src/collector.rs` — shared types, errors, text helpers, time and the browse
  collector.
- `app/` — the terminal program: terminal setup, the event loop, rendering with
  ratatui, logging, and the worker thread.
- `tests/` — tests of the library.

The worker serves requests through the connector interfaces; the program runs it
with the in-memory connector, since the COM bindings are Windows-only.
