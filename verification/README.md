# barduck

A single-binary home dashboard: configured shell commands (scheduled
queries, continuous JSON-line streams, composite commands fanning out to
several values) and pushed items become readings, fetch logs and health,
shown in a terminal dashboard, a web grid and query commands.

- `src/` — the verified library (Verus): configuration checking, composite
  expansion and environment overrides; output and ingest parsing;
  scheduling and the collector's decisions; health; the terminal and web
  dashboards' view models, styles and markdown safety; the query commands'
  formatting. `src/outside.rs` holds every call into an outside crate, each
  with the contract it is trusted for; `src/laws.rs` holds the properties
  that relate several functions.
- `tests/` — tests run against the compiled library with the real outside
  crates.
- `app/` — the program around it: the command line, reading the TOML file,
  running commands, the DuckDB store, the collector's tasks and the
  terminal.

Not served by this program: the web dashboard and the HTTP API (including
the ingest endpoint that feeds `ingest` sources, and the `--daemon` routing
of the query commands). Their decisions are in the library (`web::grid`,
`web::panels`, `api::check_ingest`, `api::check_poll_request`), but no HTTP
server runs them, so `ingest` sources receive no data and `--daemon` is
refused.
