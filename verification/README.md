# fwlog

Firewall log ingestion with proved contracts: parsing Sangfor, key/value and rule-based
lines into canonical events, routing lines to parsers, learning adaptive field rules, and
the storage, archive, search and export rules of the `fwlogd` daemon.

## Layout

- `src/` is the library, written in Verus. Every executable function carries a
  `requires`/`ensures` contract over spec functions and views, and Verus proves it.
  - `text`, `event`, `ip`, `calendar`, `paths`: strings, events, addresses, time and paths.
  - `sangfor`, `generic`, `rule`, `route`, `engine`, `learn`, `control`, `diagnostics`:
    the parser layers, how a line is routed through them, and adaptive field rules.
  - `spool`, `worker`, `import`: the ingest queue, batch parsing and bulk imports.
  - `store`, `rows`, `hybrid`, `dual_db`, `remote`, `unified`: query building, column rows
    and routing between the local database and a remote store.
  - `archive`, `frozen_index`, `parquet_search`, `cold_search`, `governor`, `rollup`:
    archive files, their indexes and searches, and the periodic archive and lifecycle work.
  - `api`, `export`, `config`, `region_db`, `metrics`: the HTTP API's rules, export jobs,
    configuration defaults, IP region lookups and counters.
  - `laws`: properties that relate several operations, stated and proved as proof functions.
  - Calls into chrono, regex, sha2, arrayvec, rayon, xdb-parse and a few std functions go
    through small trusted wrappers whose doc comments say what their contracts claim.
- `tests/` runs the library on concrete values.
- `app/` is the daemon: configuration files, sockets, the HTTP server, DuckDB, archive
  files and the async plumbing, calling the library for every decision.
