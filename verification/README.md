# DNeyeS

DNeyeS monitors DNS resolvers and HTTP sites, stores one event per
measurement (NDJSON files, ClickHouse, or both) and serves the DNS history
over a REST API.

Layout:

- `src/` is the verified core, written in Verus: configuration checks and
  defaults, IP address canonical form and text, elapsed times, the resolver
  catalogue, lookup plans and their events, the ClickHouse statements, the
  choice of persistence backends, file names, the API's parameter reading,
  error answers and cross origin policy.  Calls into `chrono`, `domain` and
  `http` stand behind small trusted wrappers whose contracts are documented
  where they are declared.
- `app/` is the program around it: command line, configuration file
  loading, network lookups and HTTP requests, file and ClickHouse I/O, and the
  axum server.
- `tests/` exercises the library on concrete values.
