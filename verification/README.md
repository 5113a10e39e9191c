# approuter

A reverse proxy that routes requests by hostname to registered backend apps,
with a request-metrics catalog, self-checks of its public paths, visitor
analytics, tunnel-provider bookkeeping and Cloudflare DNS/tunnel helpers.

- `src/` is the library, written in Verus: routing, registry rules, metrics
  aggregation, analytics statistics, self-check counters, tunnel metrics,
  configuration parsing and the Cloudflare request/response logic, each with
  its contract, plus proof functions stating the properties that span several
  operations.
- `tests/` runs the library on concrete values.
- `app/` is the program around it: command-line handling, the HTTP server,
  file and network I/O, child processes, and the serde copies of library types.
