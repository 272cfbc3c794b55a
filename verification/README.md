# spooky (verified core)

The decision-making core of the spooky HTTP/3 edge proxy, written in Verus:
every function in `src/` carries a contract that Verus proves.

- `routing`: host normalization, route matching and tie-breaking.
- `lb`: backend pools and the load-balancing algorithms (round robin,
  consistent hashing, random, least connections, latency aware, sticky
  connection ids).
- `errors`: upstream error classification and the retry policy.
- `guardrails`: request body size and timeout limits.
- `config`: normalization of the configuration into runtime policies,
  reporting the first violated rule.
- `runtime`: backend lifecycle state, DNS refresh results, health
  classification, connection telemetry and shared state.
- `quic_listener`: control API routing, authorization and reload checks,
  the watchdog's window verdicts, load-balancing keys, route resolution
  failures, admission answers and DNS refresh plans.
- `bridge`: hop-by-hop and `Connection`-named header stripping.
- `resilience`: CONNECT authority normalization.
- `hash`: FNV-1a hashing of bytes and socket addresses.

`app/` holds what the core leaves to ordinary Rust: conversions from the
standard library's and `http`'s types, JSON and HTTP plumbing of the
control API, the async loops of the watchdog, the request body channel,
and the floating-point benchmark gates.

Laws that span several functions are public proof functions named
`lemma_*` next to the functions they speak of.
