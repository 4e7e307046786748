# api

The decision logic of a contract-registry backend, written in Verus and
verified: sign-in challenges and sessions, API keys and permissions, the
database circuit breaker and connection queue, contract-signature checks
and certificate chains, batch verification, schema migrations, state
snapshots and their diffs, analytics reports, feature flags, alerting,
search inputs, table partitions, archival, the USDC payment scanner and
the marketplace (licenses, Stripe webhooks and checkout, USDC intents).

Layout:

- `src/` — the library.  Each module states its behaviour in `requires` /
  `ensures` over spec functions and views; calls into the hashing,
  encoding, signature, JSON, Stellar key, random-number and LRU crates go
  through small trusted wrappers whose contracts name what those crates
  return (`crypto.rs`, `random.rs`, `clock.rs`, and a few wrappers beside
  their single callers).
- `tests/` — tests run against the compiled library.
- `app/` — the unverified surroundings: settings read from the
  environment, JSON and JWT encodings, HTTP delivery of alerts, the USDC
  scanner's poll over HTTP, the connection queue's async waiting, and the
  figures computed in floating point.
