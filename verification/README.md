# coordin8

Coordination primitives in the Jini/JavaSpaces tradition — leases,
attribute-based discovery, durable events, a transactional tuple space and a
two-phase-commit coordinator — with the decision logic of every service
specified and proved with Verus.

Layout:

- `src/` — the verified library. `lease` (TTL negotiation, grant, renew,
  cancel, reaping), `registry` (discovery by template, re-registration,
  lease-driven removal), `event` (leased subscriptions, per-key sequence
  numbers, durable mailboxes), `space` (tuples, transactional isolation,
  watches), `txn` (the coordinator's state machine for 2PC), `proxy`
  (template resolution and the table of open proxies), `auth` (bearer-token
  checks), `bootstrap` (backoff, self-registration, remote lookups),
  `observability` (log format, metrics and trace settings, RPC labels),
  `matcher` (the template language), and the supporting `strmap`, `text`,
  `env` and `error`. Laws are the `law_*` proof functions at the end of
  their modules.
- `tests/` — tests run against the compiled library.
- `app/` — the `djinn` binary: reading the environment, signing and
  decoding tokens, the reaper and cascade loops, the commit driver, the TCP
  proxy, the `/metrics` scrape endpoint, and the command line.

The binary serves no RPC API: the gRPC services and their generated
message types are not part of this crate. It runs the services in one
process, registers them in its own Registry under their usual ports, and
drives transactions whose only reachable participant is its own Space; a
participant at any other endpoint is treated as unreachable, so such a
transaction aborts.
