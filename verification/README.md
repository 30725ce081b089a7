# mpgs

Decisions behind a service that recommends multiplayer games, verified with Verus.

- `src/ai`: what is sent to a language model and what is accepted from it; routes, rate limits
  and the circuit breaker per host.
- `src/server`: feeds and their cursors, natural language requests, ranking, community pages,
  avatars, sessions and limits, configuration files, scheduled maintenance.
- `src/dbtool`: the audit of recommendation quality, and the evaluation of learned weights.
- `src/text.rs`, `numbers.rs`, `sort.rs`, `score.rs`, `hashing.rs`: what the others share.
- `tests`: the library from outside.
- `app`: the program around it: HTTP, files, the clock, and floating point.

A `Score` stands for a double by an integer that orders as doubles do, so that ranking can be
stated and proved without floating point. What a catalog, a storage engine or a ranking engine
computes comes in as arguments.

Calls into other crates stand behind small trusted functions, each with a comment that names the
outside function and says what is believed of it.
