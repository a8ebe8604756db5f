# arcp

The Agent Runtime Control Protocol: message types, identifiers, leases and
budgets, and the decisions of a runtime (handshake, resume, admission of
jobs, idempotent retries, cancellation, subscriptions, flow control),
written in Verus with their contracts proved.

Layout:

- `src/` — the library. `ids`, `envelope`, `error`, `messages/*` hold the
  protocol's data and its parsers (agent references, `cost.budget`
  amounts, `*` globs); `runtime/*` holds the runtime's state machines and
  decisions; `decimal`, `text`, `table`, `time` are the arithmetic, string
  and association-list groundwork; `json` declares the few `serde_json`
  queries the logic makes.
- `tests/` — tests run against the compiled library.
- `app/` — the `arcp` command: the JSON wire form (serde mirrors of the
  library types), the WebSocket and stdio transports, and the connection
  loop that runs the library's decisions with tasks and timers.
