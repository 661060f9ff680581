# tezedge_node

Verified core of a Tezos node's monitoring RPC, context-storage statistics and
context-action channel, written in Verus.

- `src/` — the verified library:
  - `top_n` — a bounded collection that keeps the greatest ranked items offered to it
    (the fat tail of the slowest context actions);
  - `str_map` — a small string-keyed map with a `Map` view;
  - `service_stats` — counting context actions per kind and per type of key, dropping
    stored values from reported actions, and the sorted fat tail;
  - `hash_encoding` — block hashes as base58check text and back;
  - `monitor` — counts of applied blocks and snapshots;
  - `service` — routing of the monitoring endpoints and the "bootstrapped" answer;
  - `channel` — the context actions and the channel that carries them.
- `app/` — the unverified rest: the process-wide channel, the HTTP server, the
  floating-point speeds and time totals, parallel processing, and serialisable copies of
  the library's types.
- `tests/` — tests of the library.
