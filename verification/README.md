# rsnano_node

The decision logic of a Banano/Nano node, written in Verus with contracts and proved:
bounded caches and queues (vote cache, recently confirmed, unchecked blocks, pulls cache,
ordered tags, throttle), elections (states, vote counting, quorum, block replacement,
cementing), schedulers (priority buckets, hinted activation, cooldowns, manual queue),
bootstrap (lazy bootstrap, bootstrap server answers, database and backlog walks, bulk
push), the node ID handshake, message filtering, and the node's and daemon's
configuration with the merging and writing of their TOML documents (single settings,
amounts as decimal text, and the sections of the components held here). Peer lists,
work peers and preconfigured representatives are not read from TOML.

Layout:

- `src/` — the verified library. Ledger, network and clock inputs enter as plain values
  (views of the ledger, times in milliseconds), so every function is proved for every
  value of them. Public proof functions state the library's laws.
- `tests/` — tests run against the compiled library.
- `app/` — what stays outside the proofs: threads and their loops, the environment,
  files, serde/TOML (de)serialisation, statistics sinks and floating point.
