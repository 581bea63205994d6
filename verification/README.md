# gitp2p

Trusted local-first Git vaults: metadata records, trust zones, policies,
signed checkpoints, retention, peer synchronisation, discovery and recovery.

The library in `src/` is written in Verus: every function carries a contract
that Verus proves. It holds the decisions and computations; the program in
`app/` reads and writes files, runs git, keeps the clock and talks to
the network, carrying out what the library decides.

Layout of `src/`:

- `text`, `util`, `kv`, `digest`: text helpers, escaping, the key-value
  record format and SHA-256 digests.
- `models`, `error`: the records and the error type.
- `identity`, `layout`: identifiers and where things are stored.
- `zones`, `policies`, `signing`: trust zones, vault and repository policies,
  signed payloads, ECDSA P-256 key pairs, signing and signature checks.
- `vault`, `checkpoint`, `retention`, `lineage`: vaults, repositories,
  checkpoints, pruning and checkpoint lineage.
- `sorting`: stable sorting and deduplication, specified over views.
- `peering`, `discovery`, `trust_graph`: federation peerings and how two
  domains are connected, discovery of domains, gateways, vaults and
  replicas, and the trust graph.
- `sync`, `replication`, `sync_run`: sessions, the concurrent sync limit,
  and, as state machines, the replication of a repository to a peer and the
  synchronisation that leads to it.
- `recovery`, `reconciliation`: recovery sources and candidates, and the
  reconciliation of imported checkpoints.
- `settings`, `tooling`: settings from the environment and the outcome of
  external commands.
