# indexer

An indexer for event logs of EVM chains, in two programs:

- the **listener** fetches the logs of the watched contracts from a node,
  a bounded block range per round, and stores them in PostgreSQL;
- the **processor** reads stored logs, finds the contract that emitted each
  one in a registry, names the event from the contract's ABI, hands the log
  to the contract's handler and deletes it once handled.

`src/` is the verified library (Verus): the block-range planning of the
listener, the checks and conversions between node logs and stored rows,
the contract registry read from the `CONTRACTS` setting, event lookup by
signature digest, the handler routing of the Uniswap V3 factory, and the
reading of every setting. Their contracts are stated over `Seq`/`Map`
models, and the laws that tie them together (a stored log reads back, an
address's hex text reads back as that address, consecutive rounds cover
adjacent block ranges, the last registry entry for an address wins) are
proof functions beside them.

`app/` is the unverified shell: database queries (sqlx), the node
connection (alloy providers), tasks and rate limiting (tokio, tower), ABI
files (serde_json) and error types with `std::error::Error` (thiserror).
Run it as `indexer listener` or `indexer processor`.
