# btc_lib

A small Bitcoin-style toolkit, verified with Verus.

- `src/ledger.rs`: transactions with spent/unspent outputs, blocks, their
  validation rules, and network magic numbers.
- `src/ledger_hash.rs`: hash material of ledger transactions and blocks, and
  the merkle root check.
- `src/mining/`: the miner's own transaction types and fees, a txid-ordered
  mempool, the difficulty rule and candidate hashing, and the mining search.
- `src/merkle_tree.rs`, `src/hashing.rs`, `src/text.rs`, `src/seq_sum.rs`:
  the shared merkle reduction, SHA-256 (through the `sha256` crate), decimal
  rendering and string order, and sums.
- `app/`: serde forms of the data types and mining with one thread per range.

The tests in `tests/` exercise the library on concrete values.
