//! A small Bitcoin-style toolkit: a ledger model with validation rules, a
//! merkle tree over transaction hashes, and a proof-of-work miner with a
//! txid-ordered mempool.

pub mod hashing;
pub mod ledger;
pub mod ledger_hash;
pub mod merkle_tree;
pub mod mining;
pub mod seq_sum;
pub mod text;

