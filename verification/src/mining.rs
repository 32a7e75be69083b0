//! The proof-of-work miner: its transaction types, a txid-ordered mempool,
//! difficulty checks and candidate hashing, and the mining loop itself.

pub mod error;
pub mod types;
pub mod pow;
pub mod mempool;
pub mod miner;
