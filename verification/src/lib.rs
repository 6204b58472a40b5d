//! A small in-memory blockchain simulation: toy XOR-based signatures over
//! fixed-length bit keys, SHA-256 chained blocks over a canonical byte
//! encoding of the transactions, and a Borda-count witness election over
//! randomized ballots.

pub mod chain;
pub mod codec;
pub mod hashing;
pub mod keys;
pub mod signature;
pub mod types;
pub mod voting;
