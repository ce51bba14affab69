//! Mining of Keccak-256 preimages whose digests share nibble prefixes, used to
//! build deliberately deep branches of a hex Merkle-Patricia trie.
pub mod nibble;
pub mod hash;
pub mod candidate;
pub mod search;
pub mod error;
pub mod branch;
pub mod address;
pub mod cuda_miner;
