//! Merkle trees over byte strings: construction, membership proofs and
//! their verification, with the SHA-256 digest as the pairwise combiner.

pub mod combiner;
pub mod error;
pub mod membership;
pub mod model;
pub mod order;
pub mod tree;

pub use crate::error::MerkleError;
pub use crate::membership::MerkleProof;
pub use crate::tree::{MerkleTree, Node};
