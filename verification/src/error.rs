//! The ways in which building a tree or a proof can fail.

use vstd::prelude::*;

verus! {

/// Why an operation was refused.
#[derive(Debug, Clone, Copy, PartialEq, Eq, Structural)]
pub enum MerkleError {
    /// A tree was asked for over `len` leaves, fewer than two.
    DataTooShort { len: usize },
    /// A proof was asked for the leaf at `index` of a tree with only
    /// `leaf_count` leaves.
    IndexOutOfRange { index: usize, leaf_count: usize },
    /// A proof without any node was offered.
    EmptyProof,
}

impl MerkleError {
    /// The text that describes the failure.
    pub open spec fn spec_message(self) -> Seq<char> {
        match self {
            MerkleError::DataTooShort { .. } => "merkle data length less than 2!!!"@,
            MerkleError::IndexOutOfRange { .. } => "index greater than length of the merkle data!!!"@,
            MerkleError::EmptyProof => "merkle proof is empty!!!"@,
        }
    }

    /// Describes the failure in words.
    pub fn message(&self) -> (r: &'static str)
        ensures
            r@ == self.spec_message(),
    {
        match self {
            MerkleError::DataTooShort { .. } => "merkle data length less than 2!!!",
            MerkleError::IndexOutOfRange { .. } => "index greater than length of the merkle data!!!",
            MerkleError::EmptyProof => "merkle proof is empty!!!",
        }
    }
}

} // verus!
