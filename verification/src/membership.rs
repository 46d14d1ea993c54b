//! Membership proofs: the nodes that lead from one leaf to the root, and the
//! check that they do.

use crate::combiner::combine;
use crate::error::MerkleError;
use crate::model::{level_view, spec_recompute, spec_verify};
use crate::tree::Node;
use vstd::prelude::*;
use vstd::std_specs::iter::IteratorSpec;

verus! {

/// A node of a proof.
pub type Hash = Vec<u8>;

/// A membership proof: one node for each level of the tree at which the
/// leaf's ancestor was combined, bottom to top. It holds at least one node.
#[derive(Debug)]
pub struct MerkleProof {
    nodes: Vec<Hash>,
}

impl View for MerkleProof {
    type V = Seq<Seq<u8>>;

    /// The nodes of the proof, bottom to top.
    closed spec fn view(&self) -> Seq<Seq<u8>> {
        level_view(self.nodes@)
    }
}

impl MerkleProof {
    #[verifier::type_invariant]
    spec fn holds_a_node(&self) -> bool {
        self.nodes@.len() > 0
    }

    /// Makes a proof of the given nodes, of which there must be at least one.
    pub fn new(nodes: Vec<Hash>) -> (r: Result<MerkleProof, MerkleError>)
        ensures
            nodes.len() == 0 ==> r == Err::<MerkleProof, MerkleError>(MerkleError::EmptyProof),
            nodes.len() > 0 ==> r is Ok && r->Ok_0@ == level_view(nodes@),
    {
        if nodes.is_empty() {
            return Err(MerkleError::EmptyProof);
        }
        Ok(MerkleProof { nodes })
    }

    /// The nodes of the proof, bottom to top.
    pub fn nodes(&self) -> (r: &Vec<Hash>)
        ensures
            level_view(r@) == self@,
            r.len() > 0,
    {
        proof {
            use_type_invariant(self);
        }
        &self.nodes
    }

    /// Recomputes the root that this proof gives for `leaf`.
    pub fn recompute(&self, leaf: &Node) -> (r: Node)
        ensures
            r@ == spec_recompute(leaf@, self@),
    {
        let mut hash: Node = leaf.clone();
        let mut i: usize = 0;
        proof {
            assert(self@.skip(0) =~= self@);
        }
        while i < self.nodes.len()
            invariant
                i <= self.nodes.len(),
                spec_recompute(leaf@, self@) == spec_recompute(hash@, self@.skip(i as int)),
            decreases self.nodes.len() - i,
        {
            proof {
                assert(self@.skip(i as int).drop_first() =~= self@.skip(i + 1));
            }
            hash = combine(self.nodes[i].as_slice(), hash.as_slice());
            i += 1;
        }
        hash
    }

    /// Whether this proof shows `leaf` to be a leaf of the tree with the
    /// given root.
    pub fn verify_proof(&self, leaf: &Node, root: &Node) -> (r: bool)
        ensures
            r == spec_verify(leaf@, self@, root@),
    {
        let hash = self.recompute(leaf);
        let same = hash == *root;
        assert(same == (hash@ =~= root@));
        same
    }
}

impl IntoIterator for MerkleProof {
    type Item = Hash;

    type IntoIter = std::vec::IntoIter<Hash>;

    fn into_iter(self) -> (it: std::vec::IntoIter<Hash>)
        ensures
            level_view(it.remaining()) == self@,
    {
        self.nodes.into_iter()
    }
}

impl<'a> IntoIterator for &'a MerkleProof {
    type Item = &'a Hash;

    type IntoIter = std::slice::Iter<'a, Hash>;

    fn into_iter(self) -> (it: std::slice::Iter<'a, Hash>)
        ensures
            level_view(it.remaining().unref()) == self@,
    {
        self.nodes.iter()
    }
}

} // verus!
