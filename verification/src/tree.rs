//! The tree itself: built once from its leaves, then only read.

use crate::combiner::combine;
use crate::error::MerkleError;
use crate::membership::MerkleProof;
use crate::model::{
    is_tree, lemma_proof_verifies, lemma_tree_levels_is_tree, level_view, levels_from,
    levels_view, path_from, spec_next_level, spec_proof, spec_verify, tree_levels,
};
use vstd::prelude::*;

verus! {

/// A node of the tree: the bytes of a leaf, or what combining made of the
/// nodes below.
pub type Node = Vec<u8>;

/// Builds the level above `level`.
pub fn next_level(level: &Vec<Node>, leaf_level: bool) -> (next: Vec<Node>)
    ensures
        level_view(next@) == spec_next_level(level_view(level@), leaf_level),
{
    let ghost above = spec_next_level(level_view(level@), leaf_level);
    let n: usize = level.len();
    let mut next: Vec<Node> = Vec::new();
    let mut i: usize = 0;
    while n - i >= 2
        invariant
            n == level.len(),
            i <= n,
            i == 2 * next.len(),
            above == spec_next_level(level_view(level@), leaf_level),
            forall|j: int| 0 <= j < next.len() ==> next[j]@ == above[j],
        decreases n - i,
    {
        let node = combine(level[i].as_slice(), level[i + 1].as_slice());
        next.push(node);
        i += 2;
    }
    if i < n {
        if leaf_level {
            let node = combine(level[i].as_slice(), level[i].as_slice());
            next.push(node);
        } else {
            let node = level[i].clone();
            next.push(node);
        }
    }
    next
}

/// Copies a level node by node.
fn copy_level(level: &Vec<Node>) -> (copy: Vec<Node>)
    ensures
        level_view(copy@) == level_view(level@),
{
    let mut copy: Vec<Node> = Vec::new();
    let mut i: usize = 0;
    while i < level.len()
        invariant
            i <= level.len(),
            copy.len() == i,
            forall|j: int| 0 <= j < i ==> copy[j]@ == level[j]@,
        decreases level.len() - i,
    {
        let node = level[i].clone();
        copy.push(node);
        i += 1;
    }
    copy
}

/// A Merkle tree: the leaves it was built from and every level above them.
#[derive(Debug)]
pub struct MerkleTree {
    tree: Vec<Vec<Node>>,
}

impl View for MerkleTree {
    type V = Seq<Seq<Seq<u8>>>;

    /// The levels of the tree, bottom to top.
    closed spec fn view(&self) -> Seq<Seq<Seq<u8>>> {
        levels_view(self.tree@)
    }
}

impl MerkleTree {
    /// The leaves that the tree was built from.
    pub open spec fn leaves(&self) -> Seq<Seq<u8>> {
        self@[0]
    }

    /// The root: the single node of the top level.
    pub open spec fn root(&self) -> Seq<u8> {
        self@.last()[0]
    }

    /// The levels are those of the tree over the leaves, which are two or
    /// more. This holds of every tree.
    pub open spec fn well_formed(&self) -> bool {
        &&& self.leaves().len() >= 2
        &&& self@ == tree_levels(self.leaves())
    }

    #[verifier::type_invariant]
    spec fn built_from_leaves(&self) -> bool {
        self.well_formed()
    }

    /// Builds the tree over the leaves `data`. It is refused where there are
    /// fewer than two.
    pub fn new(data: &Vec<Node>) -> (r: Result<MerkleTree, MerkleError>)
        ensures
            data.len() < 2 ==> r == Err::<MerkleTree, MerkleError>(
                MerkleError::DataTooShort { len: data.len() },
            ),
            data.len() >= 2 ==> r is Ok && r->Ok_0@ == tree_levels(level_view(data@))
                && r->Ok_0.leaves() == level_view(data@) && r->Ok_0.well_formed(),
    {
        if data.len() <= 1 {
            return Err(MerkleError::DataTooShort { len: data.len() });
        }
        let mut tree: Vec<Vec<Node>> = Vec::new();
        let mut current: Vec<Node> = copy_level(data);
        while current.len() > 1
            invariant
                tree_levels(level_view(data@)) == levels_view(tree@) + levels_from(
                    level_view(current@),
                    tree.len() == 0,
                ),
            decreases current.len(),
        {
            let next = next_level(&current, tree.is_empty());
            proof {
                assert(levels_view(tree@).push(level_view(current@)) + levels_from(
                    level_view(next@),
                    false,
                ) =~= levels_view(tree@) + levels_from(level_view(current@), tree.len() == 0));
            }
            tree.push(current);
            current = next;
        }
        proof {
            assert(levels_view(tree@.push(current)) =~= levels_view(tree@).push(
                level_view(current@),
            ));
            assert(levels_view(tree@).push(level_view(current@)) =~= levels_view(tree@)
                + levels_from(level_view(current@), tree.len() == 0));
            lemma_tree_levels_is_tree(level_view(data@));
        }
        tree.push(current);
        Ok(MerkleTree { tree })
    }

    /// The root of the tree.
    pub fn get_root(&self) -> (r: &Node)
        ensures
            r@ == self.root(),
            self.well_formed(),
    {
        proof {
            use_type_invariant(self);
            lemma_tree_levels_is_tree(self.leaves());
        }
        &self.tree[self.tree.len() - 1][0]
    }

    /// All the levels of the tree, bottom to top.
    pub fn get_tree(&self) -> (r: &Vec<Vec<Node>>)
        ensures
            levels_view(r@) == self@,
            self.well_formed(),
    {
        proof {
            use_type_invariant(self);
        }
        &self.tree
    }

    /// The leaves of the tree, in the order in which they were given.
    pub fn get_leaf(&self) -> (r: &Vec<Node>)
        ensures
            level_view(r@) == self.leaves(),
            self.well_formed(),
    {
        proof {
            use_type_invariant(self);
            lemma_tree_levels_is_tree(self.leaves());
        }
        &self.tree[0]
    }

    /// The number of levels, the leaf level and the root's level included.
    pub fn tree_height(&self) -> (r: usize)
        ensures
            r == self@.len(),
            self.well_formed(),
    {
        proof {
            use_type_invariant(self);
        }
        self.tree.len()
    }

    /// The number of leaves.
    pub fn leaf_num(&self) -> (r: usize)
        ensures
            r == self.leaves().len(),
            self.well_formed(),
    {
        proof {
            use_type_invariant(self);
            lemma_tree_levels_is_tree(self.leaves());
        }
        self.tree[0].len()
    }

    /// Makes the proof for the leaf at `index`. It is refused where `index`
    /// is not the position of a leaf; otherwise the proof verifies for that
    /// leaf against the root.
    pub fn get_proof(&self, index: usize) -> (r: Result<MerkleProof, MerkleError>)
        ensures
            self.well_formed(),
            index >= self.leaves().len() ==> r == Err::<MerkleProof, MerkleError>(
                MerkleError::IndexOutOfRange {
                    index,
                    leaf_count: self.leaves().len() as usize,
                },
            ),
            index < self.leaves().len() ==> r is Ok && r->Ok_0@ == spec_proof(
                self@,
                index as int,
            ) && spec_verify(self.leaves()[index as int], r->Ok_0@, self.root()),
    {
        proof {
            use_type_invariant(self);
            lemma_tree_levels_is_tree(self.leaves());
        }
        let leaf_count: usize = self.tree[0].len();
        if index >= leaf_count {
            return Err(MerkleError::IndexOutOfRange { index, leaf_count });
        }
        let mut nodes: Vec<Node> = Vec::new();
        let mut idx: usize = index;
        let mut i: usize = 0;
        proof {
            assert(level_view(nodes@) + path_from(self@, 0, idx as int) =~= spec_proof(
                self@,
                index as int,
            ));
        }
        while i < self.tree.len() - 1
            invariant
                is_tree(self@),
                i < self.tree.len(),
                idx < self.tree[i as int].len(),
                i > 0 ==> nodes.len() > 0,
                spec_proof(self@, index as int) == level_view(nodes@) + path_from(
                    self@,
                    i as int,
                    idx as int,
                ),
            decreases self.tree.len() - i,
        {
            let level = &self.tree[i];
            if idx % 2 == 0 {
                if idx == level.len() - 1 {
                    if i == 0 {
                        let node = level[idx].clone();
                        nodes.push(node);
                    }
                } else {
                    let node = level[idx + 1].clone();
                    nodes.push(node);
                }
            } else {
                let node = level[idx - 1].clone();
                nodes.push(node);
            }
            idx = idx / 2;
            i += 1;
        }
        proof {
            lemma_proof_verifies(self.leaves(), index as int);
        }
        MerkleProof::new(nodes)
    }
}

} // verus!
