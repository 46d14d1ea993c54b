//! The mathematical model of a tree: its levels as sequences of byte
//! strings, from the leaves up to the root.

use crate::combiner::{lemma_combine_commutative, spec_combine};
use vstd::prelude::*;

verus! {

/// The byte strings held by a level of nodes.
pub open spec fn level_view(level: Seq<Vec<u8>>) -> Seq<Seq<u8>> {
    Seq::new(level.len(), |i: int| level[i]@)
}

/// The levels held by a vector of levels, each as byte strings.
pub open spec fn levels_view(levels: Seq<Vec<Vec<u8>>>) -> Seq<Seq<Seq<u8>>> {
    Seq::new(levels.len(), |i: int| level_view(levels[i]@))
}

/// The level above `level`. Adjacent nodes are combined pair by pair. A node
/// left without a partner is combined with itself on the leaf level, and
/// taken over as it is on every level above.
pub open spec fn spec_next_level(level: Seq<Seq<u8>>, leaf_level: bool) -> Seq<Seq<u8>> {
    Seq::new(
        ((level.len() + 1) / 2) as nat,
        |j: int|
            if 2 * j + 1 < level.len() {
                spec_combine(level[2 * j], level[2 * j + 1])
            } else if leaf_level {
                spec_combine(level[2 * j], level[2 * j])
            } else {
                level[2 * j]
            },
    )
}

/// `level` and all the levels above it, up to the first that holds a single
/// node.
pub open spec fn levels_from(level: Seq<Seq<u8>>, leaf_level: bool) -> Seq<Seq<Seq<u8>>>
    decreases level.len(),
{
    if level.len() <= 1 {
        seq![level]
    } else {
        seq![level] + levels_from(spec_next_level(level, leaf_level), false)
    }
}

/// The levels of the tree over `leaves`, bottom to top.
pub open spec fn tree_levels(leaves: Seq<Seq<u8>>) -> Seq<Seq<Seq<u8>>> {
    levels_from(leaves, true)
}

/// The root of the tree over `leaves`.
pub open spec fn tree_root(leaves: Seq<Seq<u8>>) -> Seq<u8> {
    tree_levels(leaves).last()[0]
}

/// What makes a sequence of levels a tree: there are at least two levels,
/// the top one holds the root alone, and every other level holds at least
/// two nodes and has the level made from it directly above.
pub open spec fn is_tree(levels: Seq<Seq<Seq<u8>>>) -> bool {
    &&& levels.len() >= 2
    &&& levels.last().len() == 1
    &&& forall|i: int|
        0 <= i < levels.len() - 1 ==> (#[trigger] levels[i]).len() >= 2 && levels[i + 1]
            == spec_next_level(levels[i], i == 0)
}

/// The nodes that a level adds to the proof for its node at `idx`: the
/// partner of that node; the node itself where it is a leaf without a
/// partner; nothing where it has no partner above the leaves.
pub open spec fn spec_sibling(level: Seq<Seq<u8>>, leaf_level: bool, idx: int) -> Seq<Seq<u8>> {
    if idx % 2 == 1 {
        seq![level[idx - 1]]
    } else if idx + 1 < level.len() {
        seq![level[idx + 1]]
    } else if leaf_level {
        seq![level[idx]]
    } else {
        Seq::empty()
    }
}

/// The proof nodes gathered from level `depth` upwards, for the node at
/// `idx` of that level. The top level adds nothing.
pub open spec fn path_from(levels: Seq<Seq<Seq<u8>>>, depth: int, idx: int) -> Seq<Seq<u8>>
    decreases levels.len() - depth,
{
    if depth < 0 || depth + 1 >= levels.len() {
        Seq::empty()
    } else {
        spec_sibling(levels[depth], depth == 0, idx) + path_from(levels, depth + 1, idx / 2)
    }
}

/// The proof for the leaf at `index`: the nodes gathered from the leaf
/// level upwards.
pub open spec fn spec_proof(levels: Seq<Seq<Seq<u8>>>, index: int) -> Seq<Seq<u8>> {
    path_from(levels, 0, index)
}

/// What a verifier arrives at from `node` along `path`: each node of the
/// path in turn is combined with what was reached so far.
pub open spec fn spec_recompute(node: Seq<u8>, path: Seq<Seq<u8>>) -> Seq<u8>
    decreases path.len(),
{
    if path.len() == 0 {
        node
    } else {
        spec_recompute(spec_combine(path[0], node), path.drop_first())
    }
}

/// A path proves `leaf` against `root` when the verifier arrives at `root`.
pub open spec fn spec_verify(leaf: Seq<u8>, path: Seq<Seq<u8>>, root: Seq<u8>) -> bool {
    spec_recompute(leaf, path) == root
}

/// The levels above and including `level` have the structure of a tree,
/// except that a single node makes a single level.
proof fn lemma_levels_from_shape(level: Seq<Seq<u8>>, leaf_level: bool)
    requires
        level.len() >= 1,
    ensures
        ({
            let t = levels_from(level, leaf_level);
            &&& t.len() >= 1
            &&& t[0] == level
            &&& level.len() >= 2 ==> t.len() >= 2
            &&& t.last().len() == 1
            &&& forall|i: int|
                0 <= i < t.len() - 1 ==> (#[trigger] t[i]).len() >= 2 && t[i + 1]
                    == spec_next_level(t[i], leaf_level && i == 0)
        }),
    decreases level.len(),
{
    if level.len() >= 2 {
        let above = spec_next_level(level, leaf_level);
        let rest = levels_from(above, false);
        let t = levels_from(level, leaf_level);
        lemma_levels_from_shape(above, false);
        assert forall|i: int| 0 <= i < t.len() - 1 implies (#[trigger] t[i]).len() >= 2 && t[i + 1]
            == spec_next_level(t[i], leaf_level && i == 0) by {
            if i > 0 {
                assert(t[i] == rest[i - 1]);
            }
        }
    }
}

/// The levels of the tree over two or more leaves start with the leaves and
/// have the structure of a tree.
pub proof fn lemma_tree_levels_is_tree(leaves: Seq<Seq<u8>>)
    requires
        leaves.len() >= 2,
    ensures
        tree_levels(leaves)[0] == leaves,
        is_tree(tree_levels(leaves)),
{
    lemma_levels_from_shape(leaves, true);
}

/// From any node of a tree, the nodes gathered from its level upwards lead
/// the verifier to the root.
proof fn lemma_path_reaches_root(levels: Seq<Seq<Seq<u8>>>, depth: int, idx: int)
    requires
        is_tree(levels),
        0 <= depth < levels.len(),
        0 <= idx < levels[depth].len(),
    ensures
        spec_recompute(levels[depth][idx], path_from(levels, depth, idx)) == levels.last()[0],
    decreases levels.len() - depth,
{
    if depth + 1 < levels.len() {
        let level = levels[depth];
        let step = spec_sibling(level, depth == 0, idx);
        let rest = path_from(levels, depth + 1, idx / 2);
        assert(levels[depth + 1] == spec_next_level(level, depth == 0));
        lemma_path_reaches_root(levels, depth + 1, idx / 2);
        if step.len() == 0 {
            assert(step + rest =~= rest);
        } else {
            assert((step + rest).drop_first() =~= rest);
            if idx % 2 == 0 && idx + 1 < level.len() {
                lemma_combine_commutative(level[idx + 1], level[idx]);
            }
        }
    }
}

/// The proof for a leaf of a tree is never empty: the leaf level always adds
/// a node to it.
pub proof fn lemma_proof_holds_a_node(leaves: Seq<Seq<u8>>, index: int)
    requires
        leaves.len() >= 2,
        0 <= index < leaves.len(),
    ensures
        spec_proof(tree_levels(leaves), index).len() >= 1,
{
    lemma_tree_levels_is_tree(leaves);
}

/// The proof made for a leaf of a tree verifies against the root of that
/// tree: for two or more leaves and every position among them, the verifier
/// arrives at the root from the leaf along its proof.
pub proof fn lemma_proof_verifies(leaves: Seq<Seq<u8>>, index: int)
    requires
        leaves.len() >= 2,
        0 <= index < leaves.len(),
    ensures
        spec_verify(leaves[index], spec_proof(tree_levels(leaves), index), tree_root(leaves)),
{
    lemma_tree_levels_is_tree(leaves);
    lemma_path_reaches_root(tree_levels(leaves), 0, index);
}

/// A path proves a leaf against one root only: where it proves the leaf
/// against `root`, it does not prove it against any other byte string.
pub proof fn lemma_verify_fixes_root(
    leaf: Seq<u8>,
    path: Seq<Seq<u8>>,
    root: Seq<u8>,
    other: Seq<u8>,
)
    requires
        spec_verify(leaf, path, root),
        other != root,
    ensures
        !spec_verify(leaf, path, other),
{
}

} // verus!
