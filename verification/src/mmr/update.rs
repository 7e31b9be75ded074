//! Replacing a leaf in place.
//!
//! The nodes of the accumulator are numbered in the order in which they are
//! written: a left subtree, then the right one, then their parent. Replacing
//! a leaf changes the nodes on the way from the leaf up to the peak of its
//! mountain, and no others. This module finds that way, and computes the new
//! nodes from the new leaf and the siblings along it.

use crate::hash::{blake2b_256, merge, H256};
use vstd::prelude::*;

verus! {

/// The height of the node at a position: 0 for a leaf.
pub uninterp spec fn height_in_tree(pos: u64) -> u8;

/// Two to the power `n`.
pub open spec fn two_pow(n: nat) -> nat
    decreases n,
{
    if n == 0 {
        1
    } else {
        2 * two_pow((n - 1) as nat)
    }
}

/// Calls `ckb_merkle_mountain_range::helper::pos_height_in_tree`, which
/// returns for every position the height of the node there. The height
/// depends on the position alone.
#[verifier::external_body]
fn pos_height_in_tree(pos: u64) -> (ret: u8)
    ensures
        ret == height_in_tree(pos),
{
    ckb_merkle_mountain_range::helper::pos_height_in_tree(pos)
}

/// Calls `ckb_merkle_mountain_range::helper::sibling_offset`, which computes
/// `(2 << height) - 1`: the distance between two siblings at that height.
/// Heights from 63 on, where that does not fit, are left out.
#[verifier::external_body]
fn sibling_offset(height: u8) -> (ret: u64)
    requires
        height < 63,
    ensures
        ret == two_pow((height + 1) as nat) - 1,
{
    ckb_merkle_mountain_range::helper::sibling_offset(height)
}

/// One step up from a node: its sibling, their parent, and on which side the
/// sibling stands.
#[derive(Clone, Copy, Debug, PartialEq, Eq, Structural)]
pub struct PathStep {
    /// The position of the sibling.
    pub sibling: u64,
    /// The position of the parent.
    pub parent: u64,
    /// The sibling is the left child, the node the right one.
    pub sibling_is_left: bool,
}

/// The step up from the node at `pos`, which has the given height; nothing
/// where the sibling or the parent would lie outside the range of positions.
///
/// The node is a right child where the position after it is higher than it
/// is: then the parent comes next, and the sibling stands one subtree
/// before. Otherwise it is a left child: the sibling stands one subtree
/// after, and the parent behind the sibling.
pub open spec fn step_up(pos: u64, height: u8) -> Option<PathStep> {
    let offset = two_pow((height + 1) as nat) - 1;
    if pos == u64::MAX {
        None
    } else if height_in_tree((pos + 1) as u64) > height {
        if pos < offset {
            None
        } else {
            Some(
                PathStep {
                    sibling: (pos - offset) as u64,
                    parent: (pos + 1) as u64,
                    sibling_is_left: true,
                },
            )
        }
    } else {
        if pos + offset + 1 > u64::MAX {
            None
        } else {
            Some(
                PathStep {
                    sibling: (pos + offset) as u64,
                    parent: (pos + offset + 1) as u64,
                    sibling_is_left: false,
                },
            )
        }
    }
}

/// The steps from the node at `pos` up to the peak of its mountain, in an
/// accumulator of `mmr_size` nodes: the way ends at the first node whose
/// parent is not among them.
pub open spec fn path_to_peak(pos: u64, height: u8, mmr_size: u64) -> Seq<PathStep>
    decreases 63 - height,
{
    if height >= 63 {
        Seq::empty()
    } else {
        match step_up(pos, height) {
            Some(step) => if step.parent < mmr_size {
                seq![step] + path_to_peak(step.parent, (height + 1) as u8, mmr_size)
            } else {
                Seq::empty()
            },
            None => Seq::empty(),
        }
    }
}

/// The way to a peak stays inside the accumulator and is short: every
/// parent on it is one of the accumulator's nodes and lies after the node
/// that the way starts from, and there are fewer steps than positions have
/// bits.
pub proof fn lemma_path_stays_inside(pos: u64, height: u8, mmr_size: u64)
    ensures
        path_to_peak(pos, height, mmr_size).len() <= 63 - height || height > 63,
        forall|i: int|
            0 <= i < path_to_peak(pos, height, mmr_size).len() ==> pos < (
            #[trigger] path_to_peak(pos, height, mmr_size)[i]).parent < mmr_size,
    decreases 63 - height,
{
    if height < 63 {
        match step_up(pos, height) {
            Some(step) => {
                if step.parent < mmr_size {
                    let rest = path_to_peak(step.parent, (height + 1) as u8, mmr_size);
                    lemma_path_stays_inside(step.parent, (height + 1) as u8, mmr_size);
                    lemma_two_pow_positive((height + 1) as nat);
                    assert forall|i: int|
                        0 <= i < path_to_peak(pos, height, mmr_size).len() implies pos < (
                        #[trigger] path_to_peak(pos, height, mmr_size)[i]).parent
                        < mmr_size by {
                        if i > 0 {
                            assert(path_to_peak(pos, height, mmr_size)[i] == rest[i - 1]);
                        }
                    }
                }
            },
            None => {},
        }
    }
}

/// A power of two is at least one.
pub proof fn lemma_two_pow_positive(n: nat)
    ensures
        two_pow(n) >= 1,
    decreases n,
{
    if n > 0 {
        lemma_two_pow_positive((n - 1) as nat);
    }
}

/// The steps from the leaf at `pos` up to the peak of its mountain.
pub fn update_path(pos: u64, mmr_size: u64) -> (path: Vec<PathStep>)
    ensures
        path@ == path_to_peak(pos, 0, mmr_size),
        path@.len() <= 63,
        forall|i: int| 0 <= i < path@.len() ==> pos < (#[trigger] path@[i]).parent < mmr_size,
{
    proof {
        lemma_path_stays_inside(pos, 0, mmr_size);
    }
    let mut path: Vec<PathStep> = Vec::new();
    let mut cur = pos;
    let mut height: u8 = 0;
    while height < 63
        invariant
            height <= 63,
            path@ + path_to_peak(cur, height, mmr_size) == path_to_peak(pos, 0, mmr_size),
            path_to_peak(pos, 0, mmr_size).len() <= 63,
            forall|i: int|
                0 <= i < path_to_peak(pos, 0, mmr_size).len() ==> pos < (
                #[trigger] path_to_peak(pos, 0, mmr_size)[i]).parent < mmr_size,
        decreases 63 - height,
    {
        if cur == u64::MAX {
            assert(path@ + Seq::<PathStep>::empty() =~= path@);
            return path;
        }
        let offset = sibling_offset(height);
        let step = if pos_height_in_tree(cur + 1) > height {
            if cur < offset {
                assert(path@ + Seq::<PathStep>::empty() =~= path@);
                return path;
            }
            PathStep { sibling: cur - offset, parent: cur + 1, sibling_is_left: true }
        } else {
            if offset == u64::MAX || cur > u64::MAX - offset - 1 {
                assert(path@ + Seq::<PathStep>::empty() =~= path@);
                return path;
            }
            PathStep { sibling: cur + offset, parent: cur + offset + 1, sibling_is_left: false }
        };
        assert(step_up(cur, height) == Some(step));
        if step.parent >= mmr_size {
            assert(path@ + Seq::<PathStep>::empty() =~= path@);
            return path;
        }
        proof {
            let rest = path_to_peak(step.parent, (height + 1) as u8, mmr_size);
            assert(path@.push(step) + rest =~= path@ + (seq![step] + rest));
        }
        path.push(step);
        cur = step.parent;
        height = height + 1;
    }
    assert(path@ + Seq::<PathStep>::empty() =~= path@);
    path
}

/// The parent of a node and its sibling: the digest of the left child
/// followed by the right one.
pub open spec fn parent_digest(node: Seq<u8>, sibling: Seq<u8>, sibling_is_left: bool) -> Seq<u8> {
    if sibling_is_left {
        blake2b_256(sibling + node)
    } else {
        blake2b_256(node + sibling)
    }
}

/// The node that stands at the end of the first `n` steps of `path`, when
/// the way starts from `leaf` and meets `siblings` along it.
pub open spec fn node_after(leaf: Seq<u8>, path: Seq<PathStep>, siblings: Seq<H256>, n: nat) -> Seq<
    u8,
>
    decreases n,
{
    if n == 0 {
        leaf
    } else {
        parent_digest(
            node_after(leaf, path, siblings, (n - 1) as nat),
            siblings[n - 1]@,
            path[n - 1].sibling_is_left,
        )
    }
}

/// The nodes to write when the leaf at `pos` becomes `leaf`: the leaf itself,
/// and then for every step of `path` the parent, computed from the node
/// below it and the sibling that the accumulator holds there.
pub fn rehash(pos: u64, leaf: &H256, path: &Vec<PathStep>, siblings: &Vec<H256>) -> (nodes: Vec<
    (u64, H256),
>)
    requires
        siblings@.len() == path@.len(),
    ensures
        nodes@.len() == path@.len() + 1,
        nodes@[0].0 == pos,
        forall|i: int| 1 <= i <= path@.len() ==> (#[trigger] nodes@[i]).0 == path@[i - 1].parent,
        forall|i: int|
            0 <= i <= path@.len() ==> (#[trigger] nodes@[i]).1@ == node_after(
                leaf@,
                path@,
                siblings@,
                i as nat,
            ),
{
    let mut nodes: Vec<(u64, H256)> = Vec::with_capacity(path.len());
    nodes.push((pos, *leaf));
    let mut node = *leaf;
    let mut i: usize = 0;
    while i < path.len()
        invariant
            i <= path@.len(),
            siblings@.len() == path@.len(),
            nodes@.len() == i + 1,
            nodes@[0].0 == pos,
            node@ == node_after(leaf@, path@, siblings@, i as nat),
            forall|j: int| 1 <= j <= i ==> (#[trigger] nodes@[j]).0 == path@[j - 1].parent,
            forall|j: int|
                0 <= j <= i ==> (#[trigger] nodes@[j]).1@ == node_after(
                    leaf@,
                    path@,
                    siblings@,
                    j as nat,
                ),
        decreases path@.len() - i,
    {
        let step = path[i];
        node = if step.sibling_is_left {
            merge(&siblings[i], &node)
        } else {
            merge(&node, &siblings[i])
        };
        nodes.push((step.parent, node));
        i += 1;
    }
    nodes
}

} // verus!
