//! The nodes that the keyed tree persists: a branch with two children, each
//! a plain hash, a subtree merged with zeros, or a shortcut to a single leaf.

use crate::hash::H256;
use vstd::prelude::*;

verus! {

/// One child of a branch.
#[derive(Clone, Copy, Debug, PartialEq, Eq)]
pub enum MergeValue {
    /// The hash of the subtree.
    Value(H256),
    /// A subtree all of whose siblings on the way up were empty.
    MergeWithZero { base_node: H256, zero_bits: H256, zero_count: u8 },
    /// A subtree that holds one leaf only, `height` levels below.
    ShortCut { key: H256, value: H256, height: u8 },
}

/// What a child holds, as byte strings.
pub enum MergeValueView {
    Value(Seq<u8>),
    MergeWithZero { base_node: Seq<u8>, zero_bits: Seq<u8>, zero_count: u8 },
    ShortCut { key: Seq<u8>, value: Seq<u8>, height: u8 },
}

impl MergeValueView {
    /// Every hash in it has 32 bytes.
    pub open spec fn wf(self) -> bool {
        match self {
            MergeValueView::Value(v) => v.len() == 32,
            MergeValueView::MergeWithZero { base_node, zero_bits, zero_count } => base_node.len()
                == 32 && zero_bits.len() == 32,
            MergeValueView::ShortCut { key, value, height } => key.len() == 32 && value.len()
                == 32,
        }
    }
}

impl View for MergeValue {
    type V = MergeValueView;

    open spec fn view(&self) -> MergeValueView {
        match *self {
            MergeValue::Value(v) => MergeValueView::Value(v@),
            MergeValue::MergeWithZero { base_node, zero_bits, zero_count } => {
                MergeValueView::MergeWithZero {
                    base_node: base_node@,
                    zero_bits: zero_bits@,
                    zero_count,
                }
            },
            MergeValue::ShortCut { key, value, height } => MergeValueView::ShortCut {
                key: key@,
                value: value@,
                height,
            },
        }
    }
}

/// An internal node of the tree.
#[derive(Clone, Copy, Debug, PartialEq, Eq)]
pub struct BranchNode {
    pub left: MergeValue,
    pub right: MergeValue,
}

/// What a branch holds, as byte strings.
pub struct BranchNodeView {
    pub left: MergeValueView,
    pub right: MergeValueView,
}

impl BranchNodeView {
    /// Every hash in it has 32 bytes.
    pub open spec fn wf(self) -> bool {
        self.left.wf() && self.right.wf()
    }
}

impl View for BranchNode {
    type V = BranchNodeView;

    open spec fn view(&self) -> BranchNodeView {
        BranchNodeView { left: self.left@, right: self.right@ }
    }
}

/// Where a branch stands in the tree: its height and the path that leads to
/// it.
#[derive(Clone, Copy, Debug, PartialEq, Eq)]
pub struct BranchKey {
    pub height: u8,
    pub node_key: H256,
}

/// Two nodes with the same view are the same node.
pub proof fn lemma_view_injective(a: BranchNode, b: BranchNode)
    requires
        a@ == b@,
    ensures
        a == b,
{
    lemma_child_view_injective(a.left, b.left);
    lemma_child_view_injective(a.right, b.right);
}

/// Two children with the same view are the same child.
pub proof fn lemma_child_view_injective(a: MergeValue, b: MergeValue)
    requires
        a@ == b@,
    ensures
        a == b,
{
    match (a, b) {
        (MergeValue::Value(x), MergeValue::Value(y)) => {
            crate::hash::lemma_hash_view_injective(x, y);
        },
        (
            MergeValue::MergeWithZero { base_node: b1, zero_bits: z1, zero_count: c1 },
            MergeValue::MergeWithZero { base_node: b2, zero_bits: z2, zero_count: c2 },
        ) => {
            crate::hash::lemma_hash_view_injective(b1, b2);
            crate::hash::lemma_hash_view_injective(z1, z2);
        },
        (
            MergeValue::ShortCut { key: k1, value: v1, height: h1 },
            MergeValue::ShortCut { key: k2, value: v2, height: h2 },
        ) => {
            crate::hash::lemma_hash_view_injective(k1, k2);
            crate::hash::lemma_hash_view_injective(v1, v2);
        },
        _ => {},
    }
}

} // verus!
