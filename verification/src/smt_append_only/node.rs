//! The nodes that the append-only tree persists. A subtree merged with zeros
//! carries the value of the leaf it started from, so that the tree never has
//! to rewrite a node to find it again.

use crate::hash::H256;
use vstd::prelude::*;

verus! {

/// One child of a branch.
#[derive(Clone, Copy, Debug, PartialEq, Eq)]
pub enum MergeValue {
    /// The hash of the subtree.
    Value(H256),
    /// A subtree all of whose siblings on the way up were empty.
    MergeWithZero { base_node: H256, zero_bits: H256, zero_count: u8, value: H256 },
}

/// What a child holds, as byte strings.
pub enum MergeValueView {
    Value(Seq<u8>),
    MergeWithZero { base_node: Seq<u8>, zero_bits: Seq<u8>, zero_count: u8, value: Seq<u8> },
}

impl MergeValueView {
    /// Every hash in it has 32 bytes.
    pub open spec fn wf(self) -> bool {
        match self {
            MergeValueView::Value(v) => v.len() == 32,
            MergeValueView::MergeWithZero { base_node, zero_bits, zero_count, value } => {
                base_node.len() == 32 && zero_bits.len() == 32 && value.len() == 32
            },
        }
    }
}

impl View for MergeValue {
    type V = MergeValueView;

    open spec fn view(&self) -> MergeValueView {
        match *self {
            MergeValue::Value(v) => MergeValueView::Value(v@),
            MergeValue::MergeWithZero { base_node, zero_bits, zero_count, value } => {
                MergeValueView::MergeWithZero {
                    base_node: base_node@,
                    zero_bits: zero_bits@,
                    zero_count,
                    value: value@,
                }
            },
        }
    }
}

/// An internal node of the tree.
#[derive(Clone, Copy, Debug, PartialEq, Eq)]
pub struct BranchNode {
    pub left: MergeValue,
    pub right: MergeValue,
}

/// What a branch holds, as byte strings.
pub struct BranchNodeView {
    pub left: MergeValueView,
    pub right: MergeValueView,
}

impl BranchNodeView {
    /// Every hash in it has 32 bytes.
    pub open spec fn wf(self) -> bool {
        self.left.wf() && self.right.wf()
    }
}

impl View for BranchNode {
    type V = BranchNodeView;

    open spec fn view(&self) -> BranchNodeView {
        BranchNodeView { left: self.left@, right: self.right@ }
    }
}

/// Two children with the same view are the same child.
pub proof fn lemma_child_view_injective(a: MergeValue, b: MergeValue)
    requires
        a@ == b@,
    ensures
        a == b,
{
    match (a, b) {
        (MergeValue::Value(x), MergeValue::Value(y)) => {
            crate::hash::lemma_hash_view_injective(x, y);
        },
        (
            MergeValue::MergeWithZero { base_node: b1, zero_bits: z1, zero_count: c1, value: v1 },
            MergeValue::MergeWithZero { base_node: b2, zero_bits: z2, zero_count: c2, value: v2 },
        ) => {
            crate::hash::lemma_hash_view_injective(b1, b2);
            crate::hash::lemma_hash_view_injective(z1, z2);
            crate::hash::lemma_hash_view_injective(v1, v2);
        },
        _ => {},
    }
}

/// Two nodes with the same view are the same node.
pub proof fn lemma_view_injective(a: BranchNode, b: BranchNode)
    requires
        a@ == b@,
    ensures
        a == b,
{
    lemma_child_view_injective(a.left, b.left);
    lemma_child_view_injective(a.right, b.right);
}

} // verus!
