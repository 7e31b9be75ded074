//! The byte layout of branch nodes in the append-only tree's store: one tag
//! byte, then the fields of the left and of the right child, each of a fixed
//! width.

use super::node::{BranchNode, BranchNodeView, MergeValue, MergeValueView};
use crate::hash::H256;
use vstd::prelude::*;

verus! {

/// The number of bytes that a child takes: 32 for a plain hash, 97 for a
/// subtree merged with zeros.
pub open spec fn child_len(merged: bool) -> nat {
    if merged {
        97
    } else {
        32
    }
}

/// Whether a child is a subtree merged with zeros.
pub open spec fn is_merged(v: MergeValueView) -> bool {
    v is MergeWithZero
}

/// The tag of a node: bit 1 says that the left child is merged with zeros,
/// bit 0 that the right child is.
pub open spec fn tag_of(left_merged: bool, right_merged: bool) -> u8 {
    match (left_merged, right_merged) {
        (false, false) => 0,
        (false, true) => 1,
        (true, false) => 2,
        (true, true) => 3,
    }
}

/// The fields of a child, one after the other.
pub open spec fn encode_child(v: MergeValueView) -> Seq<u8> {
    match v {
        MergeValueView::Value(hash) => hash,
        MergeValueView::MergeWithZero { base_node, zero_bits, zero_count, value } => base_node
            + zero_bits + seq![zero_count] + value,
    }
}

/// The child whose fields `bytes` holds.
pub open spec fn decode_child(merged: bool, bytes: Seq<u8>) -> MergeValueView {
    if merged {
        MergeValueView::MergeWithZero {
            base_node: bytes.subrange(0, 32),
            zero_bits: bytes.subrange(32, 64),
            zero_count: bytes[64],
            value: bytes.subrange(65, 97),
        }
    } else {
        MergeValueView::Value(bytes.subrange(0, 32))
    }
}

/// The record of a branch node: tag, left child, right child.
pub open spec fn encode_node(node: BranchNodeView) -> Seq<u8> {
    seq![tag_of(is_merged(node.left), is_merged(node.right))] + encode_child(node.left)
        + encode_child(node.right)
}

/// `bytes` has a known tag in its first byte, and the length that the tag
/// calls for.
pub open spec fn valid_encoding(bytes: Seq<u8>) -> bool {
    &&& bytes.len() >= 1
    &&& bytes[0] <= 3
    &&& bytes.len() == 1 + child_len(bytes[0] >= 2) + child_len(bytes[0] == 1 || bytes[0] == 3)
}

/// The node that a valid record holds.
pub open spec fn decode_node(bytes: Seq<u8>) -> BranchNodeView {
    let left = bytes[0] >= 2;
    let right = bytes[0] == 1 || bytes[0] == 3;
    let mid: int = 1 + child_len(left) as int;
    BranchNodeView {
        left: decode_child(left, bytes.subrange(1, mid)),
        right: decode_child(right, bytes.subrange(mid, mid + child_len(right))),
    }
}

fn write_child(ret: &mut Vec<u8>, v: &MergeValue)
    ensures
        final(ret)@ == old(ret)@ + encode_child(v@),
{
    match v {
        MergeValue::Value(hash) => {
            ret.extend_from_slice(hash.as_bytes());
        },
        MergeValue::MergeWithZero { base_node, zero_bits, zero_count, value } => {
            ret.extend_from_slice(base_node.as_bytes());
            ret.extend_from_slice(zero_bits.as_bytes());
            ret.push(*zero_count);
            ret.extend_from_slice(value.as_bytes());
            assert(ret@ =~= old(ret)@ + encode_child(v@));
        },
    }
}

/// The record of a branch node.
pub fn branch_node_to_vec(node: &BranchNode) -> (ret: Vec<u8>)
    ensures
        ret@ == encode_node(node@),
{
    let tag: u8 = match (&node.left, &node.right) {
        (MergeValue::Value(_), MergeValue::Value(_)) => 0,
        (MergeValue::Value(_), MergeValue::MergeWithZero { .. }) => 1,
        (MergeValue::MergeWithZero { .. }, MergeValue::Value(_)) => 2,
        (MergeValue::MergeWithZero { .. }, MergeValue::MergeWithZero { .. }) => 3,
    };
    let mut ret: Vec<u8> = Vec::with_capacity(195);
    ret.push(tag);
    write_child(&mut ret, &node.left);
    write_child(&mut ret, &node.right);
    assert(ret@ =~= encode_node(node@));
    ret
}

/// Whether `slice` is the record of a branch node: whether
/// `slice_to_branch_node` can read it.
pub fn is_branch_node(slice: &[u8]) -> (r: bool)
    ensures
        r == valid_encoding(slice@),
{
    if slice.len() < 1 {
        return false;
    }
    let tag = slice[0];
    if tag > 3 {
        return false;
    }
    let left: usize = if tag >= 2 {
        97
    } else {
        32
    };
    let right: usize = if tag == 1 || tag == 3 {
        97
    } else {
        32
    };
    slice.len() == 1 + left + right
}

fn read_child(slice: &[u8], at: usize, merged: bool) -> (v: MergeValue)
    requires
        at + child_len(merged) <= slice.len(),
    ensures
        v@ == decode_child(merged, slice@.subrange(at as int, at + child_len(merged))),
{
    let ghost bytes = slice@.subrange(at as int, at + child_len(merged));
    if merged {
        let base_node = H256(crate::bytes::read_32(slice, at));
        let zero_bits = H256(crate::bytes::read_32(slice, at + 32));
        let zero_count = slice[at + 64];
        let value = H256(crate::bytes::read_32(slice, at + 65));
        assert(base_node@ =~= bytes.subrange(0, 32));
        assert(zero_bits@ =~= bytes.subrange(32, 64));
        assert(value@ =~= bytes.subrange(65, 97));
        MergeValue::MergeWithZero { base_node, zero_bits, zero_count, value }
    } else {
        let hash = H256(crate::bytes::read_32(slice, at));
        assert(hash@ =~= bytes.subrange(0, 32));
        MergeValue::Value(hash)
    }
}

/// The branch node that a record holds. The record must be one that
/// `branch_node_to_vec` can have written: see `is_branch_node`.
pub fn slice_to_branch_node(slice: &[u8]) -> (node: BranchNode)
    requires
        valid_encoding(slice@),
    ensures
        node@ == decode_node(slice@),
{
    let tag = slice[0];
    let left_merged = tag >= 2;
    let right_merged = tag == 1 || tag == 3;
    let mid: usize = if left_merged {
        98
    } else {
        33
    };
    let left = read_child(slice, 1, left_merged);
    let right = read_child(slice, mid, right_merged);
    BranchNode { left, right }
}

/// The fields of a child, read back with the child's shape, give the child.
pub proof fn lemma_decode_encode_child(v: MergeValueView)
    requires
        v.wf(),
    ensures
        encode_child(v).len() == child_len(is_merged(v)),
        decode_child(is_merged(v), encode_child(v)) == v,
{
    let bytes = encode_child(v);
    match v {
        MergeValueView::Value(hash) => {
            assert(bytes.subrange(0, 32) =~= hash);
        },
        MergeValueView::MergeWithZero { base_node, zero_bits, zero_count, value } => {
            assert(bytes.subrange(0, 32) =~= base_node);
            assert(bytes.subrange(32, 64) =~= zero_bits);
            assert(bytes.subrange(65, 97) =~= value);
        },
    }
}

/// Reading back what was written gives the node that was written: for every
/// shape of branch node, `slice_to_branch_node` accepts the record that
/// `branch_node_to_vec` makes of it and returns the same node.
pub proof fn lemma_decode_encode(node: BranchNodeView)
    requires
        node.wf(),
    ensures
        valid_encoding(encode_node(node)),
        decode_node(encode_node(node)) == node,
{
    let bytes = encode_node(node);
    let left = encode_child(node.left);
    let right = encode_child(node.right);
    let mid: int = 1 + left.len() as int;
    lemma_decode_encode_child(node.left);
    lemma_decode_encode_child(node.right);
    assert(bytes.subrange(1, mid) =~= left);
    assert(bytes.subrange(mid, mid + right.len()) =~= right);
}

/// Writing what was read gives the record that was read: a valid record is
/// the only record of the node it holds.
pub proof fn lemma_encode_decode(bytes: Seq<u8>)
    requires
        valid_encoding(bytes),
    ensures
        decode_node(bytes).wf(),
        encode_node(decode_node(bytes)) == bytes,
{
    let node = decode_node(bytes);
    assert(encode_node(node) =~= bytes);
}

/// The law above, of the functions themselves: a node that is written and
/// read back is the same node.
pub proof fn lemma_round_trip(node: BranchNode, read: BranchNode)
    requires
        read@ == decode_node(encode_node(node@)),
    ensures
        read == node,
{
    lemma_decode_encode(node@);
    super::node::lemma_view_injective(read, node);
}

} // verus!
