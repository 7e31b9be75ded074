//! The byte layout of branch keys and branch nodes in the store.
//!
//! A node is written as one tag byte and then the fields of the left and of
//! the right child, each of a fixed width. The tag alone says which shapes
//! the two children have, so nothing else is needed to read the record back.
//! A branch key is written as the namespace byte of the branches, the height
//! and the path.

use super::store::SMT_KEY;
use crate::hash::H256;
use crate::smt::node::{BranchKey, BranchNode, BranchNodeView, MergeValue, MergeValueView};
use vstd::prelude::*;

verus! {

/// The three shapes of a child.
pub enum Shape {
    Value,
    MergeWithZero,
    ShortCut,
}

/// The shape of a child.
pub open spec fn shape_of(v: MergeValueView) -> Shape {
    match v {
        MergeValueView::Value(_) => Shape::Value,
        MergeValueView::MergeWithZero { .. } => Shape::MergeWithZero,
        MergeValueView::ShortCut { .. } => Shape::ShortCut,
    }
}

/// The number of bytes that a child of this shape takes.
pub open spec fn shape_len(shape: Shape) -> nat {
    match shape {
        Shape::Value => 32,
        Shape::MergeWithZero => 65,
        Shape::ShortCut => 65,
    }
}

/// The tag of a node whose children have these shapes.
pub open spec fn tag_of(left: Shape, right: Shape) -> u8 {
    match (left, right) {
        (Shape::Value, Shape::Value) => 0,
        (Shape::Value, Shape::MergeWithZero) => 1,
        (Shape::MergeWithZero, Shape::Value) => 2,
        (Shape::MergeWithZero, Shape::MergeWithZero) => 3,
        (Shape::Value, Shape::ShortCut) => 4,
        (Shape::ShortCut, Shape::Value) => 5,
        (Shape::ShortCut, Shape::ShortCut) => 6,
        (Shape::MergeWithZero, Shape::ShortCut) => 7,
        (Shape::ShortCut, Shape::MergeWithZero) => 8,
    }
}

/// The shape of the left child under a tag.
pub open spec fn left_shape(tag: u8) -> Shape {
    if tag == 0 || tag == 1 || tag == 4 {
        Shape::Value
    } else if tag == 2 || tag == 3 || tag == 7 {
        Shape::MergeWithZero
    } else {
        Shape::ShortCut
    }
}

/// The shape of the right child under a tag.
pub open spec fn right_shape(tag: u8) -> Shape {
    if tag == 0 || tag == 2 || tag == 5 {
        Shape::Value
    } else if tag == 1 || tag == 3 || tag == 8 {
        Shape::MergeWithZero
    } else {
        Shape::ShortCut
    }
}

/// The fields of a child, one after the other.
pub open spec fn encode_child(v: MergeValueView) -> Seq<u8> {
    match v {
        MergeValueView::Value(hash) => hash,
        MergeValueView::MergeWithZero { base_node, zero_bits, zero_count } => base_node + zero_bits
            + seq![zero_count],
        MergeValueView::ShortCut { key, value, height } => key + value + seq![height],
    }
}

/// The child of the given shape whose fields `bytes` holds.
pub open spec fn decode_child(shape: Shape, bytes: Seq<u8>) -> MergeValueView {
    match shape {
        Shape::Value => MergeValueView::Value(bytes.subrange(0, 32)),
        Shape::MergeWithZero => MergeValueView::MergeWithZero {
            base_node: bytes.subrange(0, 32),
            zero_bits: bytes.subrange(32, 64),
            zero_count: bytes[64],
        },
        Shape::ShortCut => MergeValueView::ShortCut {
            key: bytes.subrange(0, 32),
            value: bytes.subrange(32, 64),
            height: bytes[64],
        },
    }
}

/// The record of a branch key: namespace byte, height, path.
pub open spec fn encode_key(height: u8, node_key: Seq<u8>) -> Seq<u8> {
    seq![SMT_KEY, height] + node_key
}

/// The record of a branch node: tag, left child, right child.
pub open spec fn encode_node(node: BranchNodeView) -> Seq<u8> {
    seq![tag_of(shape_of(node.left), shape_of(node.right))] + encode_child(node.left)
        + encode_child(node.right)
}

/// `bytes` has a known tag in its first byte, and the length that the tag
/// calls for: 65, 98 or 131 bytes.
pub open spec fn valid_encoding(bytes: Seq<u8>) -> bool {
    &&& bytes.len() >= 1
    &&& bytes[0] <= 8
    &&& bytes.len() == 1 + shape_len(left_shape(bytes[0])) + shape_len(right_shape(bytes[0]))
}

/// The node that a valid record holds.
pub open spec fn decode_node(bytes: Seq<u8>) -> BranchNodeView {
    let left = left_shape(bytes[0]);
    let right = right_shape(bytes[0]);
    let mid: int = 1 + shape_len(left) as int;
    BranchNodeView {
        left: decode_child(left, bytes.subrange(1, mid)),
        right: decode_child(right, bytes.subrange(mid, mid + shape_len(right))),
    }
}

/// The key under which a branch is stored.
pub fn branch_key_to_vec(key: &BranchKey) -> (ret: Vec<u8>)
    ensures
        ret@ == encode_key(key.height, key.node_key@),
{
    let mut ret: Vec<u8> = Vec::with_capacity(34);
    ret.push(SMT_KEY);
    ret.push(key.height);
    ret.extend_from_slice(key.node_key.as_bytes());
    assert(ret@ =~= encode_key(key.height, key.node_key@));
    ret
}

fn shape(v: &MergeValue) -> (s: Shape)
    ensures
        s == shape_of(v@),
{
    match v {
        MergeValue::Value(_) => Shape::Value,
        MergeValue::MergeWithZero { .. } => Shape::MergeWithZero,
        MergeValue::ShortCut { .. } => Shape::ShortCut,
    }
}

fn tag(left: Shape, right: Shape) -> (t: u8)
    ensures
        t == tag_of(left, right),
{
    match (left, right) {
        (Shape::Value, Shape::Value) => 0,
        (Shape::Value, Shape::MergeWithZero) => 1,
        (Shape::MergeWithZero, Shape::Value) => 2,
        (Shape::MergeWithZero, Shape::MergeWithZero) => 3,
        (Shape::Value, Shape::ShortCut) => 4,
        (Shape::ShortCut, Shape::Value) => 5,
        (Shape::ShortCut, Shape::ShortCut) => 6,
        (Shape::MergeWithZero, Shape::ShortCut) => 7,
        (Shape::ShortCut, Shape::MergeWithZero) => 8,
    }
}

fn write_child(ret: &mut Vec<u8>, v: &MergeValue)
    ensures
        final(ret)@ == old(ret)@ + encode_child(v@),
{
    match v {
        MergeValue::Value(hash) => {
            ret.extend_from_slice(hash.as_bytes());
        },
        MergeValue::MergeWithZero { base_node, zero_bits, zero_count } => {
            ret.extend_from_slice(base_node.as_bytes());
            ret.extend_from_slice(zero_bits.as_bytes());
            ret.push(*zero_count);
            assert(ret@ =~= old(ret)@ + encode_child(v@));
        },
        MergeValue::ShortCut { key, value, height } => {
            ret.extend_from_slice(key.as_bytes());
            ret.extend_from_slice(value.as_bytes());
            ret.push(*height);
            assert(ret@ =~= old(ret)@ + encode_child(v@));
        },
    }
}

/// The record of a branch node.
pub fn branch_node_to_vec(node: &BranchNode) -> (ret: Vec<u8>)
    ensures
        ret@ == encode_node(node@),
{
    let mut ret: Vec<u8> = Vec::with_capacity(131);
    ret.push(tag(shape(&node.left), shape(&node.right)));
    write_child(&mut ret, &node.left);
    write_child(&mut ret, &node.right);
    assert(ret@ =~= encode_node(node@));
    ret
}

/// Whether `slice` is the record of a branch node: whether
/// `slice_to_branch_node` can read it.
pub fn is_branch_node(slice: &[u8]) -> (r: bool)
    ensures
        r == valid_encoding(slice@),
{
    if slice.len() < 1 {
        return false;
    }
    let tag = slice[0];
    if tag > 8 {
        return false;
    }
    let left: usize = if tag == 0 || tag == 1 || tag == 4 {
        32
    } else {
        65
    };
    let right: usize = if tag == 0 || tag == 2 || tag == 5 {
        32
    } else {
        65
    };
    slice.len() == 1 + left + right
}

fn read_child(slice: &[u8], at: usize, shape: Shape) -> (v: MergeValue)
    requires
        at + shape_len(shape) <= slice.len(),
    ensures
        v@ == decode_child(shape, slice@.subrange(at as int, at + shape_len(shape))),
{
    let ghost bytes = slice@.subrange(at as int, at + shape_len(shape));
    match shape {
        Shape::Value => {
            let hash = H256(crate::bytes::read_32(slice, at));
            assert(hash@ =~= bytes.subrange(0, 32));
            MergeValue::Value(hash)
        },
        Shape::MergeWithZero => {
            let base_node = H256(crate::bytes::read_32(slice, at));
            let zero_bits = H256(crate::bytes::read_32(slice, at + 32));
            let zero_count = slice[at + 64];
            assert(base_node@ =~= bytes.subrange(0, 32));
            assert(zero_bits@ =~= bytes.subrange(32, 64));
            MergeValue::MergeWithZero { base_node, zero_bits, zero_count }
        },
        Shape::ShortCut => {
            let key = H256(crate::bytes::read_32(slice, at));
            let value = H256(crate::bytes::read_32(slice, at + 32));
            let height = slice[at + 64];
            assert(key@ =~= bytes.subrange(0, 32));
            assert(value@ =~= bytes.subrange(32, 64));
            MergeValue::ShortCut { key, value, height }
        },
    }
}

/// The branch node that a record holds. The record must be one that
/// `branch_node_to_vec` can have written: see `is_branch_node`.
pub fn slice_to_branch_node(slice: &[u8]) -> (node: BranchNode)
    requires
        valid_encoding(slice@),
    ensures
        node@ == decode_node(slice@),
{
    let tag = slice[0];
    let left_shape = if tag == 0 || tag == 1 || tag == 4 {
        Shape::Value
    } else if tag == 2 || tag == 3 || tag == 7 {
        Shape::MergeWithZero
    } else {
        Shape::ShortCut
    };
    let right_shape = if tag == 0 || tag == 2 || tag == 5 {
        Shape::Value
    } else if tag == 1 || tag == 3 || tag == 8 {
        Shape::MergeWithZero
    } else {
        Shape::ShortCut
    };
    let mid: usize = match left_shape {
        Shape::Value => 33,
        _ => 66,
    };
    let left = read_child(slice, 1, left_shape);
    let right = read_child(slice, mid, right_shape);
    BranchNode { left, right }
}

/// Reading back what was written gives the node that was written: for every
/// shape of branch node, `slice_to_branch_node` accepts the record that
/// `branch_node_to_vec` makes of it and returns the same node.
pub proof fn lemma_decode_encode(node: BranchNodeView)
    requires
        node.wf(),
    ensures
        valid_encoding(encode_node(node)),
        decode_node(encode_node(node)) == node,
{
    let bytes = encode_node(node);
    let left = encode_child(node.left);
    let right = encode_child(node.right);
    let mid: int = 1 + left.len() as int;
    assert(bytes.subrange(1, mid) =~= left);
    assert(bytes.subrange(mid, mid + right.len()) =~= right);
    lemma_decode_encode_child(node.left);
    lemma_decode_encode_child(node.right);
}

/// The fields of a child, read back with the child's shape, give the child.
pub proof fn lemma_decode_encode_child(v: MergeValueView)
    requires
        v.wf(),
    ensures
        encode_child(v).len() == shape_len(shape_of(v)),
        decode_child(shape_of(v), encode_child(v)) == v,
{
    let bytes = encode_child(v);
    match v {
        MergeValueView::Value(hash) => {
            assert(bytes.subrange(0, 32) =~= hash);
        },
        MergeValueView::MergeWithZero { base_node, zero_bits, zero_count } => {
            assert(bytes.subrange(0, 32) =~= base_node);
            assert(bytes.subrange(32, 64) =~= zero_bits);
        },
        MergeValueView::ShortCut { key, value, height } => {
            assert(bytes.subrange(0, 32) =~= key);
            assert(bytes.subrange(32, 64) =~= value);
        },
    }
}

/// Writing what was read gives the record that was read: a valid record is
/// the only record of the node it holds.
pub proof fn lemma_encode_decode(bytes: Seq<u8>)
    requires
        valid_encoding(bytes),
    ensures
        decode_node(bytes).wf(),
        encode_node(decode_node(bytes)) == bytes,
{
    let node = decode_node(bytes);
    assert(encode_node(node) =~= bytes);
}

/// The law above, of the functions themselves: a node that is written and
/// read back is the same node.
pub proof fn lemma_round_trip(node: BranchNode, read: BranchNode)
    requires
        read@ == decode_node(encode_node(node@)),
    ensures
        read == node,
{
    lemma_decode_encode(node@);
    crate::smt::node::lemma_view_injective(read, node);
}

} // verus!
