//! The store of the append-only tree. Its keys carry no sequence: a node is
//! written once, under its own hash, and never again. What ties a sequence to
//! a state of the tree is the root that `commit` stores for it.

use super::node::BranchNode;
use super::serde::{
    branch_node_to_vec, decode_node, encode_node, slice_to_branch_node, valid_encoding,
};
use crate::bytes::{u64_be, u64_to_be};
use crate::hash::H256;
use crate::versioned::{drop_tombstone, present, read_sequence, stored_sequence, value_view};
use vstd::prelude::*;

verus! {

/// The key of the sequence counter: the eight letters `SEQUENCE`.
pub open spec fn sequence_key() -> Seq<u8> {
    seq![0x53u8, 0x45u8, 0x51u8, 0x55u8, 0x45u8, 0x4eu8, 0x43u8, 0x45u8]
}

/// The namespace of the roots by sequence: the sixteen letters
/// `SEQUENCE_TO_ROOT`.
pub open spec fn sequence_to_root_key() -> Seq<u8> {
    sequence_key() + seq![0x5fu8, 0x54u8, 0x4fu8, 0x5fu8, 0x52u8, 0x4fu8, 0x4fu8, 0x54u8]
}

/// The key under which the root of a sequence is stored.
pub open spec fn root_key(sequence: u64) -> Seq<u8> {
    sequence_to_root_key() + u64_be(sequence)
}

/// The store as the tree sees it: the sequence that it is at.
#[derive(Clone, Copy, Debug)]
pub struct DefaultStore {
    sequence: u64,
}

impl DefaultStore {
    /// The sequence that this store is at.
    pub closed spec fn spec_sequence(&self) -> u64 {
        self.sequence
    }

    /// The key of the record that holds the sequence counter.
    pub fn sequence_key() -> (ret: Vec<u8>)
        ensures
            ret@ == sequence_key(),
    {
        let key: [u8; 8] = [0x53, 0x45, 0x51, 0x55, 0x45, 0x4e, 0x43, 0x45];
        let mut ret: Vec<u8> = Vec::with_capacity(8);
        ret.extend_from_slice(&key);
        assert(ret@ =~= sequence_key());
        ret
    }

    /// The key under which the root of `sequence` is stored.
    pub fn root_key(sequence: u64) -> (ret: Vec<u8>)
        ensures
            ret@ == root_key(sequence),
    {
        let mut ret = Self::sequence_key();
        let tail: [u8; 8] = [0x5f, 0x54, 0x4f, 0x5f, 0x52, 0x4f, 0x4f, 0x54];
        ret.extend_from_slice(&tail);
        let suffix = u64_to_be(sequence);
        ret.extend_from_slice(&suffix);
        assert(ret@ =~= root_key(sequence));
        ret
    }

    /// Opens the store at the sequence it holds. `record` is what the store
    /// holds under the counter's key: eight big-endian bytes, or nothing in a
    /// store that was never committed to, which starts at sequence 0.
    pub fn new(record: Option<Vec<u8>>) -> (ret: Self)
        requires
            record matches Some(v) ==> v@.len() == 8,
        ensures
            ret.sequence() == stored_sequence(value_view(record)),
    {
        DefaultStore { sequence: read_sequence(&record) }
    }

    /// Opens a view of the store as of `sequence`, which must not be ahead of
    /// the counter that the store holds.
    pub fn new_with_sequence(record: Option<Vec<u8>>, sequence: u64) -> (ret: Self)
        requires
            record matches Some(v) ==> v@.len() == 8,
            sequence <= stored_sequence(value_view(record)),
        ensures
            ret.sequence() == sequence,
    {
        DefaultStore { sequence }
    }

    /// The sequence that this store is at.
    #[verifier::when_used_as_spec(spec_sequence)]
    pub fn sequence(&self) -> (ret: u64)
        ensures
            ret == self.spec_sequence(),
    {
        self.sequence
    }

    /// The root of this store's sequence, given what the store holds under
    /// `root_key(self.sequence())`.
    pub fn root(&self, record: Option<Vec<u8>>) -> (ret: Option<H256>)
        requires
            record matches Some(v) ==> v@.len() == 32,
        ensures
            match record {
                Some(v) => ret matches Some(h) && h@ == v@,
                None => ret is None,
            },
    {
        Self::root_by_sequence(record)
    }

    /// The root of a sequence, given what the store holds under the
    /// sequence's `root_key`: nothing where no root was stored for it.
    pub fn root_by_sequence(record: Option<Vec<u8>>) -> (ret: Option<H256>)
        requires
            record matches Some(v) ==> v@.len() == 32,
        ensures
            match record {
                Some(v) => ret matches Some(h) && h@ == v@,
                None => ret is None,
            },
    {
        match record {
            Some(v) => Some(H256::from_bytes(v.as_slice())),
            None => None,
        }
    }

    /// Ends the current sequence with `root`. Returns the two entries to
    /// write, in this order: the root under the sequence's `root_key`, and
    /// the sequence under the counter's key. The store then moves on to the
    /// next sequence.
    pub fn commit(&mut self, root: &H256) -> (ret: ((Vec<u8>, Vec<u8>), (Vec<u8>, Vec<u8>)))
        requires
            old(self).sequence() < u64::MAX,
        ensures
            final(self).sequence() == old(self).sequence() + 1,
            ret.0.0@ == root_key(old(self).sequence()),
            ret.0.1@ == root@,
            ret.1.0@ == sequence_key(),
            ret.1.1@ == u64_be(old(self).sequence()),
    {
        let mut value: Vec<u8> = Vec::with_capacity(32);
        value.extend_from_slice(root.as_bytes());
        let counter = u64_to_be(self.sequence);
        let mut sequence: Vec<u8> = Vec::with_capacity(8);
        sequence.extend_from_slice(&counter);
        let entries = ((Self::root_key(self.sequence), value), (Self::sequence_key(), sequence));
        self.sequence = self.sequence + 1;
        entries
    }

    /// The branch that a record holds. An empty record stands for a branch
    /// that was removed.
    pub fn get_branch(record: Option<Vec<u8>>) -> (ret: Option<BranchNode>)
        requires
            present(value_view(record)) matches Some(v) ==> valid_encoding(v),
        ensures
            match present(value_view(record)) {
                Some(v) => ret matches Some(node) && node@ == decode_node(v),
                None => ret is None,
            },
    {
        match drop_tombstone(record) {
            Some(v) => Some(slice_to_branch_node(v.as_slice())),
            None => None,
        }
    }

    /// The leaf that a record holds. An empty record stands for a leaf that
    /// was removed.
    pub fn get_leaf(record: Option<Vec<u8>>) -> (ret: Option<Vec<u8>>)
        ensures
            value_view(ret) == present(value_view(record)),
    {
        drop_tombstone(record)
    }

    /// The entry that stores `branch` under `node_key`.
    pub fn insert_branch(node_key: &H256, branch: &BranchNode) -> (ret: (Vec<u8>, Vec<u8>))
        ensures
            ret.0@ == node_key@,
            ret.1@ == encode_node(branch@),
    {
        let mut key: Vec<u8> = Vec::with_capacity(32);
        key.extend_from_slice(node_key.as_bytes());
        (key, branch_node_to_vec(branch))
    }

    /// The entry that stores the record `leaf` under `leaf_key`.
    pub fn insert_leaf(leaf_key: &H256, leaf: &[u8]) -> (ret: (Vec<u8>, Vec<u8>))
        ensures
            ret.0@ == leaf_key@,
            ret.1@ == leaf@,
    {
        let mut key: Vec<u8> = Vec::with_capacity(32);
        key.extend_from_slice(leaf_key.as_bytes());
        let mut value: Vec<u8> = Vec::with_capacity(leaf.len());
        value.extend_from_slice(leaf);
        (key, value)
    }

    /// The entry that removes the branch under `node_key`: an empty record.
    pub fn remove_branch(node_key: &H256) -> (ret: (Vec<u8>, Vec<u8>))
        ensures
            ret.0@ == node_key@,
            ret.1@.len() == 0,
    {
        let mut key: Vec<u8> = Vec::with_capacity(32);
        key.extend_from_slice(node_key.as_bytes());
        (key, Vec::new())
    }

    /// The entry that removes the leaf under `leaf_key`: an empty record.
    pub fn remove_leaf(leaf_key: &H256) -> (ret: (Vec<u8>, Vec<u8>))
        ensures
            ret.0@ == leaf_key@,
            ret.1@.len() == 0,
    {
        let mut key: Vec<u8> = Vec::with_capacity(32);
        key.extend_from_slice(leaf_key.as_bytes());
        (key, Vec::new())
    }
}

} // verus!
