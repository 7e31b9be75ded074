//! The store of the keyed tree: the sequence counter, the branches and the
//! leaves, all under versioned keys. Nothing is ever taken out of the store:
//! a branch or a leaf that is removed gets an empty record at the current
//! sequence, so that earlier sequences still read what was there.

use super::node::{BranchKey, BranchNode};
use crate::bytes::{u64_be, u64_to_be};
use crate::hash::H256;
use super::serde::{
    branch_key_to_vec, branch_node_to_vec, decode_node, encode_key, encode_node,
    slice_to_branch_node, valid_encoding,
};
use crate::versioned::{
    drop_tombstone, found_view, present, read_sequence, resolve, resolve_read, stored_sequence,
    value_view, versioned, versioned_key,
};
use vstd::prelude::*;

verus! {

/// The key of the sequence counter: the eight letters `SEQUENCE`.
pub open spec fn sequence_key() -> Seq<u8> {
    seq![0x53u8, 0x45u8, 0x51u8, 0x55u8, 0x45u8, 0x4eu8, 0x43u8, 0x45u8]
}

/// The versioned store as the tree sees it: the sequence at which it reads
/// and writes.
#[derive(Clone, Copy, Debug)]
pub struct DefaultStore {
    sequence: u64,
}

impl DefaultStore {
    /// The sequence at which this store reads and writes.
    pub closed spec fn spec_sequence(&self) -> u64 {
        self.sequence
    }

    /// The key of the record that holds the sequence counter.
    pub fn sequence_key() -> (ret: Vec<u8>)
        ensures
            ret@ == sequence_key(),
    {
        let key: [u8; 8] = [0x53, 0x45, 0x51, 0x55, 0x45, 0x4e, 0x43, 0x45];
        let mut ret: Vec<u8> = Vec::with_capacity(8);
        ret.extend_from_slice(&key);
        assert(ret@ =~= sequence_key());
        ret
    }

    /// Opens the store at its latest sequence. `record` is what the store
    /// holds under the counter's key: eight big-endian bytes, or nothing in a
    /// store that was never committed to, which starts at sequence 0.
    pub fn new(record: Option<Vec<u8>>) -> (ret: Self)
        requires
            record matches Some(v) ==> v@.len() == 8,
        ensures
            ret.sequence() == stored_sequence(value_view(record)),
    {
        DefaultStore { sequence: read_sequence(&record) }
    }

    /// Opens a view of the store as of `sequence`, which must not be ahead of
    /// the counter that the store holds.
    pub fn new_with_sequence(record: Option<Vec<u8>>, sequence: u64) -> (ret: Self)
        requires
            record matches Some(v) ==> v@.len() == 8,
            sequence <= stored_sequence(value_view(record)),
        ensures
            ret.sequence() == sequence,
    {
        DefaultStore { sequence }
    }

    /// The sequence at which this store reads and writes.
    #[verifier::when_used_as_spec(spec_sequence)]
    pub fn sequence(&self) -> (ret: u64)
        ensures
            ret == self.spec_sequence(),
    {
        self.sequence
    }

    /// Where the reverse scan of a read of `key` starts.
    pub fn seek_key(&self, key: &[u8]) -> (ret: Vec<u8>)
        ensures
            ret@ == versioned(key@, self.sequence()),
    {
        versioned_key(key, self.sequence)
    }

    /// The value of `key` as of this store's sequence, given the first entry
    /// that the reverse scan from `seek_key(key)` met.
    pub fn get(&self, key: &[u8], found: Option<(Vec<u8>, Vec<u8>)>) -> (ret: Option<Vec<u8>>)
        ensures
            value_view(ret) == resolve(key@, found_view(found)),
    {
        resolve_read(key, found)
    }

    /// The entry that a write of `value` under `key` puts into the store.
    pub fn put(&self, key: &[u8], value: Vec<u8>) -> (ret: (Vec<u8>, Vec<u8>))
        ensures
            ret.0@ == versioned(key@, self.sequence()),
            ret.1@ == value@,
    {
        (versioned_key(key, self.sequence), value)
    }

    /// Moves on to the next sequence and returns the entry that records it:
    /// the counter's key and the new sequence in eight big-endian bytes.
    pub fn commit(&mut self) -> (ret: (Vec<u8>, Vec<u8>))
        requires
            old(self).sequence() < u64::MAX,
        ensures
            final(self).sequence() == old(self).sequence() + 1,
            ret.0@ == sequence_key(),
            ret.1@ == u64_be(final(self).sequence()),
    {
        self.sequence = self.sequence + 1;
        let counter = u64_to_be(self.sequence);
        let mut value: Vec<u8> = Vec::with_capacity(8);
        value.extend_from_slice(&counter);
        (Self::sequence_key(), value)
    }

    /// The branch under `branch_key` as of this store's sequence, given the
    /// first entry that the reverse scan from the branch's key met. An empty
    /// record stands for a branch that was removed.
    pub fn get_branch(&self, branch_key: &BranchKey, found: Option<(Vec<u8>, Vec<u8>)>) -> (ret:
        Option<BranchNode>)
        requires
            present(
                resolve(encode_key(branch_key.height, branch_key.node_key@), found_view(found)),
            ) matches Some(v) ==> valid_encoding(v),
        ensures
            match present(
                resolve(encode_key(branch_key.height, branch_key.node_key@), found_view(found)),
            ) {
                Some(v) => ret matches Some(node) && node@ == decode_node(v),
                None => ret is None,
            },
    {
        let key = branch_key_to_vec(branch_key);
        match drop_tombstone(self.get(key.as_slice(), found)) {
            Some(v) => Some(slice_to_branch_node(v.as_slice())),
            None => None,
        }
    }

    /// The record of the leaf under `leaf_key` as of this store's sequence,
    /// given the first entry that the reverse scan from the leaf's key met.
    /// An empty record stands for a leaf that was removed.
    pub fn get_leaf(&self, leaf_key: &H256, found: Option<(Vec<u8>, Vec<u8>)>) -> (ret: Option<
        Vec<u8>,
    >)
        ensures
            value_view(ret) == present(resolve(leaf_key@, found_view(found))),
    {
        drop_tombstone(self.get(leaf_key.as_bytes(), found))
    }

    /// The entry that stores `branch` under `node_key`.
    pub fn insert_branch(&self, node_key: &BranchKey, branch: &BranchNode) -> (ret: (
        Vec<u8>,
        Vec<u8>,
    ))
        ensures
            ret.0@ == versioned(encode_key(node_key.height, node_key.node_key@), self.sequence()),
            ret.1@ == encode_node(branch@),
    {
        let key = branch_key_to_vec(node_key);
        self.put(key.as_slice(), branch_node_to_vec(branch))
    }

    /// The entry that stores the record `leaf` under `leaf_key`.
    pub fn insert_leaf(&self, leaf_key: &H256, leaf: &[u8]) -> (ret: (Vec<u8>, Vec<u8>))
        ensures
            ret.0@ == versioned(leaf_key@, self.sequence()),
            ret.1@ == leaf@,
    {
        let mut value: Vec<u8> = Vec::with_capacity(leaf.len());
        value.extend_from_slice(leaf);
        self.put(leaf_key.as_bytes(), value)
    }

    /// The entry that removes the branch under `node_key`: an empty record
    /// at the current sequence.
    pub fn remove_branch(&self, node_key: &BranchKey) -> (ret: (Vec<u8>, Vec<u8>))
        ensures
            ret.0@ == versioned(encode_key(node_key.height, node_key.node_key@), self.sequence()),
            ret.1@.len() == 0,
    {
        let key = branch_key_to_vec(node_key);
        self.put(key.as_slice(), Vec::new())
    }

    /// The entry that removes the leaf under `leaf_key`: an empty record at
    /// the current sequence.
    pub fn remove_leaf(&self, leaf_key: &H256) -> (ret: (Vec<u8>, Vec<u8>))
        ensures
            ret.0@ == versioned(leaf_key@, self.sequence()),
            ret.1@.len() == 0,
    {
        self.put(leaf_key.as_bytes(), Vec::new())
    }
}

} // verus!
