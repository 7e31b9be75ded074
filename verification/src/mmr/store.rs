//! The store of the append-only accumulator: the sequence counter, the nodes
//! by position, and the element records, all under versioned keys.

use crate::bytes::{u64_be, u64_le, u64_to_be, u64_to_le};
use crate::hash::H256;
use crate::versioned::{
    drop_tombstone, found_view, present, read_sequence, resolve, resolve_read, stored_sequence,
    value_view, versioned, versioned_key,
};
use vstd::prelude::*;

verus! {

/// The namespace of the nodes, by position.
pub const POS_KEY: u8 = 0;

/// The key of the sequence counter.
pub const SEQUENCE_KEY: u8 = 1;

/// The namespace of the element records.
pub const ELEMENT_KEY: u8 = 2;

/// The key of the accumulator's size.
pub const MMR_SIZE_KEY: u8 = 3;

/// The logical key of the node at a position.
pub open spec fn pos_key(pos: u64) -> Seq<u8> {
    seq![POS_KEY] + u64_le(pos)
}

/// The versioned store as the accumulator sees it: the sequence at which it
/// reads and writes.
#[derive(Clone, Copy, Debug)]
pub struct DefaultStore {
    sequence: u64,
}

impl DefaultStore {
    /// The sequence at which this store reads and writes.
    pub closed spec fn spec_sequence(&self) -> u64 {
        self.sequence
    }

    /// The key of the record that holds the sequence counter.
    pub fn sequence_key() -> (ret: Vec<u8>)
        ensures
            ret@ == seq![SEQUENCE_KEY],
    {
        let mut ret: Vec<u8> = Vec::with_capacity(1);
        ret.push(SEQUENCE_KEY);
        ret
    }

    /// Opens the store at its latest sequence. `record` is what the store
    /// holds under the counter's key: eight big-endian bytes, or nothing in a
    /// store that was never committed to, which starts at sequence 0.
    pub fn new(record: Option<Vec<u8>>) -> (ret: Self)
        requires
            record matches Some(v) ==> v@.len() == 8,
        ensures
            ret.sequence() == stored_sequence(value_view(record)),
    {
        DefaultStore { sequence: read_sequence(&record) }
    }

    /// Opens a view of the store as of `sequence`, which must not be ahead of
    /// the counter that the store holds.
    pub fn new_with_sequence(record: Option<Vec<u8>>, sequence: u64) -> (ret: Self)
        requires
            record matches Some(v) ==> v@.len() == 8,
            sequence <= stored_sequence(value_view(record)),
        ensures
            ret.sequence() == sequence,
    {
        DefaultStore { sequence }
    }

    /// The sequence at which this store reads and writes.
    #[verifier::when_used_as_spec(spec_sequence)]
    pub fn sequence(&self) -> (ret: u64)
        ensures
            ret == self.spec_sequence(),
    {
        self.sequence
    }

    /// Where the reverse scan of a read of `key` starts.
    pub fn seek_key(&self, key: &[u8]) -> (ret: Vec<u8>)
        ensures
            ret@ == versioned(key@, self.sequence()),
    {
        versioned_key(key, self.sequence)
    }

    /// The value of `key` as of this store's sequence, given the first entry
    /// that the reverse scan from `seek_key(key)` met.
    pub fn get(&self, key: &[u8], found: Option<(Vec<u8>, Vec<u8>)>) -> (ret: Option<Vec<u8>>)
        ensures
            value_view(ret) == resolve(key@, found_view(found)),
    {
        resolve_read(key, found)
    }

    /// The entry that a write of `value` under `key` puts into the store.
    pub fn put(&self, key: &[u8], value: Vec<u8>) -> (ret: (Vec<u8>, Vec<u8>))
        ensures
            ret.0@ == versioned(key@, self.sequence()),
            ret.1@ == value@,
    {
        (versioned_key(key, self.sequence), value)
    }

    /// Moves on to the next sequence and returns the entry that records it:
    /// the counter's key and the new sequence in eight big-endian bytes.
    pub fn commit(&mut self) -> (ret: (Vec<u8>, Vec<u8>))
        requires
            old(self).sequence() < u64::MAX,
        ensures
            final(self).sequence() == old(self).sequence() + 1,
            ret.0@ == seq![SEQUENCE_KEY],
            ret.1@ == u64_be(final(self).sequence()),
    {
        self.sequence = self.sequence + 1;
        let counter = u64_to_be(self.sequence);
        let mut value: Vec<u8> = Vec::with_capacity(8);
        value.extend_from_slice(&counter);
        (Self::sequence_key(), value)
    }

    /// The logical key of the node at `pos`.
    pub fn elem_key(pos: u64) -> (ret: Vec<u8>)
        ensures
            ret@ == pos_key(pos),
    {
        let mut ret: Vec<u8> = Vec::with_capacity(9);
        ret.push(POS_KEY);
        let le = u64_to_le(pos);
        ret.extend_from_slice(&le);
        ret
    }

    /// The node at `pos` as of this store's sequence, given the first entry
    /// that the reverse scan from `seek_key(elem_key(pos))` met. An empty
    /// record stands for no node.
    pub fn get_elem(&self, pos: u64, found: Option<(Vec<u8>, Vec<u8>)>) -> (ret: Option<H256>)
        requires
            present(resolve(pos_key(pos), found_view(found))) matches Some(v) ==> v.len() == 32,
        ensures
            match present(resolve(pos_key(pos), found_view(found))) {
                Some(v) => ret matches Some(h) && h@ == v,
                None => ret is None,
            },
    {
        let key = Self::elem_key(pos);
        match drop_tombstone(self.get(key.as_slice(), found)) {
            Some(v) => Some(H256::from_bytes(v.as_slice())),
            None => None,
        }
    }

    /// The entry that stores `elem` as the node at `pos`.
    pub fn insert(&self, pos: u64, elem: &H256) -> (ret: (Vec<u8>, Vec<u8>))
        ensures
            ret.0@ == versioned(pos_key(pos), self.sequence()),
            ret.1@ == elem@,
    {
        let key = Self::elem_key(pos);
        let mut value: Vec<u8> = Vec::with_capacity(32);
        value.extend_from_slice(elem.as_bytes());
        self.put(key.as_slice(), value)
    }
}

/// A logical key of the element namespace: the namespace byte and 36 bytes
/// that name the element.
pub open spec fn is_element_key(key: Seq<u8>) -> bool {
    key.len() == 37 && key[0] == ELEMENT_KEY
}

/// What the accumulator writes into its store, and nothing else: the
/// sequence counter under its own key, nodes under the versions of their
/// position's key, and element records under the versions of their element's
/// key.
pub open spec fn is_store_key(k: Seq<u8>) -> bool {
    ||| k == seq![SEQUENCE_KEY]
    ||| exists|pos: u64, sequence: u64| k == versioned(pos_key(pos), sequence)
    ||| exists|key: Seq<u8>, sequence: u64| is_element_key(key) && k == versioned(key, sequence)
}

/// The namespaces of the store keep apart: in a store that holds the
/// accumulator's keys only, every stored key that begins with the key of a
/// position or of an element is a version of that very key. So the reads of
/// nodes and of element records are reads as of the store's sequence, as
/// `crate::versioned::lemma_read_as_of` shows.
pub proof fn lemma_namespaces_keep_apart(entries: crate::versioned::Entries, key: Seq<u8>)
    requires
        forall|k: Seq<u8>| entries.contains_key(k) ==> is_store_key(k),
        is_element_key(key) || exists|pos: u64| key == pos_key(pos),
    ensures
        crate::versioned::versions_only(entries, key),
{
    assert forall|k: Seq<u8>| #[trigger]
        entries.contains_key(k) && crate::bytes::has_prefix(k, key) implies k.len() == key.len()
        + 8 by {
        assert(is_store_key(k));
        assert(key.len() == 37 || key.len() == 9) by {
            if !is_element_key(key) {
                let pos = choose|pos: u64| key == pos_key(pos);
                crate::bytes::lemma_le_round_trip_value(pos);
            }
        }
        assert(k[0] == key[0]) by {
            assert(k.subrange(0, key.len() as int)[0] == key[0]);
        }
        assert(key[0] == ELEMENT_KEY <==> is_element_key(key)) by {
            if !is_element_key(key) {
                let pos = choose|pos: u64| key == pos_key(pos);
                assert(key[0] == POS_KEY);
            }
        }
        if k == seq![SEQUENCE_KEY] {
            assert(k.len() == 1);
        } else if exists|pos: u64, sequence: u64| k == versioned(pos_key(pos), sequence) {
            let (pos, sequence) = choose|pos: u64, sequence: u64|
                k == versioned(pos_key(pos), sequence);
            crate::bytes::lemma_le_round_trip_value(pos);
            crate::versioned::lemma_version_order(pos_key(pos), sequence, sequence);
            assert(k[0] == POS_KEY);
        } else {
            let (other, sequence) = choose|other: Seq<u8>, sequence: u64|
                is_element_key(other) && k == versioned(other, sequence);
            crate::versioned::lemma_version_order(other, sequence, sequence);
            assert(k[0] == ELEMENT_KEY);
        }
    }
}

} // verus!
