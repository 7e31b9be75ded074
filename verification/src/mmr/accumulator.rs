//! What the append-only accumulator decides.
//!
//! The accumulator keeps a leaf hash for every element, in the order in which
//! the elements came, and beside the tree a record for every element that
//! tells where its leaf stands and what its lifecycle is. A leaf is never
//! taken out: an element that is consumed gets a new leaf hash at the place
//! of the old one.
//!
//! The functions here take what was read from the store and the tree, and
//! give back what is to be written to them. A proof is checked here as well:
//! the tree library computes the root that it gives for the leaves.

use super::merkle::{items_view, leaves_view, verdict, verify_items, MAX_MMR_SIZE};
use super::store::{DefaultStore, ELEMENT_KEY};
use crate::bytes::{le_value, u32_le, u32_to_le, u64_from_le, u64_le, u64_to_le};
use crate::hash::{blake2b_256, hash_bytes};
use crate::versioned::versioned;
use crate::{AccumulatorError, CellStatus, OutPoint, Proof};
use vstd::prelude::*;

pub use crate::hash::H256;

verus! {

/// The leaf hash of an element in a given state: the digest of its origin,
/// its index and its status.
pub open spec fn leaf_digest(out_point: OutPoint, status: Seq<u8>) -> Seq<u8> {
    blake2b_256(out_point.preimage() + status)
}

/// The key of an element's record: the namespace byte, the identity hash and
/// the index.
pub open spec fn element_key(out_point: OutPoint) -> Seq<u8> {
    seq![ELEMENT_KEY] + out_point.identity() + u32_le(out_point.index)
}

/// An element's record: the position of its leaf, then its status.
pub open spec fn element_record(pos: u64, status: CellStatus) -> Seq<u8> {
    u64_le(pos) + status@
}

/// The leaf hash of an element in a given state.
pub fn leaf_hash(out_point: &OutPoint, status: &CellStatus) -> (ret: H256)
    ensures
        ret@ == leaf_digest(*out_point, status@),
{
    let mut buf = out_point.to_bytes();
    buf.extend_from_slice(&status.block_numbers);
    assert(buf@ =~= out_point.preimage() + status@);
    hash_bytes(buf.as_slice())
}

/// The key of an element's record.
pub fn element_key_bytes(out_point: &OutPoint) -> (ret: Vec<u8>)
    ensures
        ret@ == element_key(*out_point),
{
    let mut ret: Vec<u8> = Vec::with_capacity(37);
    ret.push(ELEMENT_KEY);
    let identity = out_point.hash();
    ret.extend_from_slice(&identity);
    let index = u32_to_le(out_point.index);
    ret.extend_from_slice(&index);
    ret
}

/// An element's record.
pub fn element_record_bytes(pos: u64, status: &CellStatus) -> (ret: Vec<u8>)
    ensures
        ret@ == element_record(pos, *status),
{
    let mut ret: Vec<u8> = Vec::with_capacity(24);
    let le = u64_to_le(pos);
    ret.extend_from_slice(&le);
    ret.extend_from_slice(&status.block_numbers);
    ret
}

/// What `delete` decides for one element: the leaf to replace, and the
/// element's new state.
#[derive(Debug)]
pub struct LeafUpdate {
    /// The position of the element's leaf.
    pub pos: u64,
    /// The key of the element's record.
    pub key: Vec<u8>,
    /// The leaf hash of the element as consumed.
    pub hash: H256,
    /// The element's status as consumed.
    pub cell_status: CellStatus,
}

impl LeafUpdate {
    /// The update that marks `out_point`, whose record is `record`, as
    /// consumed at `sequence`: the position is the record's, the created
    /// block stays, the consumed block becomes `sequence`.
    pub open spec fn marks_consumed(
        self,
        out_point: OutPoint,
        record: Seq<u8>,
        sequence: u64,
    ) -> bool {
        &&& self.pos == le_value(record.subrange(0, 8))
        &&& self.key@ == element_key(out_point)
        &&& self.cell_status@ == record.subrange(8, 16) + u64_le(sequence)
        &&& self.hash@ == leaf_digest(out_point, self.cell_status@)
    }

    /// The element's new record.
    pub fn record(&self) -> (ret: Vec<u8>)
        ensures
            ret@ == element_record(self.pos, self.cell_status),
    {
        element_record_bytes(self.pos, &self.cell_status)
    }
}

/// A record gives back what was put into it: the record of an element at
/// `pos` with `status` is a record of 24 bytes whose first eight spell `pos`
/// and whose last sixteen are the status.
pub proof fn lemma_record_round_trip(pos: u64, status: CellStatus)
    ensures
        is_element_record(element_record(pos, status)),
        le_value(element_record(pos, status).subrange(0, 8)) == pos,
        element_record(pos, status).subrange(8, 24) == status@,
{
    let record = element_record(pos, status);
    crate::bytes::lemma_le_round_trip_value(pos);
    assert(record.subrange(0, 8) =~= u64_le(pos));
    assert(record.subrange(8, 24) =~= status@);
}

/// An element is deleted once: the record that a delete writes for an
/// element is not a record that `delete` accepts in any block, so a second
/// delete of the element fails with `ElementNotFound`.
pub proof fn lemma_deleted_is_not_deletable(
    update: LeafUpdate,
    after: Option<Vec<u8>>,
    next: u64,
)
    requires
        !update.cell_status.live(),
        after matches Some(r) && r@ == element_record(update.pos, update.cell_status),
    ensures
        !MMRAccumulator::deletable(after, next),
{
    let r = after->0@;
    lemma_record_round_trip(update.pos, update.cell_status);
    assert(r.subrange(16, 24) =~= r.subrange(8, 24).subrange(8, 16));
}

/// A record that an element's key can hold: a position and a status.
pub open spec fn is_element_record(record: Seq<u8>) -> bool {
    record.len() == 24
}

/// Every record that was found is a position and a status.
pub open spec fn records_well_formed(records: Seq<Option<Vec<u8>>>) -> bool {
    forall|i: int|
        0 <= i < records.len() ==> (#[trigger] records[i] matches Some(r) ==> is_element_record(
            r@,
        ))
}

/// The root of the accumulator at the end of a block, and the block's
/// sequence. Two commitments are the same only where both are.
#[derive(Clone, Copy, Debug, Eq)]
pub struct AccumulatorCommitment {
    root: H256,
    sequence: u64,
}

impl PartialEq for AccumulatorCommitment {
    fn eq(&self, other: &Self) -> (ret: bool) {
        self.root == other.root && self.sequence == other.sequence
    }
}

impl vstd::std_specs::cmp::PartialEqSpecImpl for AccumulatorCommitment {
    open spec fn obeys_eq_spec() -> bool {
        true
    }

    open spec fn eq_spec(&self, other: &Self) -> bool {
        self.root()@ == other.root()@ && self.sequence() == other.sequence()
    }
}

impl AccumulatorCommitment {
    /// The root this commitment holds.
    pub closed spec fn spec_root(&self) -> &H256 {
        &self.root
    }

    /// The sequence this commitment holds.
    pub closed spec fn spec_sequence(&self) -> u64 {
        self.sequence
    }

    /// The commitment to `root` at `sequence`.
    pub fn new(root: H256, sequence: u64) -> (ret: Self)
        ensures
            *ret.root() == root,
            ret.sequence() == sequence,
    {
        AccumulatorCommitment { root, sequence }
    }

    /// The root of the accumulator when the block ended.
    #[verifier::when_used_as_spec(spec_root)]
    pub fn root(&self) -> (ret: &H256)
        ensures
            *ret == self.spec_root(),
    {
        &self.root
    }

    /// The sequence of the block.
    #[verifier::when_used_as_spec(spec_sequence)]
    pub fn sequence(&self) -> (ret: u64)
        ensures
            ret == self.spec_sequence(),
    {
        self.sequence
    }

    /// Whether this is a commitment to `root`: `InvalidCommitment` where it
    /// is to another root.
    pub fn check(&self, root: &H256) -> (ret: Result<(), AccumulatorError>)
        ensures
            match ret {
                Ok(_) => self.root()@ == root@,
                Err(AccumulatorError::InvalidCommitment) => self.root()@ != root@,
                Err(_) => false,
            },
    {
        if self.root != *root {
            return Err(AccumulatorError::InvalidCommitment);
        }
        Ok(())
    }
}

/// The accumulator: the versioned store it reads and writes through.
pub struct MMRAccumulator {
    store: DefaultStore,
}

impl MMRAccumulator {
    /// The store of this accumulator.
    pub closed spec fn spec_store(&self) -> &DefaultStore {
        &self.store
    }

    /// The sequence of the block that is being filled.
    pub open spec fn sequence(&self) -> u64 {
        self.spec_store().sequence()
    }

    /// The accumulator over the store at its latest sequence. `record` is
    /// what the store holds under the counter's key.
    pub fn new(record: Option<Vec<u8>>) -> (ret: Self)
        requires
            record matches Some(v) ==> v@.len() == 8,
        ensures
            ret.sequence() == crate::versioned::stored_sequence(
                crate::versioned::value_view(record),
            ),
    {
        MMRAccumulator { store: DefaultStore::new(record) }
    }

    /// The accumulator over the store as of `sequence`, for reading.
    pub fn new_with_sequence(record: Option<Vec<u8>>, sequence: u64) -> (ret: Self)
        requires
            record matches Some(v) ==> v@.len() == 8,
            sequence <= crate::versioned::stored_sequence(crate::versioned::value_view(record)),
        ensures
            ret.sequence() == sequence,
    {
        MMRAccumulator { store: DefaultStore::new_with_sequence(record, sequence) }
    }

    /// The store of this accumulator.
    #[verifier::when_used_as_spec(spec_store)]
    pub fn store(&self) -> (ret: &DefaultStore)
        ensures
            *ret == self.spec_store(),
    {
        &self.store
    }

    /// The leaves to push for new elements, in the order of the elements:
    /// each is the leaf hash of its element as live and created by the
    /// current block. Whether an element is already there is not looked at.
    pub fn add(&self, elements: &Vec<OutPoint>) -> (leaves: Vec<H256>)
        ensures
            leaves@.len() == elements@.len(),
            forall|i: int|
                #![trigger leaves@[i]]
                0 <= i < elements@.len() ==> leaves@[i]@ == leaf_digest(
                    elements@[i],
                    u64_le(self.sequence()) + crate::live_marker(),
                ),
    {
        let status = CellStatus::new_live(self.store.sequence());
        let mut leaves: Vec<H256> = Vec::with_capacity(elements.len());
        let mut i: usize = 0;
        while i < elements.len()
            invariant
                i <= elements@.len(),
                leaves@.len() == i,
                status@ == u64_le(self.sequence()) + crate::live_marker(),
                forall|j: int|
                    #![trigger leaves@[j]]
                    0 <= j < i ==> leaves@[j]@ == leaf_digest(elements@[j], status@),
            decreases elements@.len() - i,
        {
            leaves.push(leaf_hash(&elements[i], &status));
            i += 1;
        }
        leaves
    }

    /// The entries to write for new elements once their leaves are pushed:
    /// for each element its record, which holds the position that its leaf
    /// got and its status as live and created by the current block.
    pub fn index(&self, elements: &Vec<OutPoint>, positions: &Vec<u64>) -> (entries: Vec<
        (Vec<u8>, Vec<u8>),
    >)
        requires
            positions@.len() == elements@.len(),
        ensures
            entries@.len() == elements@.len(),
            forall|i: int|
                #![trigger entries@[i]]
                0 <= i < elements@.len() ==> {
                    &&& entries@[i].0@ == versioned(element_key(elements@[i]), self.sequence())
                    &&& entries@[i].1@ == u64_le(positions@[i]) + u64_le(self.sequence())
                        + crate::live_marker()
                },
    {
        let status = CellStatus::new_live(self.store.sequence());
        let mut entries: Vec<(Vec<u8>, Vec<u8>)> = Vec::with_capacity(elements.len());
        let mut i: usize = 0;
        while i < elements.len()
            invariant
                i <= elements@.len(),
                positions@.len() == elements@.len(),
                entries@.len() == i,
                status@ == u64_le(self.sequence()) + crate::live_marker(),
                forall|j: int|
                    #![trigger entries@[j]]
                    0 <= j < i ==> {
                        &&& entries@[j].0@ == versioned(
                            element_key(elements@[j]),
                            self.sequence(),
                        )
                        &&& entries@[j].1@ == u64_le(positions@[j]) + u64_le(self.sequence())
                            + crate::live_marker()
                    },
            decreases elements@.len() - i,
        {
            let key = element_key_bytes(&elements[i]);
            let value = element_record_bytes(positions[i], &status);
            proof {
                assert(value@ =~= u64_le(positions@[i as int]) + u64_le(self.sequence())
                    + crate::live_marker());
            }
            entries.push(self.store.put(key.as_slice(), value));
            i += 1;
        }
        entries
    }

    /// An element with this record can be deleted in the block `sequence`:
    /// the record is there, its status is live, and the block is not the one
    /// whose number marks a live element.
    pub open spec fn deletable(record: Option<Vec<u8>>, sequence: u64) -> bool {
        &&& record matches Some(r) && is_element_record(r@) && r@.subrange(16, 24)
            == crate::live_marker()
        &&& sequence < u64::MAX
    }

    /// What it takes to mark `elements` as consumed by the current block.
    /// `records[i]` is what the store holds under the key of `elements[i]`.
    ///
    /// Nothing is decided for any element unless every element has a record
    /// and is live: the first element without a record, or whose record says
    /// that it is consumed already, fails the whole call with
    /// `ElementNotFound` and its index; so does the first element of any
    /// call in the largest block, whose number would leave it live.
    /// Otherwise each element gets the update that keeps its position and
    /// its created block and sets its consumed block to the current
    /// sequence, and is live no more.
    pub fn delete(&self, elements: &Vec<OutPoint>, records: &Vec<Option<Vec<u8>>>) -> (ret: Result<
        Vec<LeafUpdate>,
        AccumulatorError,
    >)
        requires
            records@.len() == elements@.len(),
            records_well_formed(records@),
        ensures
            match ret {
                Ok(updates) => {
                    &&& forall|i: int|
                        0 <= i < records@.len() ==> Self::deletable(
                            #[trigger] records@[i],
                            self.sequence(),
                        )
                    &&& updates@.len() == elements@.len()
                    &&& forall|i: int|
                        #![trigger updates@[i]]
                        0 <= i < elements@.len() ==> {
                            &&& updates@[i].marks_consumed(
                                elements@[i],
                                records@[i]->0@,
                                self.sequence(),
                            )
                            &&& !updates@[i].cell_status.live()
                        }
                },
                Err(AccumulatorError::ElementNotFound(i)) => {
                    &&& 0 <= i < records@.len()
                    &&& !Self::deletable(records@[i as int], self.sequence())
                    &&& forall|j: int|
                        0 <= j < i ==> Self::deletable(#[trigger] records@[j], self.sequence())
                },
                Err(_) => false,
            },
    {
        let sequence = self.store.sequence();
        let mut updates: Vec<LeafUpdate> = Vec::with_capacity(elements.len());
        let mut i: usize = 0;
        while i < elements.len()
            invariant
                i <= elements@.len(),
                records@.len() == elements@.len(),
                records_well_formed(records@),
                sequence == self.sequence(),
                updates@.len() == i,
                forall|j: int| 0 <= j < i ==> Self::deletable(#[trigger] records@[j], sequence),
                forall|j: int|
                    #![trigger updates@[j]]
                    0 <= j < i ==> {
                        &&& updates@[j].marks_consumed(elements@[j], records@[j]->0@, sequence)
                        &&& !updates@[j].cell_status.live()
                    },
            decreases elements@.len() - i,
        {
            match &records[i] {
                Some(record) => {
                    assert(is_element_record(record@)) by {
                        assert(records@[i as int] matches Some(r) ==> is_element_record(r@));
                    }
                    let slice = record.as_slice();
                    let pos = u64_from_le(slice_range(slice, 0, 8));
                    let mut cell_status = CellStatus::from_bytes(slice_range(slice, 8, 24));
                    proof {
                        assert(record@.subrange(8, 24).subrange(0, 8) =~= record@.subrange(
                            8,
                            16,
                        ));
                        assert(record@.subrange(8, 24).subrange(8, 16) =~= record@.subrange(
                            16,
                            24,
                        ));
                    }
                    if !cell_status.is_live() || sequence == u64::MAX {
                        return Err(AccumulatorError::ElementNotFound(i));
                    }
                    cell_status.mark_as_dead(sequence);
                    let key = element_key_bytes(&elements[i]);
                    let hash = leaf_hash(&elements[i], &cell_status);
                    updates.push(LeafUpdate { pos, key, hash, cell_status });
                },
                None => {
                    return Err(AccumulatorError::ElementNotFound(i));
                },
            }
            i += 1;
        }
        Ok(updates)
    }

    /// Ends the current block. `root` is the root of the tree as it stands.
    /// Returns the commitment to `root` at the block's sequence, and the
    /// entry that records the next sequence in the store.
    pub fn commit(&mut self, root: H256) -> (ret: (AccumulatorCommitment, (Vec<u8>, Vec<u8>)))
        requires
            old(self).sequence() < u64::MAX,
        ensures
            *ret.0.root() == root,
            ret.0.sequence() == old(self).sequence(),
            final(self).sequence() == old(self).sequence() + 1,
            ret.1.0@ == seq![super::store::SEQUENCE_KEY],
            ret.1.1@ == crate::bytes::u64_be(final(self).sequence()),
    {
        let sequence = self.store.sequence();
        let entry = self.store.commit();
        (AccumulatorCommitment::new(root, sequence), entry)
    }

    /// The positions to prove for `elements` against `commitment`. `root` is
    /// the root of the tree as it stands, and `records[i]` is what the store
    /// holds under the key of `elements[i]`.
    ///
    /// A commitment to another root fails with `InvalidCommitment`, whatever
    /// the elements. Otherwise the first element without a record fails the
    /// call with `ElementNotFound` and its index, and where every element has
    /// one, the positions are those of the records, in the order of the
    /// elements.
    pub fn prove(
        &self,
        commitment: &AccumulatorCommitment,
        root: &H256,
        elements: &Vec<OutPoint>,
        records: &Vec<Option<Vec<u8>>>,
    ) -> (ret: Result<Vec<u64>, AccumulatorError>)
        requires
            records@.len() == elements@.len(),
            records_well_formed(records@),
        ensures
            match ret {
                Ok(pos_list) => {
                    &&& commitment.root()@ == root@
                    &&& forall|i: int| 0 <= i < records@.len() ==> records@[i] is Some
                    &&& pos_list@.len() == elements@.len()
                    &&& forall|i: int|
                        #![trigger pos_list@[i]]
                        0 <= i < elements@.len() ==> pos_list@[i] == le_value(
                            records@[i]->0@.subrange(0, 8),
                        )
                },
                Err(AccumulatorError::InvalidCommitment) => commitment.root()@ != root@,
                Err(AccumulatorError::ElementNotFound(i)) => {
                    &&& commitment.root()@ == root@
                    &&& 0 <= i < records@.len()
                    &&& records@[i as int] is None
                    &&& forall|j: int| 0 <= j < i ==> records@[j] is Some
                },
                Err(_) => false,
            },
    {
        if let Err(e) = commitment.check(root) {
            return Err(e);
        }
        let mut pos_list: Vec<u64> = Vec::with_capacity(elements.len());
        let mut i: usize = 0;
        while i < elements.len()
            invariant
                i <= elements@.len(),
                records@.len() == elements@.len(),
                records_well_formed(records@),
                commitment.root()@ == root@,
                pos_list@.len() == i,
                forall|j: int| 0 <= j < i ==> records@[j] is Some,
                forall|j: int|
                    #![trigger pos_list@[j]]
                    0 <= j < i ==> pos_list@[j] == le_value(records@[j]->0@.subrange(0, 8)),
            decreases elements@.len() - i,
        {
            match &records[i] {
                Some(record) => {
                    assert(is_element_record(record@)) by {
                        assert(records@[i as int] matches Some(r) ==> is_element_record(r@));
                    }
                    pos_list.push(u64_from_le(slice_range(record.as_slice(), 0, 8)));
                },
                None => {
                    return Err(AccumulatorError::ElementNotFound(i));
                },
            }
            i += 1;
        }
        Ok(pos_list)
    }
}

/// The part of `s` from `from` up to `to`.
fn slice_range(s: &[u8], from: usize, to: usize) -> (ret: &[u8])
    requires
        from <= to <= s@.len(),
    ensures
        ret@ == s@.subrange(from as int, to as int),
{
    vstd::slice::slice_subrange(s, from, to)
}

/// The proof that a set of leaves is in the accumulator: the size of the
/// accumulator it was made from, the hashes that lead from the leaves to the
/// root, and the positions of the leaves.
#[derive(Debug)]
pub struct AccumulatorProof {
    mmr_size: u64,
    items: Vec<H256>,
    pos_list: Vec<u64>,
}

impl AccumulatorProof {
    /// The positions of the leaves that the proof is about.
    pub closed spec fn spec_pos_list(&self) -> Seq<u64> {
        self.pos_list@
    }

    /// The size of the accumulator that the proof was made from.
    pub closed spec fn spec_mmr_size(&self) -> u64 {
        self.mmr_size
    }

    /// The hashes that lead from the leaves to the root.
    pub closed spec fn spec_items(&self) -> Seq<H256> {
        self.items@
    }

    /// The proof made of these parts.
    pub fn new(mmr_size: u64, items: Vec<H256>, pos_list: Vec<u64>) -> (ret: Self)
        ensures
            ret.spec_mmr_size() == mmr_size,
            ret.spec_items() == items@,
            ret.spec_pos_list() == pos_list@,
    {
        AccumulatorProof { mmr_size, items, pos_list }
    }

    /// The size of the accumulator that the proof was made from.
    pub fn mmr_size(&self) -> (ret: u64)
        ensures
            ret == self.spec_mmr_size(),
    {
        self.mmr_size
    }

    /// The hashes that lead from the leaves to the root.
    pub fn items(&self) -> (ret: &Vec<H256>)
        ensures
            ret@ == self.spec_items(),
    {
        &self.items
    }

    /// The positions of the leaves that the proof is about.
    pub fn pos_list(&self) -> (ret: &Vec<u64>)
        ensures
            ret@ == self.spec_pos_list(),
    {
        &self.pos_list
    }

    /// The leaves that the proof has to show for `elements` in the states
    /// given: for each element, the position the proof holds for it and the
    /// leaf hash of the element in that state. Fails with `InvalidProof`
    /// exactly when the proof is not about as many leaves as there are
    /// elements.
    pub fn leaves(&self, elements: &Vec<(OutPoint, CellStatus)>) -> (ret: Result<
        Vec<(u64, H256)>,
        AccumulatorError,
    >)
        ensures
            match ret {
                Ok(leaves) => {
                    &&& elements@.len() == self.spec_pos_list().len()
                    &&& leaves@.len() == elements@.len()
                    &&& forall|i: int|
                        #![trigger leaves@[i]]
                        0 <= i < elements@.len() ==> {
                            &&& leaves@[i].0 == self.spec_pos_list()[i]
                            &&& leaves@[i].1@ == leaf_digest(elements@[i].0, elements@[i].1@)
                        }
                },
                Err(AccumulatorError::InvalidProof) => elements@.len()
                    != self.spec_pos_list().len(),
                Err(_) => false,
            },
    {
        if elements.len() != self.pos_list.len() {
            return Err(AccumulatorError::InvalidProof);
        }
        let mut leaves: Vec<(u64, H256)> = Vec::with_capacity(elements.len());
        let mut i: usize = 0;
        while i < elements.len()
            invariant
                i <= elements@.len(),
                elements@.len() == self.pos_list@.len(),
                leaves@.len() == i,
                forall|j: int|
                    #![trigger leaves@[j]]
                    0 <= j < i ==> {
                        &&& leaves@[j].0 == self.pos_list@[j]
                        &&& leaves@[j].1@ == leaf_digest(elements@[j].0, elements@[j].1@)
                    },
            decreases elements@.len() - i,
        {
            let hash = leaf_hash(&elements[i].0, &elements[i].1);
            leaves.push((self.pos_list[i], hash));
            i += 1;
        }
        Ok(leaves)
    }
}

/// The leaves that a proof has to show for elements in given states: the
/// positions it holds, each with the leaf hash of its element.
pub open spec fn leaves_of(pos_list: Seq<u64>, elements: Seq<(OutPoint, CellStatus)>) -> Seq<
    (u64, Seq<u8>),
> {
    Seq::new(elements.len(), |i: int| (pos_list[i], leaf_digest(elements[i].0, elements[i].1@)))
}

impl Proof for AccumulatorProof {
    type Item = (OutPoint, CellStatus);

    type Commitment = AccumulatorCommitment;

    /// Checks the proof against a commitment, for elements in the states
    /// given.
    ///
    /// A proof that is not about as many leaves as there are elements, or
    /// that is of an accumulator larger than `MAX_MMR_SIZE`, fails with
    /// `InvalidProof`. Otherwise the result is `Ok(true)` exactly where the
    /// root that the proof gives for the elements' leaves is the commitment's
    /// root, and `Ok(false)` where it gives another root; where it gives
    /// none, the check fails with an `InternalError`.
    fn verify(
        self,
        commitment: AccumulatorCommitment,
        elements: Vec<(OutPoint, CellStatus)>,
    ) -> (ret: Result<bool, AccumulatorError>)
        ensures
            elements@.len() != self.spec_pos_list().len() || self.spec_mmr_size() > MAX_MMR_SIZE
                ==> ret matches Err(AccumulatorError::InvalidProof),
            elements@.len() == self.spec_pos_list().len() && self.spec_mmr_size() <= MAX_MMR_SIZE
                ==> match verdict(
                self.spec_mmr_size(),
                items_view(self.spec_items()),
                commitment.root()@,
                leaves_of(self.spec_pos_list(), elements@),
            ) {
                Some(b) => ret == Ok::<bool, AccumulatorError>(b),
                None => ret matches Err(AccumulatorError::InternalError(_)),
            },
    {
        if self.mmr_size > MAX_MMR_SIZE {
            return Err(AccumulatorError::InvalidProof);
        }
        match self.leaves(&elements) {
            Ok(leaves) => {
                assert(leaves_view(leaves@) =~= leaves_of(self.spec_pos_list(), elements@));
                verify_items(self.mmr_size, &self.items, commitment.root(), leaves)
            },
            Err(e) => Err(e),
        }
    }
}

} // verus!
