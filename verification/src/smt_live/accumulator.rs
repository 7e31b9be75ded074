//! What the live accumulator decides.
//!
//! The live tree holds the elements that are live and nothing else: adding
//! an element writes the block that created it under the element's identity,
//! deleting it takes the leaf out again. What happened to an element is kept
//! beside the tree, in a record that holds the creating block and, once the
//! element is consumed, the consuming block after it.
//!
//! So the state of an element is shown in two parts: a proof that the
//! element was in the tree at the commitment of its creating block, and for a
//! consumed element a proof that it was no longer there at a later
//! commitment.

use super::store::{element_key, element_key_bytes, DefaultStore};
use crate::bytes::{le_value, u64_from_le, u64_le};
use crate::hash::H256;
use crate::smt::merkle::{compiled_proof_root, leaves_view, verify_compiled};
use crate::{AccumulatorError, BlockNumber, CellStatus, OutPoint, Proof};
use vstd::prelude::*;

verus! {

/// The root of the accumulator at the end of a block, and the block's
/// sequence. Two commitments are the same only where both are.
#[derive(Clone, Copy, Debug, Eq)]
pub struct AccumulatorCommitment {
    root: H256,
    sequence: u64,
}

impl PartialEq for AccumulatorCommitment {
    fn eq(&self, other: &Self) -> (ret: bool) {
        self.root == other.root && self.sequence == other.sequence
    }
}

impl vstd::std_specs::cmp::PartialEqSpecImpl for AccumulatorCommitment {
    open spec fn obeys_eq_spec() -> bool {
        true
    }

    open spec fn eq_spec(&self, other: &Self) -> bool {
        self.root()@ == other.root()@ && self.sequence() == other.sequence()
    }
}

impl AccumulatorCommitment {
    /// The root this commitment holds.
    pub closed spec fn spec_root(&self) -> &H256 {
        &self.root
    }

    /// The sequence this commitment holds.
    pub closed spec fn spec_sequence(&self) -> u64 {
        self.sequence
    }

    /// The commitment to `root` at `sequence`.
    pub fn new(root: H256, sequence: u64) -> (ret: Self)
        ensures
            *ret.root() == root,
            ret.sequence() == sequence,
    {
        AccumulatorCommitment { root, sequence }
    }

    /// The root of the accumulator when the block ended.
    #[verifier::when_used_as_spec(spec_root)]
    pub fn root(&self) -> (ret: &H256)
        ensures
            *ret == self.spec_root(),
    {
        &self.root
    }

    /// The sequence of the block.
    #[verifier::when_used_as_spec(spec_sequence)]
    pub fn sequence(&self) -> (ret: u64)
        ensures
            ret == self.spec_sequence(),
    {
        self.sequence
    }

    /// Whether this is a commitment to `root`: `InvalidCommitment` where it
    /// is to another root.
    pub fn check(&self, root: &H256) -> (ret: Result<(), AccumulatorError>)
        ensures
            match ret {
                Ok(_) => self.root()@ == root@,
                Err(AccumulatorError::InvalidCommitment) => self.root()@ != root@,
                Err(_) => false,
            },
    {
        if self.root != *root {
            return Err(AccumulatorError::InvalidCommitment);
        }
        Ok(())
    }
}

/// A record that an element's key can hold: the creating block, and for a
/// consumed element the consuming block after it.
pub open spec fn is_record(record: Seq<u8>) -> bool {
    record.len() == 8 || record.len() == 16
}

/// Every record that was found is the record of an element.
pub open spec fn records_well_formed(records: Seq<Option<Vec<u8>>>) -> bool {
    forall|i: int|
        0 <= i < records.len() ==> (#[trigger] records[i] matches Some(r) ==> is_record(r@))
}

/// The block that created the element of a record.
pub open spec fn created_of(record: Seq<u8>) -> nat {
    le_value(record.subrange(0, 8))
}

/// The element of this record is in the accumulator as of `sequence`: there
/// is a record, and the block that created the element is not after
/// `sequence`.
pub open spec fn known_as_of(record: Option<Vec<u8>>, sequence: u64) -> bool {
    record matches Some(r) && created_of(r@) <= sequence
}

/// The block that consumed the element of a record, as of `sequence`: the
/// consuming block that the record holds, unless it is after `sequence`;
/// nothing for an element that is live as of `sequence`.
pub open spec fn consumed_as_of(record: Seq<u8>, sequence: u64) -> Option<u64> {
    if record.len() == 16 && le_value(record.subrange(8, 16)) <= sequence {
        Some(le_value(record.subrange(8, 16)) as u64)
    } else {
        None
    }
}

/// What is owed to show one element: the two parts of its proof.
///
/// The creation proof is owed always. It is a proof for `key` made from the
/// tree as of the sequence `created`, and it is checked against the
/// commitment of that block. The consumption proof is owed exactly where
/// `consumed` holds a block. It is a proof for `key` made from the tree of
/// the view that was asked, and it is checked against the commitment that
/// was asked with.
#[derive(Clone, Copy, Debug, PartialEq, Eq)]
pub struct ProofRequest {
    /// The identity hash of the element.
    pub key: H256,
    /// The block that created the element.
    pub created: u64,
    /// The block that consumed the element, where it is consumed.
    pub consumed: Option<u64>,
}

impl ProofRequest {
    /// The status that the two parts show: live and created by `created`, or
    /// created by `created` and consumed by the block in `consumed`.
    pub fn status(&self) -> (ret: CellStatus)
        ensures
            ret@ == u64_le(self.created) + match self.consumed {
                Some(by) => u64_le(by),
                None => crate::live_marker(),
            },
            ret.created_by() == self.created,
            ret.live() <==> (self.consumed is None || self.consumed == Some(u64::MAX)),
    {
        match self.consumed {
            Some(by) => CellStatus::new_dead(self.created, by),
            None => CellStatus::new_live(self.created),
        }
    }
}

/// What one block's `add` or `delete` writes: the element records, and the
/// leaves of the tree.
pub struct Changes {
    /// The element records: key and value, written as they are.
    pub records: Vec<(Vec<u8>, Vec<u8>)>,
    /// The leaves: the identity hash of an element and its new value.
    pub leaves: Vec<(H256, BlockNumber)>,
}

/// A record of a live element: the block that created it.
pub open spec fn is_live_record(record: Seq<u8>) -> bool {
    record.len() == 8
}

/// The record of a consumed element is its status: the record that `add`
/// wrote at one sequence, with what `delete` put after it at another, is the
/// status "created by the first, consumed by the second".
pub proof fn lemma_record_is_status(status: CellStatus, created: u64, consumed: u64)
    requires
        status@ == u64_le(created) + u64_le(consumed),
    ensures
        is_live_record(u64_le(created)),
        status.created_by() == created,
        status.consumed_by() == consumed,
        status.live() <==> consumed == u64::MAX,
{
    crate::bytes::lemma_le_round_trip_value(created);
    crate::bytes::lemma_le_round_trip_value(consumed);
    crate::lemma_live_marker_value();
    crate::bytes::lemma_le_bytes_of_value(crate::live_marker());
    assert(status.created_bytes() =~= u64_le(created));
    assert(status.consumed_bytes() =~= u64_le(consumed));
}

/// An element is deleted once: the record that a delete writes for an
/// element is not a record that `delete` accepts in any block, so a second
/// delete of the element fails with `ElementNotFound`.
pub proof fn lemma_deleted_is_not_deletable(
    before: Option<Vec<u8>>,
    sequence: u64,
    after: Option<Vec<u8>>,
    next: u64,
)
    requires
        SMTAccumulator::deletable(before, sequence),
        after matches Some(r) && r@ == before->0@ + u64_le(sequence),
    ensures
        !SMTAccumulator::deletable(after, next),
        consumed_as_of(after->0@, sequence) == Some(sequence),
{
    crate::bytes::lemma_le_round_trip_value(sequence);
    let r = after->0@;
    assert(r.subrange(8, 16) =~= u64_le(sequence));
}

/// The accumulator: the versioned store it reads and writes through.
pub struct SMTAccumulator {
    store: DefaultStore,
}

impl SMTAccumulator {
    /// The store of this accumulator.
    pub closed spec fn spec_store(&self) -> &DefaultStore {
        &self.store
    }

    /// The sequence of the block that is being filled.
    pub open spec fn sequence(&self) -> u64 {
        self.spec_store().sequence()
    }

    /// The accumulator over the store at its latest sequence. `record` is
    /// what the store holds under the counter's key.
    pub fn new(record: Option<Vec<u8>>) -> (ret: Self)
        requires
            record matches Some(v) ==> v@.len() == 8,
        ensures
            ret.sequence() == crate::versioned::stored_sequence(
                crate::versioned::value_view(record),
            ),
    {
        SMTAccumulator { store: DefaultStore::new(record) }
    }

    /// The accumulator over the store as of `sequence`, for reading.
    pub fn new_with_sequence(record: Option<Vec<u8>>, sequence: u64) -> (ret: Self)
        requires
            record matches Some(v) ==> v@.len() == 8,
            sequence <= crate::versioned::stored_sequence(crate::versioned::value_view(record)),
        ensures
            ret.sequence() == sequence,
    {
        SMTAccumulator { store: DefaultStore::new_with_sequence(record, sequence) }
    }

    /// The store of this accumulator.
    #[verifier::when_used_as_spec(spec_store)]
    pub fn store(&self) -> (ret: &DefaultStore)
        ensures
            *ret == self.spec_store(),
    {
        &self.store
    }

    /// What to write for new elements: for each element a record that holds
    /// the current sequence, and a leaf with the current sequence under the
    /// element's identity. Whether an element is already there is not looked
    /// at.
    pub fn add(&self, elements: &Vec<OutPoint>) -> (changes: Changes)
        ensures
            changes.records@.len() == elements@.len(),
            changes.leaves@.len() == elements@.len(),
            forall|i: int|
                #![trigger changes.records@[i]]
                0 <= i < elements@.len() ==> {
                    &&& changes.records@[i].0@ == element_key(elements@[i])
                    &&& changes.records@[i].1@ == u64_le(self.sequence())
                },
            forall|i: int|
                #![trigger changes.leaves@[i]]
                0 <= i < elements@.len() ==> {
                    &&& changes.leaves@[i].0@ == elements@[i].identity()
                    &&& changes.leaves@[i].1@ == u64_le(self.sequence())
                },
    {
        let sequence = self.store.sequence();
        let created = BlockNumber::new(sequence);
        let mut records: Vec<(Vec<u8>, Vec<u8>)> = Vec::with_capacity(elements.len());
        let mut leaves: Vec<(H256, BlockNumber)> = Vec::with_capacity(elements.len());
        let mut i: usize = 0;
        while i < elements.len()
            invariant
                i <= elements@.len(),
                records@.len() == i,
                leaves@.len() == i,
                created@ == u64_le(self.sequence()),
                forall|j: int|
                    #![trigger records@[j]]
                    0 <= j < i ==> {
                        &&& records@[j].0@ == element_key(elements@[j])
                        &&& records@[j].1@ == u64_le(self.sequence())
                    },
                forall|j: int|
                    #![trigger leaves@[j]]
                    0 <= j < i ==> {
                        &&& leaves@[j].0@ == elements@[j].identity()
                        &&& leaves@[j].1@ == u64_le(self.sequence())
                    },
            decreases elements@.len() - i,
        {
            let mut value: Vec<u8> = Vec::with_capacity(8);
            value.extend_from_slice(&created.0);
            records.push((element_key_bytes(&elements[i]), value));
            leaves.push((H256(elements[i].hash()), created));
            i += 1;
        }
        Changes { records, leaves }
    }

    /// What to write to mark `elements` as consumed by the current block.
    /// `records[i]` is what the store holds under the key of `elements[i]`.
    ///
    /// Nothing is decided for any element unless every element has the
    /// record of a live element: the first element without a record, or with
    /// the record of a consumed element, fails the whole call with
    /// `ElementNotFound` and its index. Otherwise each element's record gets
    /// the current sequence after the creating block, and its leaf is taken
    /// out of the tree.
    pub fn delete(&self, elements: &Vec<OutPoint>, records: &Vec<Option<Vec<u8>>>) -> (ret: Result<
        Changes,
        AccumulatorError,
    >)
        requires
            records@.len() == elements@.len(),
        ensures
            match ret {
                Ok(changes) => {
                    &&& forall|i: int|
                        0 <= i < records@.len() ==> Self::deletable(
                            #[trigger] records@[i],
                            self.sequence(),
                        )
                    &&& changes.records@.len() == elements@.len()
                    &&& changes.leaves@.len() == elements@.len()
                    &&& forall|i: int|
                        #![trigger changes.records@[i]]
                        0 <= i < elements@.len() ==> {
                            &&& changes.records@[i].0@ == element_key(elements@[i])
                            &&& changes.records@[i].1@ == records@[i]->0@ + u64_le(
                                self.sequence(),
                            )
                        }
                    &&& forall|i: int|
                        #![trigger changes.leaves@[i]]
                        0 <= i < elements@.len() ==> {
                            &&& changes.leaves@[i].0@ == elements@[i].identity()
                            &&& changes.leaves@[i].1.absent()
                        }
                },
                Err(AccumulatorError::ElementNotFound(i)) => {
                    &&& 0 <= i < records@.len()
                    &&& !Self::deletable(records@[i as int], self.sequence())
                    &&& forall|j: int|
                        0 <= j < i ==> Self::deletable(#[trigger] records@[j], self.sequence())
                },
                Err(_) => false,
            },
    {
        let sequence = self.store.sequence();
        let consumed = BlockNumber::new(sequence);
        let mut i: usize = 0;
        while i < records.len()
            invariant
                i <= records@.len(),
                sequence == self.sequence(),
                forall|j: int| 0 <= j < i ==> Self::deletable(#[trigger] records@[j], sequence),
            decreases records@.len() - i,
        {
            let live = match &records[i] {
                Some(record) => record.len() == 8 && sequence < u64::MAX,
                None => false,
            };
            if !live {
                return Err(AccumulatorError::ElementNotFound(i));
            }
            i += 1;
        }
        let mut new_records: Vec<(Vec<u8>, Vec<u8>)> = Vec::with_capacity(elements.len());
        let mut leaves: Vec<(H256, BlockNumber)> = Vec::with_capacity(elements.len());
        let mut i: usize = 0;
        while i < elements.len()
            invariant
                i <= elements@.len(),
                records@.len() == elements@.len(),
                new_records@.len() == i,
                leaves@.len() == i,
                consumed@ == u64_le(self.sequence()),
                forall|j: int|
                    0 <= j < records@.len() ==> Self::deletable(
                        #[trigger] records@[j],
                        self.sequence(),
                    ),
                forall|j: int|
                    #![trigger new_records@[j]]
                    0 <= j < i ==> {
                        &&& new_records@[j].0@ == element_key(elements@[j])
                        &&& new_records@[j].1@ == records@[j]->0@ + u64_le(self.sequence())
                    },
                forall|j: int|
                    #![trigger leaves@[j]]
                    0 <= j < i ==> {
                        &&& leaves@[j].0@ == elements@[j].identity()
                        &&& leaves@[j].1.absent()
                    },
            decreases elements@.len() - i,
        {
            assert(Self::deletable(records@[i as int], self.sequence()));
            match &records[i] {
                Some(record) => {
                    let mut value: Vec<u8> = Vec::with_capacity(16);
                    value.extend_from_slice(record.as_slice());
                    value.extend_from_slice(&consumed.0);
                    new_records.push((element_key_bytes(&elements[i]), value));
                    leaves.push((H256(elements[i].hash()), BlockNumber::zero()));
                },
                None => {},
            }
            i += 1;
        }
        Ok(Changes { records: new_records, leaves })
    }

    /// An element with this record can be deleted in the block `sequence`:
    /// the record is there, it is the record of a live element, and the block
    /// is not the one whose number marks a live element.
    pub open spec fn deletable(record: Option<Vec<u8>>, sequence: u64) -> bool {
        &&& record matches Some(r) && is_live_record(r@)
        &&& sequence < u64::MAX
    }

    /// Ends the current block. `root` is the root of the tree as it stands.
    /// Returns the commitment to `root` at the block's sequence, and the
    /// entry that records the next sequence in the store.
    pub fn commit(&mut self, root: H256) -> (ret: (AccumulatorCommitment, (Vec<u8>, Vec<u8>)))
        requires
            old(self).sequence() < u64::MAX,
        ensures
            *ret.0.root() == root,
            ret.0.sequence() == old(self).sequence(),
            final(self).sequence() == old(self).sequence() + 1,
            ret.1.0@ == crate::smt::store::sequence_key(),
            ret.1.1@ == crate::bytes::u64_be(final(self).sequence()),
    {
        let sequence = self.store.sequence();
        let entry = self.store.commit();
        (AccumulatorCommitment::new(root, sequence), entry)
    }

    /// What is owed to show `elements` as of this view, against
    /// `commitment`. `root` is the root of the tree as it stands, and
    /// `records[i]` is what the store holds under the key of `elements[i]`.
    ///
    /// A commitment to another root fails with `InvalidCommitment`, whatever
    /// the elements. Otherwise the first element that has no record, or that
    /// was created after this view's sequence, fails the call with
    /// `ElementNotFound` and its index. Where every element is known, each
    /// gets its request: its key, the block that created it, and, exactly
    /// where it was consumed by this view's sequence, the block that
    /// consumed it.
    pub fn prove(
        &self,
        commitment: &AccumulatorCommitment,
        root: &H256,
        elements: &Vec<OutPoint>,
        records: &Vec<Option<Vec<u8>>>,
    ) -> (ret: Result<Vec<ProofRequest>, AccumulatorError>)
        requires
            records@.len() == elements@.len(),
            records_well_formed(records@),
        ensures
            match ret {
                Ok(requests) => {
                    &&& commitment.root()@ == root@
                    &&& forall|i: int|
                        0 <= i < records@.len() ==> known_as_of(
                            #[trigger] records@[i],
                            self.sequence(),
                        )
                    &&& requests@.len() == elements@.len()
                    &&& forall|i: int|
                        #![trigger requests@[i]]
                        0 <= i < elements@.len() ==> {
                            &&& requests@[i].key@ == elements@[i].identity()
                            &&& requests@[i].created == created_of(records@[i]->0@)
                            &&& requests@[i].consumed == consumed_as_of(
                                records@[i]->0@,
                                self.sequence(),
                            )
                        }
                },
                Err(AccumulatorError::InvalidCommitment) => commitment.root()@ != root@,
                Err(AccumulatorError::ElementNotFound(i)) => {
                    &&& commitment.root()@ == root@
                    &&& 0 <= i < records@.len()
                    &&& !known_as_of(records@[i as int], self.sequence())
                    &&& forall|j: int|
                        0 <= j < i ==> known_as_of(#[trigger] records@[j], self.sequence())
                },
                Err(_) => false,
            },
    {
        if let Err(e) = commitment.check(root) {
            return Err(e);
        }
        let sequence = self.store.sequence();
        let mut requests: Vec<ProofRequest> = Vec::with_capacity(elements.len());
        let mut i: usize = 0;
        while i < elements.len()
            invariant
                i <= elements@.len(),
                records@.len() == elements@.len(),
                records_well_formed(records@),
                commitment.root()@ == root@,
                sequence == self.sequence(),
                requests@.len() == i,
                forall|j: int| 0 <= j < i ==> known_as_of(#[trigger] records@[j], sequence),
                forall|j: int|
                    #![trigger requests@[j]]
                    0 <= j < i ==> {
                        &&& requests@[j].key@ == elements@[j].identity()
                        &&& requests@[j].created == created_of(records@[j]->0@)
                        &&& requests@[j].consumed == consumed_as_of(records@[j]->0@, sequence)
                    },
            decreases elements@.len() - i,
        {
            match &records[i] {
                Some(record) => {
                    assert(is_record(record@)) by {
                        assert(records@[i as int] matches Some(r) ==> is_record(r@));
                    }
                    let slice = record.as_slice();
                    let created = u64_from_le(vstd::slice::slice_subrange(slice, 0, 8));
                    if created > sequence {
                        return Err(AccumulatorError::ElementNotFound(i));
                    }
                    let mut consumed: Option<u64> = None;
                    if slice.len() == 16 {
                        let by = u64_from_le(vstd::slice::slice_subrange(slice, 8, 16));
                        if by <= sequence {
                            consumed = Some(by);
                        }
                    }
                    let key = H256(elements[i].hash());
                    requests.push(ProofRequest { key, created, consumed });
                },
                None => {
                    return Err(AccumulatorError::ElementNotFound(i));
                },
            }
            i += 1;
        }
        Ok(requests)
    }
}

/// A proof of the state of a list of elements: for each element the compiled
/// proof of its creation, and where there is one the compiled proof of its
/// consumption.
#[derive(Debug)]
pub struct AccumulatorProof {
    inner: Vec<(Vec<u8>, Option<Vec<u8>>)>,
}

/// The commitments that a proof is checked against, element by element: the
/// commitment of the creating block, and where there is one the commitment
/// of a block at which the element was consumed.
pub type Commitments = Vec<(AccumulatorCommitment, Option<AccumulatorCommitment>)>;

/// The digest that the tree held for an element with this status while it
/// was live: the digest of its creating block.
pub open spec fn created_digest(status: CellStatus) -> Seq<u8> {
    if status.created_bytes() == crate::live_marker() {
        H256::spec_zero()
    } else {
        crate::hash::blake2b_256(status.created_bytes())
    }
}

/// What the check of one element gives: `Some(true)` where its proofs show
/// it in the state given, `Some(false)` where they do not, and nothing where
/// a proof could not be run.
///
/// The creation proof has to give the root of the creating commitment for
/// the element's key with the digest of its creating block. A live element
/// needs no more. A consumed element needs a commitment and a proof of its
/// consumption, and that proof has to give the commitment's root for the
/// element's key with the zero digest.
pub open spec fn element_verdict(
    proofs: (Vec<u8>, Option<Vec<u8>>),
    commitments: (AccumulatorCommitment, Option<AccumulatorCommitment>),
    element: (OutPoint, CellStatus),
) -> Option<bool> {
    let key = element.0.identity();
    match compiled_proof_root(proofs.0@, seq![(key, created_digest(element.1))]) {
        None => None,
        Some(created_root) => if created_root != commitments.0.root()@ {
            Some(false)
        } else if element.1.live() {
            Some(true)
        } else {
            match (commitments.1, proofs.1) {
                (Some(commitment), Some(proof)) => match compiled_proof_root(
                    proof@,
                    seq![(key, H256::spec_zero())],
                ) {
                    None => None,
                    Some(consumed_root) => Some(consumed_root == commitment.root()@),
                },
                _ => Some(false),
            }
        },
    }
}

/// What the check of the first `n` elements gives: the verdict of the first
/// element whose check does not give `Some(true)`, and `Some(true)` where
/// there is none.
pub open spec fn verdict(
    proofs: Seq<(Vec<u8>, Option<Vec<u8>>)>,
    commitments: Seq<(AccumulatorCommitment, Option<AccumulatorCommitment>)>,
    elements: Seq<(OutPoint, CellStatus)>,
    n: nat,
) -> Option<bool>
    decreases n,
{
    if n == 0 {
        Some(true)
    } else {
        match verdict(proofs, commitments, elements, (n - 1) as nat) {
            Some(true) => element_verdict(proofs[n - 1], commitments[n - 1], elements[n - 1]),
            other => other,
        }
    }
}

/// The number of elements that a check looks at: as many as there are both
/// elements and commitments.
pub open spec fn checked(commitments: nat, elements: nat) -> nat {
    if elements < commitments {
        elements
    } else {
        commitments
    }
}

/// The parts fit the requests: there is one pair for each request, and a
/// pair holds a consumption proof exactly where its request owes one.
pub open spec fn fits(
    requests: Seq<ProofRequest>,
    parts: Seq<(Vec<u8>, Option<Vec<u8>>)>,
) -> bool {
    &&& parts.len() == requests.len()
    &&& forall|i: int|
        0 <= i < parts.len() ==> ((#[trigger] parts[i]).1 is Some <==> requests[i].consumed
            is Some)
}

impl AccumulatorProof {
    /// The proofs this value holds.
    pub closed spec fn proofs(&self) -> Seq<(Vec<u8>, Option<Vec<u8>>)> {
        self.inner@
    }

    /// The proof made of these compiled proofs, one pair for each element.
    pub fn new(inner: Vec<(Vec<u8>, Option<Vec<u8>>)>) -> (ret: Self)
        ensures
            ret.proofs() == inner@,
    {
        AccumulatorProof { inner }
    }

    /// The proof made of the parts that were made for `requests`: for each
    /// request the compiled creation proof, and the compiled consumption
    /// proof exactly where the request owes one. Parts that do not fit the
    /// requests are an `InvalidProof`.
    pub fn for_requests(
        requests: &Vec<ProofRequest>,
        parts: Vec<(Vec<u8>, Option<Vec<u8>>)>,
    ) -> (ret: Result<Self, AccumulatorError>)
        ensures
            match ret {
                Ok(proof) => proof.proofs() == parts@ && fits(requests@, parts@),
                Err(AccumulatorError::InvalidProof) => !fits(requests@, parts@),
                Err(_) => false,
            },
    {
        if parts.len() != requests.len() {
            return Err(AccumulatorError::InvalidProof);
        }
        let mut i: usize = 0;
        while i < parts.len()
            invariant
                i <= parts@.len(),
                parts@.len() == requests@.len(),
                forall|j: int|
                    0 <= j < i ==> ((#[trigger] parts@[j]).1 is Some <==> requests@[j].consumed
                        is Some),
            decreases parts@.len() - i,
        {
            if parts[i].1.is_some() != requests[i].consumed.is_some() {
                return Err(AccumulatorError::InvalidProof);
            }
            i += 1;
        }
        Ok(AccumulatorProof { inner: parts })
    }

    /// The compiled proofs, one pair for each element.
    pub fn as_pairs(&self) -> (ret: &Vec<(Vec<u8>, Option<Vec<u8>>)>)
        ensures
            ret@ == self.proofs(),
    {
        &self.inner
    }
}

/// Runs one compiled proof for one leaf.
fn verify_one(proof: &Vec<u8>, root: &H256, key: H256, value: H256) -> (ret: Result<
    bool,
    AccumulatorError,
>)
    ensures
        match compiled_proof_root(proof@, seq![(key@, value@)]) {
            Some(r) => ret == Ok::<bool, AccumulatorError>(r == root@),
            None => ret matches Err(AccumulatorError::InternalError(_)),
        },
{
    let mut leaves: Vec<(H256, H256)> = Vec::with_capacity(1);
    leaves.push((key, value));
    assert(leaves_view(leaves@) =~= seq![(key@, value@)]);
    verify_compiled(proof, root, &leaves)
}

impl Proof for AccumulatorProof {
    type Item = (OutPoint, CellStatus);

    type Commitment = Commitments;

    /// Checks the proof against the commitments, for elements in the states
    /// given.
    ///
    /// A proof that does not hold as many pairs as there are commitments
    /// fails the check: `Ok(false)`. Otherwise the elements are checked one
    /// after the other against the pair and the commitments at their index,
    /// as far as there are both elements and commitments, and the first
    /// check that does not succeed decides: `Ok(false)` where a proof gives
    /// another root or a consumed element lacks its second proof or
    /// commitment, an `InternalError` where a proof could not be run.
    /// `Ok(true)` says that every element that was looked at is shown.
    fn verify(self, commitment: Commitments, elements: Vec<(OutPoint, CellStatus)>) -> (ret: Result<
        bool,
        AccumulatorError,
    >)
        ensures
            commitment@.len() != self.proofs().len() ==> ret == Ok::<bool, AccumulatorError>(
                false,
            ),
            commitment@.len() == self.proofs().len() ==> match verdict(
                self.proofs(),
                commitment@,
                elements@,
                checked(commitment@.len(), elements@.len()),
            ) {
                Some(b) => ret == Ok::<bool, AccumulatorError>(b),
                None => ret matches Err(AccumulatorError::InternalError(_)),
            },
    {
        if commitment.len() != self.inner.len() {
            return Ok(false);
        }
        let n = if elements.len() < commitment.len() {
            elements.len()
        } else {
            commitment.len()
        };
        let mut i: usize = 0;
        while i < n
            invariant
                i <= n,
                n == checked(commitment@.len(), elements@.len()),
                commitment@.len() == self.inner@.len(),
                verdict(self.inner@, commitment@, elements@, i as nat) == Some(true),
            decreases n - i,
        {
            let key = H256(elements[i].0.hash());
            let status = &elements[i].1;
            proof {
                let step = element_verdict(
                    self.inner@[i as int],
                    commitment@[i as int],
                    elements@[i as int],
                );
                let next = (i + 1) as nat;
                assert(verdict(self.inner@, commitment@, elements@, next) == step);
                if step != Some(true) {
                    lemma_verdict_stays(self.inner@, commitment@, elements@, next, n as nat);
                }
            }
            let created = status.created().to_h256();
            match verify_one(&self.inner[i].0, commitment[i].0.root(), key, created) {
                Ok(true) => {},
                Ok(false) => {
                    return Ok(false);
                },
                Err(e) => {
                    return Err(e);
                },
            }
            if !status.is_live() {
                let consumed = match (&commitment[i].1, &self.inner[i].1) {
                    (Some(c), Some(p)) => {
                        let gone = BlockNumber::zero().to_h256();
                        verify_one(p, c.root(), key, gone)
                    },
                    _ => Ok(false),
                };
                match consumed {
                    Ok(true) => {},
                    Ok(false) => {
                        return Ok(false);
                    },
                    Err(e) => {
                        return Err(e);
                    },
                }
            }
            i += 1;
        }
        Ok(true)
    }
}

/// Once the check of some element has not given `Some(true)`, the elements
/// after it change nothing.
pub proof fn lemma_verdict_stays(
    proofs: Seq<(Vec<u8>, Option<Vec<u8>>)>,
    commitments: Seq<(AccumulatorCommitment, Option<AccumulatorCommitment>)>,
    elements: Seq<(OutPoint, CellStatus)>,
    at: nat,
    n: nat,
)
    requires
        at <= n,
        verdict(proofs, commitments, elements, at) != Some(true),
    ensures
        verdict(proofs, commitments, elements, n) == verdict(proofs, commitments, elements, at),
    decreases n - at,
{
    if at < n {
        lemma_verdict_stays(proofs, commitments, elements, at, (n - 1) as nat);
    }
}

} // verus!
