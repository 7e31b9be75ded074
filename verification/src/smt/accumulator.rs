//! What the keyed accumulator decides.
//!
//! The tree maps the identity hash of every element to its lifecycle status;
//! an element that was never added reads as the absent status. Adding an
//! element writes its status as live, deleting it writes the status with the
//! consumed block filled in.
//!
//! The functions here take what was read from the tree, and give back what
//! is to be written to it. A proof is checked here as well: the tree library
//! computes the root that it gives for the leaves.

use super::merkle::{check_stack, runnable, verdict, verify_compiled, MAX_STACK_SIZE};
use super::store::DefaultStore;
use crate::bytes::u64_le;
use crate::hash::H256;
use crate::{AccumulatorError, CellStatus, OutPoint, Proof};
use vstd::prelude::*;

verus! {

/// The root of the accumulator at the end of a block, and the block's
/// sequence. Two commitments are the same only where both are.
#[derive(Clone, Copy, Debug, Eq)]
pub struct AccumulatorCommitment {
    root: H256,
    sequence: u64,
}

impl PartialEq for AccumulatorCommitment {
    fn eq(&self, other: &Self) -> (ret: bool) {
        self.root == other.root && self.sequence == other.sequence
    }
}

impl vstd::std_specs::cmp::PartialEqSpecImpl for AccumulatorCommitment {
    open spec fn obeys_eq_spec() -> bool {
        true
    }

    open spec fn eq_spec(&self, other: &Self) -> bool {
        self.root()@ == other.root()@ && self.sequence() == other.sequence()
    }
}

impl AccumulatorCommitment {
    /// The root this commitment holds.
    pub closed spec fn spec_root(&self) -> &H256 {
        &self.root
    }

    /// The sequence this commitment holds.
    pub closed spec fn spec_sequence(&self) -> u64 {
        self.sequence
    }

    /// The commitment to `root` at `sequence`.
    pub fn new(root: H256, sequence: u64) -> (ret: Self)
        ensures
            *ret.root() == root,
            ret.sequence() == sequence,
    {
        AccumulatorCommitment { root, sequence }
    }

    /// The root of the accumulator when the block ended.
    #[verifier::when_used_as_spec(spec_root)]
    pub fn root(&self) -> (ret: &H256)
        ensures
            *ret == self.spec_root(),
    {
        &self.root
    }

    /// The sequence of the block.
    #[verifier::when_used_as_spec(spec_sequence)]
    pub fn sequence(&self) -> (ret: u64)
        ensures
            ret == self.spec_sequence(),
    {
        self.sequence
    }

    /// Whether this is a commitment to `root`: `InvalidCommitment` where it
    /// is to another root.
    pub fn check(&self, root: &H256) -> (ret: Result<(), AccumulatorError>)
        ensures
            match ret {
                Ok(_) => self.root()@ == root@,
                Err(AccumulatorError::InvalidCommitment) => self.root()@ != root@,
                Err(_) => false,
            },
    {
        if self.root != *root {
            return Err(AccumulatorError::InvalidCommitment);
        }
        Ok(())
    }
}

/// The leaf that an element in a given state is in the tree: its identity
/// hash as the key, the digest of its status as the value.
pub open spec fn leaf_of(element: (OutPoint, CellStatus)) -> (Seq<u8>, Seq<u8>) {
    (element.0.identity(), element.1.digest())
}

/// The leaves that a list of elements in given states are in the tree.
pub open spec fn leaves_of(elements: Seq<(OutPoint, CellStatus)>) -> Seq<(Seq<u8>, Seq<u8>)> {
    Seq::new(elements.len(), |i: int| leaf_of(elements[i]))
}

/// The accumulator: the versioned store it reads and writes through.
pub struct SMTAccumulator {
    store: DefaultStore,
}

impl SMTAccumulator {
    /// The store of this accumulator.
    pub closed spec fn spec_store(&self) -> &DefaultStore {
        &self.store
    }

    /// The sequence of the block that is being filled.
    pub open spec fn sequence(&self) -> u64 {
        self.spec_store().sequence()
    }

    /// The accumulator over the store at its latest sequence. `record` is
    /// what the store holds under the counter's key.
    pub fn new(record: Option<Vec<u8>>) -> (ret: Self)
        requires
            record matches Some(v) ==> v@.len() == 8,
        ensures
            ret.sequence() == crate::versioned::stored_sequence(
                crate::versioned::value_view(record),
            ),
    {
        SMTAccumulator { store: DefaultStore::new(record) }
    }

    /// The accumulator over the store as of `sequence`, for reading.
    pub fn new_with_sequence(record: Option<Vec<u8>>, sequence: u64) -> (ret: Self)
        requires
            record matches Some(v) ==> v@.len() == 8,
            sequence <= crate::versioned::stored_sequence(crate::versioned::value_view(record)),
        ensures
            ret.sequence() == sequence,
    {
        SMTAccumulator { store: DefaultStore::new_with_sequence(record, sequence) }
    }

    /// The store of this accumulator.
    #[verifier::when_used_as_spec(spec_store)]
    pub fn store(&self) -> (ret: &DefaultStore)
        ensures
            *ret == self.spec_store(),
    {
        &self.store
    }

    /// The leaves to write for new elements: each element's identity hash
    /// with the status "live, created by the current block". Whether an
    /// element is already there is not looked at: a second `add` of an
    /// element overwrites its status.
    pub fn add(&self, elements: &Vec<OutPoint>) -> (leaves: Vec<(H256, CellStatus)>)
        ensures
            leaves@.len() == elements@.len(),
            forall|i: int|
                #![trigger leaves@[i]]
                0 <= i < elements@.len() ==> {
                    &&& leaves@[i].0@ == elements@[i].identity()
                    &&& leaves@[i].1@ == u64_le(self.sequence()) + crate::live_marker()
                },
    {
        let status = CellStatus::new_live(self.store.sequence());
        let mut leaves: Vec<(H256, CellStatus)> = Vec::with_capacity(elements.len());
        let mut i: usize = 0;
        while i < elements.len()
            invariant
                i <= elements@.len(),
                leaves@.len() == i,
                status@ == u64_le(self.sequence()) + crate::live_marker(),
                forall|j: int|
                    #![trigger leaves@[j]]
                    0 <= j < i ==> {
                        &&& leaves@[j].0@ == elements@[j].identity()
                        &&& leaves@[j].1@ == status@
                    },
            decreases elements@.len() - i,
        {
            leaves.push((H256(elements[i].hash()), status));
            i += 1;
        }
        leaves
    }

    /// The leaves to write to mark `elements` as consumed by the current
    /// block. `statuses[i]` is what the tree holds for `elements[i]`: the
    /// absent status where it holds nothing.
    ///
    /// Nothing is decided for any element unless every element can be
    /// deleted in this block: the first element that is absent or already
    /// consumed, or whose status as consumed by this block would be the
    /// absent status or would still read as live, fails the whole call with
    /// `ElementNotFound` and its index. Otherwise each element keeps its
    /// created block and gets the current sequence as its consumed block;
    /// none of the statuses written is absent, and none is live.
    pub fn delete(&self, elements: &Vec<OutPoint>, statuses: &Vec<CellStatus>) -> (ret: Result<
        Vec<(H256, CellStatus)>,
        AccumulatorError,
    >)
        requires
            statuses@.len() == elements@.len(),
        ensures
            match ret {
                Ok(leaves) => {
                    &&& forall|i: int|
                        0 <= i < statuses@.len() ==> Self::deletable(
                            #[trigger] statuses@[i],
                            self.sequence(),
                        )
                    &&& leaves@.len() == elements@.len()
                    &&& forall|i: int|
                        #![trigger leaves@[i]]
                        0 <= i < elements@.len() ==> {
                            &&& leaves@[i].0@ == elements@[i].identity()
                            &&& leaves@[i].1@ == statuses@[i].created_bytes() + u64_le(
                                self.sequence(),
                            )
                            &&& !leaves@[i].1.absent()
                            &&& !leaves@[i].1.live()
                        }
                },
                Err(AccumulatorError::ElementNotFound(i)) => {
                    &&& 0 <= i < statuses@.len()
                    &&& !Self::deletable(statuses@[i as int], self.sequence())
                    &&& forall|j: int|
                        0 <= j < i ==> Self::deletable(#[trigger] statuses@[j], self.sequence())
                },
                Err(_) => false,
            },
    {
        let sequence = self.store.sequence();
        let mut leaves: Vec<(H256, CellStatus)> = Vec::with_capacity(elements.len());
        let mut i: usize = 0;
        while i < elements.len()
            invariant
                i <= elements@.len(),
                statuses@.len() == elements@.len(),
                sequence == self.sequence(),
                leaves@.len() == i,
                forall|j: int|
                    0 <= j < i ==> Self::deletable(#[trigger] statuses@[j], sequence),
                forall|j: int|
                    #![trigger leaves@[j]]
                    0 <= j < i ==> {
                        &&& leaves@[j].0@ == elements@[j].identity()
                        &&& leaves@[j].1@ == statuses@[j].created_bytes() + u64_le(sequence)
                        &&& !leaves@[j].1.absent()
                        &&& !leaves@[j].1.live()
                    },
            decreases elements@.len() - i,
        {
            let mut status = statuses[i];
            if !status.is_live() {
                return Err(AccumulatorError::ElementNotFound(i));
            }
            assert(!status.absent()) by {
                assert(status.consumed_bytes()[0] == crate::live_marker()[0]);
                assert(Seq::new(16, |i: int| 0u8)[8] == 0u8);
            }
            status.mark_as_dead(sequence);
            if status.is_zero() || status.is_live() {
                return Err(AccumulatorError::ElementNotFound(i));
            }
            leaves.push((H256(elements[i].hash()), status));
            i += 1;
        }
        Ok(leaves)
    }

    /// An element in this state can be deleted in the block `sequence`: it
    /// is there and live, its status as consumed by that block is not the
    /// absent status, and the block is not the one whose number marks a live
    /// element.
    pub open spec fn deletable(status: CellStatus, sequence: u64) -> bool {
        &&& !status.absent()
        &&& status.live()
        &&& status.created_bytes() + u64_le(sequence) != Seq::new(16, |i: int| 0u8)
        &&& sequence < u64::MAX
    }

    /// Ends the current block. `root` is the root of the tree as it stands.
    /// Returns the commitment to `root` at the block's sequence, and the
    /// entry that records the next sequence in the store.
    pub fn commit(&mut self, root: H256) -> (ret: (AccumulatorCommitment, (Vec<u8>, Vec<u8>)))
        requires
            old(self).sequence() < u64::MAX,
        ensures
            *ret.0.root() == root,
            ret.0.sequence() == old(self).sequence(),
            final(self).sequence() == old(self).sequence() + 1,
            ret.1.0@ == super::store::sequence_key(),
            ret.1.1@ == crate::bytes::u64_be(final(self).sequence()),
    {
        let sequence = self.store.sequence();
        let entry = self.store.commit();
        (AccumulatorCommitment::new(root, sequence), entry)
    }

    /// The keys to prove for `elements` against `commitment`. `root` is the
    /// root of the tree as it stands, and `statuses[i]` is what the tree
    /// holds for `elements[i]`.
    ///
    /// A commitment to another root fails with `InvalidCommitment`, whatever
    /// the elements. Otherwise the first element that the tree does not hold
    /// fails the call with `ElementNotFound` and its index, and where it
    /// holds them all, the keys are the identity hashes of the elements, in
    /// their order.
    pub fn prove(
        &self,
        commitment: &AccumulatorCommitment,
        root: &H256,
        elements: &Vec<OutPoint>,
        statuses: &Vec<CellStatus>,
    ) -> (ret: Result<Vec<H256>, AccumulatorError>)
        requires
            statuses@.len() == elements@.len(),
        ensures
            match ret {
                Ok(keys) => {
                    &&& commitment.root()@ == root@
                    &&& forall|i: int|
                        0 <= i < statuses@.len() ==> !(#[trigger] statuses@[i]).absent()
                    &&& keys@.len() == elements@.len()
                    &&& forall|i: int|
                        #![trigger keys@[i]]
                        0 <= i < elements@.len() ==> keys@[i]@ == elements@[i].identity()
                },
                Err(AccumulatorError::InvalidCommitment) => commitment.root()@ != root@,
                Err(AccumulatorError::ElementNotFound(i)) => {
                    &&& commitment.root()@ == root@
                    &&& 0 <= i < statuses@.len()
                    &&& statuses@[i as int].absent()
                    &&& forall|j: int| 0 <= j < i ==> !(#[trigger] statuses@[j]).absent()
                },
                Err(_) => false,
            },
    {
        if let Err(e) = commitment.check(root) {
            return Err(e);
        }
        let mut keys: Vec<H256> = Vec::with_capacity(elements.len());
        let mut i: usize = 0;
        while i < elements.len()
            invariant
                i <= elements@.len(),
                statuses@.len() == elements@.len(),
                commitment.root()@ == root@,
                keys@.len() == i,
                forall|j: int| 0 <= j < i ==> !(#[trigger] statuses@[j]).absent(),
                forall|j: int|
                    #![trigger keys@[j]]
                    0 <= j < i ==> keys@[j]@ == elements@[j].identity(),
            decreases elements@.len() - i,
        {
            if statuses[i].is_zero() {
                return Err(AccumulatorError::ElementNotFound(i));
            }
            keys.push(H256(elements[i].hash()));
            i += 1;
        }
        Ok(keys)
    }
}

/// An element is deleted once: the status that a delete writes for an
/// element is not a status that `delete` accepts in any block, so a second
/// delete of the element fails with `ElementNotFound`.
pub proof fn lemma_deleted_is_not_deletable(
    before: CellStatus,
    after: CellStatus,
    sequence: u64,
    next: u64,
)
    requires
        SMTAccumulator::deletable(before, sequence),
        after@ == before.created_bytes() + u64_le(sequence),
    ensures
        !after.live(),
        !SMTAccumulator::deletable(after, next),
{
    crate::bytes::lemma_le_round_trip_value(sequence);
    crate::lemma_live_marker_value();
    assert(after.consumed_bytes() =~= u64_le(sequence));
}

/// The consumed status collides with the absent one in one case only: a
/// live element cannot be deleted in a block exactly where it was created by
/// block 0 and the block is block 0, or where the block is the largest one.
pub proof fn lemma_collision_only_at_zero(status: CellStatus, sequence: u64)
    requires
        status.live(),
    ensures
        SMTAccumulator::deletable(status, sequence) <==> !(status.created_by() == 0 && sequence
            == 0) && sequence < u64::MAX,
{
    let zeros = Seq::new(16, |i: int| 0u8);
    let zeros8 = Seq::new(8, |i: int| 0u8);
    let form = status.created_bytes() + u64_le(sequence);
    crate::bytes::lemma_le_round_trip_value(sequence);
    crate::bytes::lemma_le_bytes_of_value(status.created_bytes());
    crate::bytes::lemma_le_bytes_of_value(zeros8);
    assert(crate::bytes::le_value(zeros8) == 0) by {
        reveal_with_fuel(crate::bytes::le_value, 9);
        assert(zeros8.skip(1).skip(1).skip(1).skip(1).skip(1).skip(1).skip(1).skip(1).len() == 0);
    }
    assert(status@[8] == crate::LIVE_BYTE) by {
        assert(status.consumed_bytes()[0] == crate::live_marker()[0]);
    }
    assert(!status.absent()) by {
        assert(zeros[8] == 0u8);
    }
    if form == zeros {
        assert(status.created_bytes() =~= zeros8) by {
            assert(form.subrange(0, 8) =~= status.created_bytes());
            assert(zeros.subrange(0, 8) =~= zeros8);
        }
        assert(u64_le(sequence) =~= zeros8) by {
            assert(form.subrange(8, 16) =~= u64_le(sequence));
            assert(zeros.subrange(8, 16) =~= zeros8);
        }
    }
    if status.created_by() == 0 && sequence == 0 {
        assert(status.created_bytes() == zeros8);
        assert(u64_le(sequence) == zeros8);
        assert(form =~= zeros);
    }
}

/// A proof of the state of a set of elements: the compiled proof of the
/// tree for their keys.
#[derive(Debug)]
pub struct AccumulatorProof {
    inner: Vec<u8>,
}

impl View for AccumulatorProof {
    type V = Seq<u8>;

    closed spec fn view(&self) -> Seq<u8> {
        self.inner@
    }
}

impl AccumulatorProof {
    /// The proof whose compiled form is `inner`.
    pub fn new(inner: Vec<u8>) -> (ret: Self)
        ensures
            ret@ == inner@,
    {
        AccumulatorProof { inner }
    }

    /// The compiled form of the proof.
    pub fn as_bytes(&self) -> (ret: &Vec<u8>)
        ensures
            ret@ == self@,
    {
        &self.inner
    }
}

/// The leaves of a list of elements in given states.
pub fn element_leaves(elements: &Vec<(OutPoint, CellStatus)>) -> (leaves: Vec<(H256, H256)>)
    ensures
        super::merkle::leaves_view(leaves@) == leaves_of(elements@),
        leaves@.len() == elements@.len(),
{
    let mut leaves: Vec<(H256, H256)> = Vec::with_capacity(elements.len());
    let mut i: usize = 0;
    while i < elements.len()
        invariant
            i <= elements@.len(),
            leaves@.len() == i,
            forall|j: int|
                #![trigger leaves@[j]]
                0 <= j < i ==> (leaves@[j].0@, leaves@[j].1@) == leaf_of(elements@[j]),
        decreases elements@.len() - i,
    {
        leaves.push((H256(elements[i].0.hash()), elements[i].1.to_h256()));
        i += 1;
    }
    assert(super::merkle::leaves_view(leaves@) =~= leaves_of(elements@));
    leaves
}

impl Proof for AccumulatorProof {
    type Item = (OutPoint, CellStatus);

    type Commitment = AccumulatorCommitment;

    /// Checks the proof against a commitment, for elements in the states
    /// given.
    ///
    /// The result is `Ok(true)` exactly where the root that the proof gives
    /// for the elements' leaves is the commitment's root, and `Ok(false)`
    /// where it gives another root. Where it gives none, the check fails
    /// with an `InternalError`. A proof that cannot be run, because it would
    /// stack more subtrees than a tree has levels, is an `InvalidProof`.
    fn verify(
        self,
        commitment: AccumulatorCommitment,
        elements: Vec<(OutPoint, CellStatus)>,
    ) -> (ret: Result<bool, AccumulatorError>)
        ensures
            !runnable(self@, elements@.len()) ==> ret matches Err(AccumulatorError::InvalidProof),
            runnable(self@, elements@.len()) ==> match verdict(
                self@,
                commitment.root()@,
                leaves_of(elements@),
            ) {
                Some(b) => ret == Ok::<bool, AccumulatorError>(b),
                None => ret matches Err(AccumulatorError::InternalError(_)),
            },
    {
        if elements.len() > MAX_STACK_SIZE && !check_stack(self.inner.as_slice()) {
            return Err(AccumulatorError::InvalidProof);
        }
        let leaves = element_leaves(&elements);
        verify_compiled(&self.inner, commitment.root(), &leaves)
    }
}

} // verus!
