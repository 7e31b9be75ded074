//! Versioned set accumulators.
//!
//! An accumulator takes elements in and out over a sequence of blocks, gives
//! a commitment (a root hash and the block's sequence number) at the end of
//! each block, and can later prove against any of those commitments which
//! elements existed and in what state.
//!
//! This crate holds the rules of the accumulators: how an element is named,
//! how its lifecycle is recorded, how the keys of a versioned store are made
//! and read, how tree nodes are laid out in bytes, and what each of the
//! operations `add`, `delete`, `commit`, `prove` and `verify` decides. What
//! hashing and the tree libraries compute from plain values (a digest, the
//! root that a proof gives for a set of leaves) is asked of them here. The
//! key-value store is reached by the program that drives the accumulator: it
//! hands in what it read, and takes back what is to be written.

use crate::bytes::{le_value, u32_le, u32_to_le, u64_le, u64_to_le};
use crate::hash::{blake2b_256, hash_bytes, H256};
use vstd::prelude::*;

pub mod bytes;
pub mod hash;
pub mod mmr;
pub mod smt;
pub mod smt_append_only;
pub mod smt_live;
pub mod versioned;

verus! {

/// What an accumulator that can be written to offers.
pub trait AccumulatorWriter {
    type Item;

    type Commitment;

    type Proof;

    /// Takes new elements in, live as of the current block.
    fn add(&mut self, elements: Vec<Self::Item>) -> Result<(), AccumulatorError>;

    /// Marks elements as consumed by the current block.
    fn delete(&mut self, elements: Vec<Self::Item>) -> Result<(), AccumulatorError>;

    /// Ends the current block and returns its commitment.
    fn commit(&mut self) -> Result<Self::Commitment, AccumulatorError>;
}

/// What an accumulator that can be read offers.
pub trait AccumulatorReader {
    type Item;

    type Commitment;

    type Proof;

    /// A proof, against `commitment`, of the state of `elements`.
    fn prove(&self, commitment: Self::Commitment, elements: Vec<Self::Item>) -> Result<
        Self::Proof,
        AccumulatorError,
    >;
}

/// A proof that can be checked against a commitment without the accumulator.
pub trait Proof {
    type Item;

    type Commitment;

    /// `Ok(true)` where the proof shows the elements under the commitment,
    /// `Ok(false)` where it was checked and does not, an error where it could
    /// not be checked.
    fn verify(self, commitment: Self::Commitment, elements: Vec<Self::Item>) -> Result<
        bool,
        AccumulatorError,
    >;
}

/// Why an operation of an accumulator failed.
#[derive(Debug)]
pub enum AccumulatorError {
    /// The element at this index of the input is not in the accumulator.
    ElementNotFound(usize),
    /// The store or the tree failed.
    InternalError(String),
    /// The commitment's root is not the accumulator's root.
    InvalidCommitment,
    /// The proof does not fit the elements it is checked against.
    InvalidProof,
}

/// What a check makes of the root that a proof gave: the proof holds where
/// that root is the root it is checked against, it fails where the root is
/// another, and where no root could be computed the check itself fails with
/// the text of the reason.
pub fn judge(computed: Result<H256, String>, root: &H256) -> (ret: Result<bool, AccumulatorError>)
    ensures
        match computed {
            Ok(r) => ret == Ok::<bool, AccumulatorError>(r@ == root@),
            Err(text) => ret == Err::<bool, AccumulatorError>(
                AccumulatorError::InternalError(text),
            ),
        },
{
    match computed {
        Ok(r) => Ok(r == *root),
        Err(text) => Err(AccumulatorError::InternalError(text)),
    }
}

/// The identity of an element: the hash of the transaction that made it and
/// its index among that transaction's outputs.
#[derive(Clone, Copy, Debug)]
pub struct OutPoint {
    pub tx_hash: [u8; 32],
    pub index: u32,
}

impl OutPoint {
    /// The bytes that name the element: the origin hash, then the index,
    /// least significant byte first.
    pub open spec fn preimage(self) -> Seq<u8> {
        self.tx_hash@ + u32_le(self.index)
    }

    /// The identity hash of the element, as a byte string.
    pub open spec fn identity(self) -> Seq<u8> {
        blake2b_256(self.preimage())
    }

    /// The bytes that name the element.
    pub fn to_bytes(&self) -> (ret: Vec<u8>)
        ensures
            ret@ == self.preimage(),
    {
        let mut ret: Vec<u8> = Vec::with_capacity(36);
        ret.extend_from_slice(&self.tx_hash);
        let index = u32_to_le(self.index);
        ret.extend_from_slice(&index);
        assert(ret@ =~= self.preimage());
        ret
    }

    /// The identity hash of the element: the key under which the accumulators
    /// know it.
    pub fn hash(&self) -> (ret: [u8; 32])
        ensures
            ret@ == self.identity(),
    {
        let buf = self.to_bytes();
        hash_bytes(buf.as_slice()).0
    }
}

/// The byte that fills the consumed field of a status that is still live.
pub const LIVE_BYTE: u8 = 0xff;

/// The consumed field of a live status: eight bytes `0xff`.
pub open spec fn live_marker() -> Seq<u8> {
    Seq::new(8, |i: int| LIVE_BYTE)
}

/// The lifecycle of an element: the block that created it and the block that
/// consumed it, each as eight little-endian bytes.
#[derive(Clone, Copy, Debug, Eq)]
pub struct CellStatus {
    pub block_numbers: [u8; 16],
}

impl PartialEq for CellStatus {
    fn eq(&self, other: &Self) -> (ret: bool) {
        crate::bytes::bytes_eq(&self.block_numbers, &other.block_numbers)
    }
}

impl vstd::std_specs::cmp::PartialEqSpecImpl for CellStatus {
    open spec fn obeys_eq_spec() -> bool {
        true
    }

    open spec fn eq_spec(&self, other: &Self) -> bool {
        self@ == other@
    }
}

impl View for CellStatus {
    type V = Seq<u8>;

    open spec fn view(&self) -> Seq<u8> {
        self.block_numbers@
    }
}

impl CellStatus {
    /// The created field.
    pub open spec fn created_bytes(self) -> Seq<u8> {
        self.block_numbers@.subrange(0, 8)
    }

    /// The consumed field.
    pub open spec fn consumed_bytes(self) -> Seq<u8> {
        self.block_numbers@.subrange(8, 16)
    }

    /// The block that created the element.
    pub open spec fn created_by(self) -> nat {
        le_value(self.created_bytes())
    }

    /// The block that consumed the element; `u64::MAX` while it is live.
    pub open spec fn consumed_by(self) -> nat {
        le_value(self.consumed_bytes())
    }

    /// The element has not been consumed: every byte of the consumed field
    /// is `0xff`.
    pub open spec fn live(self) -> bool {
        self.consumed_bytes() == live_marker()
    }

    /// The status that stands for "no such element": sixteen zero bytes.
    pub open spec fn absent(self) -> bool {
        self.block_numbers@ == Seq::new(16, |i: int| 0u8)
    }

    /// The status of an element created by the given block and not consumed.
    pub fn new_live(created_by_block_number: u64) -> (ret: Self)
        ensures
            ret@ == u64_le(created_by_block_number) + live_marker(),
            ret.live(),
            ret.created_by() == created_by_block_number,
    {
        let created = u64_to_le(created_by_block_number);
        let mut block_numbers: [u8; 16] = [LIVE_BYTE;16];
        let mut i: usize = 0;
        while i < 8
            invariant
                i <= 8,
                forall|j: int| 0 <= j < i ==> block_numbers[j] == created[j],
                forall|j: int| 8 <= j < 16 ==> block_numbers[j] == LIVE_BYTE,
            decreases 8 - i,
        {
            block_numbers[i] = created[i];
            i += 1;
        }
        let ret = CellStatus { block_numbers };
        proof {
            assert(ret@ =~= u64_le(created_by_block_number) + live_marker());
            assert(ret.consumed_bytes() =~= live_marker());
            assert(ret.created_bytes() =~= u64_le(created_by_block_number));
            crate::bytes::lemma_le_round_trip_value(created_by_block_number);
        }
        ret
    }

    /// The status of an element created by the first block and consumed by
    /// the second.
    pub fn new_dead(created_by_block_number: u64, consumed_by_block_number: u64) -> (ret: Self)
        ensures
            ret@ == u64_le(created_by_block_number) + u64_le(consumed_by_block_number),
            ret.created_by() == created_by_block_number,
            ret.consumed_by() == consumed_by_block_number,
            ret.live() <==> consumed_by_block_number == u64::MAX,
    {
        let mut ret = Self::new_live(created_by_block_number);
        ret.mark_as_dead(consumed_by_block_number);
        assert(ret@ =~= u64_le(created_by_block_number) + u64_le(consumed_by_block_number));
        ret
    }

    /// Whether the element has not been consumed.
    pub fn is_live(&self) -> (ret: bool)
        ensures
            ret == self.live(),
    {
        let mut i: usize = 8;
        while i < 16
            invariant
                8 <= i <= 16,
                forall|j: int| 8 <= j < i ==> self.block_numbers[j] == LIVE_BYTE,
            decreases 16 - i,
        {
            if self.block_numbers[i] != LIVE_BYTE {
                assert(self.consumed_bytes()[i - 8] != live_marker()[i - 8]);
                return false;
            }
            i += 1;
        }
        assert(self.consumed_bytes() =~= live_marker());
        true
    }

    /// Records the block that consumed the element. The created field stays
    /// as it is.
    pub fn mark_as_dead(&mut self, consumed_by_block_number: u64)
        ensures
            final(self)@ == old(self).created_bytes() + u64_le(consumed_by_block_number),
            final(self).created_bytes() == old(self).created_bytes(),
            final(self).consumed_by() == consumed_by_block_number,
            final(self).live() <==> consumed_by_block_number == u64::MAX,
    {
        let consumed = u64_to_le(consumed_by_block_number);
        let mut i: usize = 0;
        while i < 8
            invariant
                i <= 8,
                forall|j: int| 0 <= j < 8 ==> self.block_numbers[j] == old(self).block_numbers[j],
                forall|j: int| 0 <= j < i ==> self.block_numbers[8 + j] == consumed[j],
            decreases 8 - i,
        {
            self.block_numbers[8 + i] = consumed[i];
            i += 1;
        }
        proof {
            assert(self@ =~= old(self).created_bytes() + u64_le(consumed_by_block_number));
            assert(self.created_bytes() =~= old(self).created_bytes());
            assert(self.consumed_bytes() =~= u64_le(consumed_by_block_number));
            crate::bytes::lemma_le_round_trip_value(consumed_by_block_number);
            lemma_live_marker_value();
            crate::bytes::lemma_le_bytes_of_value(live_marker());
        }
    }

    /// The status that a record of sixteen bytes holds.
    pub fn from_bytes(bytes: &[u8]) -> (ret: Self)
        requires
            bytes@.len() == 16,
        ensures
            ret@ == bytes@,
    {
        let mut block_numbers: [u8; 16] = [0u8;16];
        let mut i: usize = 0;
        while i < 16
            invariant
                i <= 16,
                bytes@.len() == 16,
                forall|j: int| 0 <= j < i ==> block_numbers[j] == bytes@[j],
            decreases 16 - i,
        {
            block_numbers[i] = bytes[i];
            i += 1;
        }
        let ret = CellStatus { block_numbers };
        assert(ret@ =~= bytes@);
        ret
    }

    /// The status that stands for "no such element".
    pub fn zero() -> (ret: Self)
        ensures
            ret.absent(),
    {
        let ret = CellStatus { block_numbers: [0u8;16] };
        assert(ret@ =~= Seq::new(16, |i: int| 0u8));
        ret
    }

    /// Whether this is the status that stands for "no such element".
    pub fn is_zero(&self) -> (ret: bool)
        ensures
            ret == self.absent(),
    {
        *self == Self::zero()
    }

    /// The digest under which the keyed tree holds this status: the zero hash
    /// for the absent status, the hash of the sixteen bytes for any other.
    pub open spec fn digest(self) -> Seq<u8> {
        if self.absent() {
            H256::spec_zero()
        } else {
            blake2b_256(self@)
        }
    }

    /// The leaf of the keyed tree that stands for this status.
    pub fn to_h256(&self) -> (ret: H256)
        ensures
            ret@ == self.digest(),
    {
        if self.is_zero() {
            return H256::zero();
        }
        hash_bytes(&self.block_numbers)
    }
}

/// A block number as eight little-endian bytes: the value that the live tree
/// holds for an element. Eight bytes `0xff` stand for "no such element".
#[derive(Clone, Copy, Debug, Eq)]
pub struct BlockNumber(pub [u8; 8]);

impl PartialEq for BlockNumber {
    fn eq(&self, other: &Self) -> (ret: bool) {
        crate::bytes::bytes_eq(&self.0, &other.0)
    }
}

impl vstd::std_specs::cmp::PartialEqSpecImpl for BlockNumber {
    open spec fn obeys_eq_spec() -> bool {
        true
    }

    open spec fn eq_spec(&self, other: &Self) -> bool {
        self@ == other@
    }
}

impl View for BlockNumber {
    type V = Seq<u8>;

    open spec fn view(&self) -> Seq<u8> {
        self.0@
    }
}

impl BlockNumber {
    /// This is the block number that stands for "no such element".
    pub open spec fn absent(self) -> bool {
        self@ == live_marker()
    }

    /// The digest under which the live tree holds this block number: the
    /// zero hash for the absent one, the hash of the eight bytes for any
    /// other.
    pub open spec fn digest(self) -> Seq<u8> {
        if self.absent() {
            H256::spec_zero()
        } else {
            blake2b_256(self@)
        }
    }

    /// The block number `number`.
    pub fn new(number: u64) -> (ret: Self)
        ensures
            ret@ == u64_le(number),
    {
        BlockNumber(u64_to_le(number))
    }

    /// The block number that a record of eight bytes holds.
    pub fn from_bytes(bytes: &[u8]) -> (ret: Self)
        requires
            bytes@.len() == 8,
        ensures
            ret@ == bytes@,
    {
        let ret = BlockNumber(
            [bytes[0], bytes[1], bytes[2], bytes[3], bytes[4], bytes[5], bytes[6], bytes[7]],
        );
        assert(ret@ =~= bytes@);
        ret
    }

    /// The block number that stands for "no such element".
    pub fn zero() -> (ret: Self)
        ensures
            ret.absent(),
    {
        let ret = BlockNumber([LIVE_BYTE;8]);
        assert(ret@ =~= live_marker());
        ret
    }

    /// Whether this is the block number that stands for "no such element".
    pub fn is_zero(&self) -> (ret: bool)
        ensures
            ret == self.absent(),
    {
        *self == Self::zero()
    }

    /// The leaf of the live tree that stands for this block number.
    pub fn to_h256(&self) -> (ret: H256)
        ensures
            ret@ == self.digest(),
    {
        if self.is_zero() {
            return H256::zero();
        }
        hash_bytes(&self.0)
    }
}

impl CellStatus {
    /// The block that created the element, as the live tree holds it.
    pub fn created(&self) -> (ret: BlockNumber)
        ensures
            ret@ == self.created_bytes(),
    {
        let b = &self.block_numbers;
        let ret = BlockNumber([b[0], b[1], b[2], b[3], b[4], b[5], b[6], b[7]]);
        assert(ret@ =~= self.created_bytes());
        ret
    }
}

/// The lifecycle runs one way: a status is live when it is made, and once a
/// block before the largest one is recorded as consuming it, it is live no
/// more. The created block is the same before and after.
pub proof fn lemma_lifecycle(
    live: CellStatus,
    consumed: CellStatus,
    created_by: u64,
    consumed_by: u64,
)
    requires
        live@ == u64_le(created_by) + live_marker(),
        consumed@ == live.created_bytes() + u64_le(consumed_by),
        consumed_by < u64::MAX,
    ensures
        live.live(),
        !consumed.live(),
        live.created_by() == created_by,
        consumed.created_by() == created_by,
        consumed.consumed_by() == consumed_by,
        !live.absent(),
{
    crate::bytes::lemma_le_round_trip_value(created_by);
    crate::bytes::lemma_le_round_trip_value(consumed_by);
    lemma_live_marker_value();
    assert(live.consumed_bytes() =~= live_marker());
    assert(live.created_bytes() =~= u64_le(created_by));
    assert(consumed.created_bytes() =~= u64_le(created_by));
    assert(consumed.consumed_bytes() =~= u64_le(consumed_by));
    assert(live@[8] == LIVE_BYTE);
    assert(Seq::new(16, |i: int| 0u8)[8] == 0u8);
}

/// Eight bytes `0xff` spell the largest 64-bit number.
pub proof fn lemma_live_marker_value()
    ensures
        le_value(live_marker()) == u64::MAX,
{
    let m = live_marker();
    reveal_with_fuel(le_value, 9);
    assert(m.skip(1).skip(1).skip(1).skip(1).skip(1).skip(1).skip(1).skip(1).len() == 0);
}

/// A status is live exactly when its consumed block reads as `u64::MAX`.
pub proof fn lemma_live_iff_max(status: CellStatus)
    ensures
        status.live() <==> status.consumed_by() == u64::MAX,
{
    lemma_live_marker_value();
    crate::bytes::lemma_le_bytes_of_value(live_marker());
    crate::bytes::lemma_le_bytes_of_value(status.consumed_bytes());
}

} // verus!

