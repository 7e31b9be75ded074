//! The 32-byte digest that names every element and every tree node.

use vstd::prelude::*;

verus! {

/// The BLAKE2b digest of `data` with a 32-byte output and no key, salt or
/// personalisation.
pub uninterp spec fn blake2b_256(data: Seq<u8>) -> Seq<u8>;

/// Calls `blake2b_rs::blake2b` with an empty key and a 32-byte output
/// buffer, which is the unkeyed BLAKE2b-256 of `data`. The digest depends on
/// the bytes of `data` alone; that it is `blake2b_256(data@)` is taken on
/// trust.
#[verifier::external_body]
fn blake2b_digest(data: &[u8]) -> (out: [u8; 32])
    ensures
        out@ == blake2b_256(data@),
{
    let mut out = [0u8; 32];
    blake2b_rs::blake2b(&[], data, &mut out);
    out
}

/// A 32-byte hash: a leaf, a node or a root of an accumulator.
#[derive(Clone, Copy, Debug, Eq)]
pub struct H256(pub [u8; 32]);

impl View for H256 {
    type V = Seq<u8>;

    open spec fn view(&self) -> Seq<u8> {
        self.0@
    }
}

impl PartialEq for H256 {
    fn eq(&self, other: &Self) -> (r: bool) {
        crate::bytes::bytes_eq(&self.0, &other.0)
    }
}

impl vstd::std_specs::cmp::PartialEqSpecImpl for H256 {
    open spec fn obeys_eq_spec() -> bool {
        true
    }

    open spec fn eq_spec(&self, other: &Self) -> bool {
        self.0@ == other.0@
    }
}

impl H256 {
    /// The hash whose bytes are all zero: the digest of an absent leaf.
    pub open spec fn spec_zero() -> Seq<u8> {
        Seq::new(32, |i: int| 0u8)
    }

    /// The all-zero hash.
    pub fn zero() -> (h: H256)
        ensures
            h@ == Self::spec_zero(),
    {
        let h = H256([0u8; 32]);
        assert(h@ =~= Self::spec_zero());
        h
    }

    /// Whether every byte is zero.
    pub fn is_zero(&self) -> (r: bool)
        ensures
            r == (self@ == Self::spec_zero()),
    {
        let z = Self::zero();
        *self == z
    }

    /// The hash held in a 32-byte record.
    pub fn from_bytes(bytes: &[u8]) -> (h: H256)
        requires
            bytes@.len() == 32,
        ensures
            h@ == bytes@,
    {
        let h = H256(crate::bytes::read_32(bytes, 0));
        assert(bytes@.subrange(0, 32) =~= bytes@);
        h
    }

    /// The 32 bytes of the hash.
    pub fn as_bytes(&self) -> (r: &[u8; 32])
        ensures
            r@ == self@,
    {
        &self.0
    }
}

/// The digest of `data`.
pub fn hash_bytes(data: &[u8]) -> (h: H256)
    ensures
        h@ == blake2b_256(data@),
{
    H256(blake2b_digest(data))
}

/// The digest of `left` followed by `right`: the parent of two sibling nodes
/// of the append-only accumulator.
pub fn merge(left: &H256, right: &H256) -> (h: H256)
    ensures
        h@ == blake2b_256(left@ + right@),
{
    let mut buf: Vec<u8> = Vec::with_capacity(64);
    buf.extend_from_slice(&left.0);
    buf.extend_from_slice(&right.0);
    assert(buf@ =~= left@ + right@);
    hash_bytes(buf.as_slice())
}

/// Two hashes with the same bytes are the same hash.
pub proof fn lemma_hash_view_injective(a: H256, b: H256)
    requires
        a@ == b@,
    ensures
        a == b,
{
    assert(a.0 =~= b.0);
}

} // verus!
