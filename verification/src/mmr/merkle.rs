//! Checking a proof of the append-only accumulator against a root.
//!
//! A proof holds the hashes that lead from a set of leaves up to the peaks of
//! their mountains, and the peaks that the leaves do not reach. The tree
//! library computes the root that the proof gives for the leaves, merging
//! with the digest of this crate; what is made of that root is decided here.

use crate::hash::{merge, H256};
use crate::{judge, AccumulatorError};
use vstd::prelude::*;

verus! {

/// The error type of the tree library.
#[verifier::external_type_specification]
#[verifier::external_body]
pub struct ExError(ckb_merkle_mountain_range::Error);

/// How two nodes of the accumulator are merged into their parent: by the
/// digest of the left one followed by the right one.
pub struct MergeH256;

impl ckb_merkle_mountain_range::Merge for MergeH256 {
    type Item = H256;

    fn merge(lhs: &H256, rhs: &H256) -> (ret: Result<H256, ckb_merkle_mountain_range::Error>)
        ensures
            ret matches Ok(h) && h@ == crate::hash::blake2b_256(lhs@ + rhs@),
    {
        Ok(merge(lhs, rhs))
    }
}

/// The largest accumulator that a proof is checked for. Up to this size
/// every position, and every position that the check derives from one, fits
/// in 64 bits.
pub const MAX_MMR_SIZE: u64 = 0x4000_0000_0000_0000;

/// The root that a proof gives for a set of leaves, each a position and a
/// hash, in an accumulator of the given size; nothing where the proof does
/// not fit the leaves.
pub uninterp spec fn proof_root(
    mmr_size: u64,
    items: Seq<Seq<u8>>,
    leaves: Seq<(u64, Seq<u8>)>,
) -> Option<Seq<u8>>;

/// The hashes as byte strings.
pub open spec fn items_view(items: Seq<H256>) -> Seq<Seq<u8>> {
    Seq::new(items.len(), |i: int| items[i]@)
}

/// The leaves as byte strings.
pub open spec fn leaves_view(leaves: Seq<(u64, H256)>) -> Seq<(u64, Seq<u8>)> {
    Seq::new(leaves.len(), |i: int| (leaves[i].0, leaves[i].1@))
}

/// Calls `ckb_merkle_mountain_range::MerkleProof::calculate_root`, with
/// `MergeH256` to merge. The call climbs from the leaves to the peaks of
/// their mountains, taking siblings from the proof, and bags the peaks; it
/// returns the root it ends with, or an error where a leaf is no leaf or the
/// proof has too few or too many items. Both depend on the size, the items
/// and the leaves alone. Sizes over `MAX_MMR_SIZE`, where a position may not
/// fit, are left out.
#[verifier::external_body]
fn calculate_root(mmr_size: u64, items: &Vec<H256>, leaves: Vec<(u64, H256)>) -> (ret: Result<
    H256,
    ckb_merkle_mountain_range::Error,
>)
    requires
        mmr_size <= MAX_MMR_SIZE,
    ensures
        match ret {
            Ok(root) => proof_root(mmr_size, items_view(items@), leaves_view(leaves@)) == Some(
                root@,
            ),
            Err(_) => proof_root(mmr_size, items_view(items@), leaves_view(leaves@)) is None,
        },
{
    ckb_merkle_mountain_range::MerkleProof::<H256, MergeH256>::new(mmr_size, items.clone())
        .calculate_root(leaves)
}

/// Calls `to_string` on an error of the tree library: the text that its
/// `Display` writes. Nothing is claimed of the text.
#[verifier::external_body]
fn error_text(error: &ckb_merkle_mountain_range::Error) -> String {
    error.to_string()
}

/// What a check of a proof against a root gives: whether the root that the
/// proof gives for the leaves is that root, and nothing where it gives none.
pub open spec fn verdict(
    mmr_size: u64,
    items: Seq<Seq<u8>>,
    root: Seq<u8>,
    leaves: Seq<(u64, Seq<u8>)>,
) -> Option<bool> {
    match proof_root(mmr_size, items, leaves) {
        Some(r) => Some(r == root),
        None => None,
    }
}

/// Checks a proof: whether it gives `root` for `leaves`.
///
/// Returns `Ok(true)` where the root that the proof gives for the leaves is
/// `root`, `Ok(false)` where it is another root, and an `InternalError` where
/// the proof gives no root for these leaves.
pub fn verify_items(
    mmr_size: u64,
    items: &Vec<H256>,
    root: &H256,
    leaves: Vec<(u64, H256)>,
) -> (ret: Result<bool, AccumulatorError>)
    requires
        mmr_size <= MAX_MMR_SIZE,
    ensures
        match verdict(mmr_size, items_view(items@), root@, leaves_view(leaves@)) {
            Some(b) => ret == Ok::<bool, AccumulatorError>(b),
            None => ret matches Err(AccumulatorError::InternalError(_)),
        },
{
    let computed = match calculate_root(mmr_size, items, leaves) {
        Ok(r) => Ok(r),
        Err(e) => Err(error_text(&e)),
    };
    judge(computed, root)
}

/// A proof fits one root: for the same leaves, a proof that checks against
/// one root fails the check against every other root.
pub proof fn lemma_proof_fits_one_root(
    mmr_size: u64,
    items: Seq<Seq<u8>>,
    leaves: Seq<(u64, Seq<u8>)>,
    root: Seq<u8>,
    other: Seq<u8>,
)
    requires
        root != other,
        verdict(mmr_size, items, root, leaves) == Some(true),
    ensures
        verdict(mmr_size, items, other, leaves) == Some(false),
{
}

} // verus!
