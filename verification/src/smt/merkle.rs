//! Checking a proof of the keyed tree against a root.
//!
//! A proof is held in its compiled form: a byte string that tells, leaf by
//! leaf, which siblings to merge on the way up to the root. The tree library
//! computes the root that the proof gives for a set of leaves; what is made
//! of that root is decided here.

use crate::hash::H256;
use crate::{judge, AccumulatorError};
use vstd::prelude::*;

verus! {

/// The error type of the tree library.
#[verifier::external_type_specification]
#[verifier::external_body]
pub struct ExError(sparse_merkle_tree::error::Error);

/// The depth of the stack on which the tree library merges subtrees.
pub const MAX_STACK_SIZE: usize = 257;

/// Whether the stack stays within `MAX_STACK_SIZE` when the program is run
/// from the op code at `at` with `depth` subtrees on the stack.
///
/// How deep the stack gets depends on the op codes alone. `L` (`0x4c`)
/// pushes a leaf. `P` (`0x50`, with a hash of 32 bytes after it), `Q`
/// (`0x51`, with 65 bytes after it) and `O` (`0x4f`, with one byte after it)
/// replace the top of the stack. `H` (`0x48`) replaces the two on top by one.
/// A program that needs more of the stack or of the program than there is,
/// or that holds another code, ends there.
pub open spec fn stack_fits_from(program: Seq<u8>, at: int, depth: int) -> bool
    decreases program.len() - at,
{
    if at < 0 || at >= program.len() {
        true
    } else if program[at] == 0x4c {
        depth < MAX_STACK_SIZE && stack_fits_from(program, at + 1, depth + 1)
    } else if program[at] == 0x50 {
        depth >= 1 && at + 33 <= program.len() ==> stack_fits_from(program, at + 33, depth)
    } else if program[at] == 0x51 {
        depth >= 1 && at + 66 <= program.len() ==> stack_fits_from(program, at + 66, depth)
    } else if program[at] == 0x4f {
        depth >= 1 && at + 2 <= program.len() ==> stack_fits_from(program, at + 2, depth)
    } else if program[at] == 0x48 {
        depth >= 2 ==> stack_fits_from(program, at + 1, depth - 1)
    } else {
        true
    }
}

/// Whether the stack stays within `MAX_STACK_SIZE` when the program is run.
pub open spec fn stack_fits(program: Seq<u8>) -> bool {
    stack_fits_from(program, 0, 0)
}

/// A proof can be run for this many leaves where the leaves alone cannot
/// overfill the stack, one push for each, or the program does not.
pub open spec fn runnable(proof: Seq<u8>, leaves: nat) -> bool {
    leaves <= MAX_STACK_SIZE || stack_fits(proof)
}

/// Whether the stack stays within `MAX_STACK_SIZE` when the program is run.
pub fn check_stack(program: &[u8]) -> (ret: bool)
    ensures
        ret == stack_fits(program@),
{
    let mut at: usize = 0;
    let mut depth: usize = 0;
    while at < program.len()
        invariant
            at <= program.len(),
            depth <= MAX_STACK_SIZE,
            stack_fits_from(program@, at as int, depth as int) == stack_fits(program@),
        decreases program.len() - at,
    {
        let code = program[at];
        let rest = program.len() - at;
        if code == 0x4c {
            if depth >= MAX_STACK_SIZE {
                return false;
            }
            depth += 1;
            at += 1;
        } else if code == 0x50 {
            if depth < 1 || rest < 33 {
                return true;
            }
            at += 33;
        } else if code == 0x51 {
            if depth < 1 || rest < 66 {
                return true;
            }
            at += 66;
        } else if code == 0x4f {
            if depth < 1 || rest < 2 {
                return true;
            }
            at += 2;
        } else if code == 0x48 {
            if depth < 2 {
                return true;
            }
            depth -= 1;
            at += 1;
        } else {
            return true;
        }
    }
    true
}

/// The root that a compiled proof gives for a set of leaves, each a key and
/// the digest of its value; nothing where the proof does not fit the leaves.
pub uninterp spec fn compiled_proof_root(proof: Seq<u8>, leaves: Seq<(Seq<u8>, Seq<u8>)>) -> Option<
    Seq<u8>,
>;

/// The leaves as byte strings.
pub open spec fn leaves_view(leaves: Seq<(H256, H256)>) -> Seq<(Seq<u8>, Seq<u8>)> {
    Seq::new(leaves.len(), |i: int| (leaves[i].0@, leaves[i].1@))
}

/// What a check of a proof against a root gives: whether the root that the
/// proof gives for the leaves is that root, and nothing where it gives none.
pub open spec fn verdict(proof: Seq<u8>, root: Seq<u8>, leaves: Seq<(Seq<u8>, Seq<u8>)>) -> Option<
    bool,
> {
    match compiled_proof_root(proof, leaves) {
        Some(r) => Some(r == root),
        None => None,
    }
}

/// Calls `sparse_merkle_tree::CompiledMerkleProof::compute_root` with the
/// BLAKE2b hasher of the tree library. The call runs the proof as a program
/// over a stack of subtrees and returns the root it ends with, or an error
/// where the program is malformed or does not use up the leaves. Both depend
/// on the proof and the leaves alone. The library asserts after every step
/// that the stack holds no more than 257 subtrees; only proofs for which
/// that is so are handed over: those whose leaves are too few to overfill
/// the stack, and those whose op codes do not.
#[verifier::external_body]
fn compute_root(proof: &Vec<u8>, leaves: &Vec<(H256, H256)>) -> (ret: Result<
    H256,
    sparse_merkle_tree::error::Error,
>)
    requires
        runnable(proof@, leaves@.len()),
    ensures
        match ret {
            Ok(root) => compiled_proof_root(proof@, leaves_view(leaves@)) == Some(root@),
            Err(_) => compiled_proof_root(proof@, leaves_view(leaves@)) is None,
        },
{
    let leaves = leaves.iter().map(|(k, v)| (k.0.into(), v.0.into())).collect();
    sparse_merkle_tree::CompiledMerkleProof(proof.clone())
        .compute_root::<sparse_merkle_tree::blake2b::Blake2bHasher>(leaves)
        .map(|root| H256(root.into()))
}

/// Calls `to_string` on an error of the tree library: the text that its
/// `Display` writes. Nothing is claimed of the text.
#[verifier::external_body]
fn error_text(error: &sparse_merkle_tree::error::Error) -> String {
    error.to_string()
}

/// Checks a compiled proof: whether it gives `root` for `leaves`.
///
/// Returns `Ok(true)` where the root that the proof gives for the leaves is
/// `root`, `Ok(false)` where it is another root, and an `InternalError` where
/// the proof gives no root for these leaves.
pub fn verify_compiled(proof: &Vec<u8>, root: &H256, leaves: &Vec<(H256, H256)>) -> (ret: Result<
    bool,
    AccumulatorError,
>)
    requires
        runnable(proof@, leaves@.len()),
    ensures
        match verdict(proof@, root@, leaves_view(leaves@)) {
            Some(b) => ret == Ok::<bool, AccumulatorError>(b),
            None => ret matches Err(AccumulatorError::InternalError(_)),
        },
{
    let computed = match compute_root(proof, leaves) {
        Ok(r) => Ok(r),
        Err(e) => Err(error_text(&e)),
    };
    judge(computed, root)
}

/// A proof fits one root: for the same leaves, a proof that checks against
/// one root fails the check against every other root.
pub proof fn lemma_proof_fits_one_root(
    proof: Seq<u8>,
    leaves: Seq<(Seq<u8>, Seq<u8>)>,
    root: Seq<u8>,
    other: Seq<u8>,
)
    requires
        root != other,
        verdict(proof, root, leaves) == Some(true),
    ensures
        verdict(proof, other, leaves) == Some(false),
{
}

} // verus!
