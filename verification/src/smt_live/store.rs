//! The keys of the live tree's store. The tree's branches and leaves go
//! through the versioned store of the keyed tree; the element records stand
//! beside them under keys of their own.

use crate::bytes::{u32_le, u32_to_le};
use crate::OutPoint;
use vstd::prelude::*;

pub use crate::smt::store::DefaultStore;

verus! {

/// The namespace of the tree's branches.
pub const SMT_KEY: u8 = 0;

/// The namespace of the element records.
pub const ELEMENT_KEY: u8 = 1;

/// The key of an element's record: the namespace byte, the origin hash and
/// the index.
pub open spec fn element_key(out_point: OutPoint) -> Seq<u8> {
    seq![ELEMENT_KEY] + out_point.tx_hash@ + u32_le(out_point.index)
}

/// The key of an element's record.
pub fn element_key_bytes(out_point: &OutPoint) -> (ret: Vec<u8>)
    ensures
        ret@ == element_key(*out_point),
{
    let mut ret: Vec<u8> = Vec::with_capacity(37);
    ret.push(ELEMENT_KEY);
    ret.extend_from_slice(&out_point.tx_hash);
    let index = u32_to_le(out_point.index);
    ret.extend_from_slice(&index);
    ret
}

} // verus!
