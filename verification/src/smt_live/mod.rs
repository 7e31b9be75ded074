//! The live tree: a keyed accumulator that holds the elements that are still
//! live, each under its identity with the block that created it.

pub mod accumulator;
pub mod serde;
pub mod store;
