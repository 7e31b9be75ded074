//! The append-only tree: a keyed accumulator that never overwrites a node,
//! and finds the state of an earlier block through the root it stored for
//! that block.

pub mod node;
pub mod serde;
pub mod store;
