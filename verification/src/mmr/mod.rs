//! The append-only accumulator: a Merkle mountain range of leaf hashes, with
//! a record beside it that tells where each element's leaf stands.

pub mod accumulator;
pub mod merkle;
pub mod store;
pub mod update;
