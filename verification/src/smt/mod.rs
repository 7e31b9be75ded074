//! The keyed accumulator: an authenticated dictionary from an element's
//! identity to its lifecycle status.

pub mod accumulator;
pub mod merkle;
pub mod node;
pub mod serde;
pub mod store;
