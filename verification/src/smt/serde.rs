//! The byte layout of branch keys and branch nodes in the store: the keyed
//! tree and the live tree write their branches alike.

pub use crate::smt_live::serde::{
    branch_key_to_vec, branch_node_to_vec, decode_node, encode_key, encode_node, is_branch_node,
    slice_to_branch_node, valid_encoding,
};
