use dca_bench::hash::H256;
use dca_bench::smt::node::{BranchKey, BranchNode, MergeValue};
use dca_bench::smt_append_only::node::{
    BranchNode as AppendOnlyNode, MergeValue as AppendOnlyValue,
};
use dca_bench::smt_append_only::serde as append_only;
use dca_bench::smt_live::serde::{
    branch_key_to_vec, branch_node_to_vec, is_branch_node, slice_to_branch_node,
};

fn hash(byte: u8) -> H256 {
    H256([byte; 32])
}

fn value(byte: u8) -> MergeValue {
    MergeValue::Value(hash(byte))
}

fn merged(byte: u8) -> MergeValue {
    MergeValue::MergeWithZero {
        base_node: hash(byte),
        zero_bits: hash(byte + 1),
        zero_count: byte + 2,
    }
}

fn shortcut(byte: u8) -> MergeValue {
    MergeValue::ShortCut { key: hash(byte), value: hash(byte + 1), height: byte + 2 }
}

fn fields(parts: &[&[u8]]) -> Vec<u8> {
    parts.concat()
}

#[test]
fn branch_key_is_namespace_height_and_path() {
    let key = BranchKey { height: 7, node_key: hash(9) };
    assert_eq!(branch_key_to_vec(&key), fields(&[&[0, 7], &[9u8; 32]]));
}

#[test]
fn every_shape_of_node_has_its_tag_and_layout() {
    let cases: Vec<(MergeValue, MergeValue, u8, usize)> = vec![
        (value(10), value(20), 0, 65),
        (value(10), merged(20), 1, 98),
        (merged(10), value(20), 2, 98),
        (merged(10), merged(20), 3, 131),
        (value(10), shortcut(20), 4, 98),
        (shortcut(10), value(20), 5, 98),
        (shortcut(10), shortcut(20), 6, 131),
        (merged(10), shortcut(20), 7, 131),
        (shortcut(10), merged(20), 8, 131),
    ];
    for (left, right, tag, len) in cases {
        let node = BranchNode { left, right };
        let bytes = branch_node_to_vec(&node);
        assert_eq!(bytes[0], tag);
        assert_eq!(bytes.len(), len);
        assert!(is_branch_node(&bytes));
        assert_eq!(slice_to_branch_node(&bytes), node);
    }
}

#[test]
fn value_and_merged_children_lie_field_after_field() {
    let node = BranchNode { left: value(1), right: merged(2) };
    assert_eq!(
        branch_node_to_vec(&node),
        fields(&[&[1], &[1u8; 32], &[2u8; 32], &[3u8; 32], &[4]])
    );
    let node = BranchNode { left: merged(2), right: value(1) };
    assert_eq!(
        branch_node_to_vec(&node),
        fields(&[&[2], &[2u8; 32], &[3u8; 32], &[4], &[1u8; 32]])
    );
}

#[test]
fn shortcut_children_lie_key_value_height() {
    let node = BranchNode { left: shortcut(5), right: merged(8) };
    assert_eq!(
        branch_node_to_vec(&node),
        fields(&[&[8], &[5u8; 32], &[6u8; 32], &[7], &[8u8; 32], &[9u8; 32], &[10]])
    );
    let read = slice_to_branch_node(&fields(&[&[4], &[1u8; 32], &[2u8; 32], &[3u8; 32], &[9]]));
    assert_eq!(
        read,
        BranchNode {
            left: value(1),
            right: MergeValue::ShortCut { key: hash(2), value: hash(3), height: 9 },
        }
    );
}

#[test]
fn records_of_the_wrong_length_or_tag_are_not_nodes() {
    assert!(!is_branch_node(&[]));
    assert!(!is_branch_node(&[0]));
    assert!(!is_branch_node(&fields(&[&[9], &[0u8; 64]])));
    assert!(!is_branch_node(&fields(&[&[0], &[0u8; 63]])));
    assert!(!is_branch_node(&fields(&[&[0], &[0u8; 65]])));
    assert!(!is_branch_node(&fields(&[&[1], &[0u8; 64]])));
    assert!(!is_branch_node(&fields(&[&[0, 0], &[0u8; 64]])));
    assert!(is_branch_node(&fields(&[&[0], &[0u8; 64]])));
    assert!(is_branch_node(&fields(&[&[1], &[0u8; 97]])));
    assert!(is_branch_node(&fields(&[&[6], &[0u8; 130]])));
}

fn ao_value(byte: u8) -> AppendOnlyValue {
    AppendOnlyValue::Value(hash(byte))
}

fn ao_merged(byte: u8) -> AppendOnlyValue {
    AppendOnlyValue::MergeWithZero {
        base_node: hash(byte),
        zero_bits: hash(byte + 1),
        zero_count: byte + 2,
        value: hash(byte + 3),
    }
}

#[test]
fn append_only_nodes_have_their_tag_and_layout() {
    let cases: Vec<(AppendOnlyValue, AppendOnlyValue, u8, usize)> = vec![
        (ao_value(10), ao_value(20), 0, 65),
        (ao_value(10), ao_merged(20), 1, 130),
        (ao_merged(10), ao_value(20), 2, 130),
        (ao_merged(10), ao_merged(20), 3, 195),
    ];
    for (left, right, tag, len) in cases {
        let node = AppendOnlyNode { left, right };
        let bytes = append_only::branch_node_to_vec(&node);
        assert_eq!(bytes[0], tag);
        assert_eq!(bytes.len(), len);
        assert!(append_only::is_branch_node(&bytes));
        assert_eq!(append_only::slice_to_branch_node(&bytes), node);
    }
}

#[test]
fn append_only_merged_child_carries_its_value_last() {
    let node = AppendOnlyNode { left: ao_merged(1), right: ao_value(9) };
    assert_eq!(
        append_only::branch_node_to_vec(&node),
        fields(&[&[2], &[1u8; 32], &[2u8; 32], &[3], &[4u8; 32], &[9u8; 32]])
    );
    let read = append_only::slice_to_branch_node(&fields(&[
        &[1],
        &[9u8; 32],
        &[1u8; 32],
        &[2u8; 32],
        &[3],
        &[4u8; 32],
    ]));
    assert_eq!(read, AppendOnlyNode { left: ao_value(9), right: ao_merged(1) });
}

#[test]
fn append_only_records_of_the_wrong_length_or_tag_are_not_nodes() {
    assert!(!append_only::is_branch_node(&[]));
    assert!(!append_only::is_branch_node(&fields(&[&[4], &[0u8; 64]])));
    assert!(!append_only::is_branch_node(&fields(&[&[0], &[0u8; 63]])));
    assert!(!append_only::is_branch_node(&fields(&[&[3], &[0u8; 193]])));
    assert!(append_only::is_branch_node(&fields(&[&[3], &[0u8; 194]])));
}
