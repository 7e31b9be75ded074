use std::cell::RefCell;
use std::collections::BTreeMap;
use std::ops::Bound;

use dca_bench::hash::H256;
use dca_bench::smt::accumulator::{
    element_leaves, AccumulatorCommitment, AccumulatorProof, SMTAccumulator,
};
use dca_bench::smt::merkle::{check_stack, verify_compiled};
use dca_bench::smt::node::{BranchKey, BranchNode, MergeValue};
use dca_bench::smt::store::DefaultStore;
use dca_bench::smt_live::serde::{branch_key_to_vec, is_branch_node};
use dca_bench::{
    judge, AccumulatorError, AccumulatorReader, AccumulatorWriter, CellStatus, OutPoint, Proof,
};
use sparse_merkle_tree::blake2b::Blake2bHasher;
use sparse_merkle_tree::error::Error;
use sparse_merkle_tree::traits::{StoreReadOps, StoreWriteOps, Value};
use sparse_merkle_tree::SparseMerkleTree;

// An ordered key-value store in memory, walked as the versioned store walks
// the real one.
type Db = RefCell<BTreeMap<Vec<u8>, Vec<u8>>>;

fn seek_for_prev(db: &Db, start: &[u8]) -> Option<(Vec<u8>, Vec<u8>)> {
    db.borrow()
        .range::<[u8], _>((Bound::Unbounded, Bound::Included(start)))
        .next_back()
        .map(|(k, v)| (k.clone(), v.clone()))
}

fn write(db: &Db, entry: (Vec<u8>, Vec<u8>)) {
    db.borrow_mut().insert(entry.0, entry.1);
}

fn counter(db: &Db) -> Option<Vec<u8>> {
    let record = db.borrow().get(&DefaultStore::sequence_key()).cloned();
    if let Some(v) = &record {
        assert_eq!(v.len(), 8, "sequence number should be 8 bytes");
    }
    record
}

fn to_hash(h: &sparse_merkle_tree::H256) -> H256 {
    H256((*h).into())
}

fn from_hash(h: &H256) -> sparse_merkle_tree::H256 {
    h.0.into()
}

fn to_child(v: &sparse_merkle_tree::merge::MergeValue) -> MergeValue {
    match v {
        sparse_merkle_tree::merge::MergeValue::Value(v) => MergeValue::Value(to_hash(v)),
        sparse_merkle_tree::merge::MergeValue::MergeWithZero { base_node, zero_bits, zero_count } => {
            MergeValue::MergeWithZero {
                base_node: to_hash(base_node),
                zero_bits: to_hash(zero_bits),
                zero_count: *zero_count,
            }
        }
        sparse_merkle_tree::merge::MergeValue::ShortCut { key, value, height } => {
            MergeValue::ShortCut { key: to_hash(key), value: to_hash(value), height: *height }
        }
    }
}

fn from_child(v: &MergeValue) -> sparse_merkle_tree::merge::MergeValue {
    match v {
        MergeValue::Value(v) => sparse_merkle_tree::merge::MergeValue::Value(from_hash(v)),
        MergeValue::MergeWithZero { base_node, zero_bits, zero_count } => {
            sparse_merkle_tree::merge::MergeValue::MergeWithZero {
                base_node: from_hash(base_node),
                zero_bits: from_hash(zero_bits),
                zero_count: *zero_count,
            }
        }
        MergeValue::ShortCut { key, value, height } => {
            sparse_merkle_tree::merge::MergeValue::ShortCut {
                key: from_hash(key),
                value: from_hash(value),
                height: *height,
            }
        }
    }
}

fn to_key(key: &sparse_merkle_tree::BranchKey) -> BranchKey {
    BranchKey { height: key.height, node_key: to_hash(&key.node_key) }
}

#[derive(Clone)]
struct Status(CellStatus);

impl Value for Status {
    fn to_h256(&self) -> sparse_merkle_tree::H256 {
        from_hash(&self.0.to_h256())
    }

    fn zero() -> Self {
        Status(CellStatus::zero())
    }
}

struct TreeStore<'a> {
    db: &'a Db,
    store: DefaultStore,
}

impl<'a> StoreReadOps<Status> for TreeStore<'a> {
    fn get_branch(
        &self,
        branch_key: &sparse_merkle_tree::BranchKey,
    ) -> Result<Option<sparse_merkle_tree::BranchNode>, Error> {
        let key = to_key(branch_key);
        let logical = branch_key_to_vec(&key);
        let found = seek_for_prev(self.db, &self.store.seek_key(&logical));
        if let Some((k, v)) = &found {
            if k.starts_with(&logical) && !v.is_empty() {
                assert!(is_branch_node(v), "checked slice");
            }
        }
        Ok(self.store.get_branch(&key, found).map(|node| sparse_merkle_tree::BranchNode {
            left: from_child(&node.left),
            right: from_child(&node.right),
        }))
    }

    fn get_leaf(&self, leaf_key: &sparse_merkle_tree::H256) -> Result<Option<Status>, Error> {
        let key = to_hash(leaf_key);
        let found = seek_for_prev(self.db, &self.store.seek_key(key.as_bytes()));
        Ok(self.store.get_leaf(&key, found).map(|bytes| {
            assert_eq!(bytes.len(), 16, "checked length");
            Status(CellStatus::from_bytes(&bytes))
        }))
    }
}

impl<'a> StoreWriteOps<Status> for TreeStore<'a> {
    fn insert_branch(
        &mut self,
        node_key: sparse_merkle_tree::BranchKey,
        branch: sparse_merkle_tree::BranchNode,
    ) -> Result<(), Error> {
        let node = BranchNode { left: to_child(&branch.left), right: to_child(&branch.right) };
        write(self.db, self.store.insert_branch(&to_key(&node_key), &node));
        Ok(())
    }

    fn insert_leaf(&mut self, leaf_key: sparse_merkle_tree::H256, leaf: Status) -> Result<(), Error> {
        write(self.db, self.store.insert_leaf(&to_hash(&leaf_key), &leaf.0.block_numbers));
        Ok(())
    }

    fn remove_branch(&mut self, node_key: &sparse_merkle_tree::BranchKey) -> Result<(), Error> {
        write(self.db, self.store.remove_branch(&to_key(node_key)));
        Ok(())
    }

    fn remove_leaf(&mut self, leaf_key: &sparse_merkle_tree::H256) -> Result<(), Error> {
        write(self.db, self.store.remove_leaf(&to_hash(leaf_key)));
        Ok(())
    }
}

type Tree<'a> = SparseMerkleTree<Blake2bHasher, Status, TreeStore<'a>>;

fn internal(err: Error) -> AccumulatorError {
    AccumulatorError::InternalError(err.to_string())
}

// The accumulator over the store in memory.
struct Accumulator<'a> {
    db: &'a Db,
    core: SMTAccumulator,
}

impl<'a> Accumulator<'a> {
    fn new(db: &'a Db) -> Self {
        Accumulator { db, core: SMTAccumulator::new(counter(db)) }
    }

    fn new_with_sequence(db: &'a Db, sequence: u64) -> Self {
        let record = counter(db);
        let stored = record
            .as_ref()
            .map(|v| u64::from_be_bytes(v.as_slice().try_into().unwrap()))
            .unwrap_or(0);
        assert!(sequence <= stored);
        Accumulator { db, core: SMTAccumulator::new_with_sequence(record, sequence) }
    }

    fn tree(&self) -> Result<Tree<'a>, AccumulatorError> {
        Tree::new_with_store(TreeStore { db: self.db, store: *self.core.store() })
            .map_err(internal)
    }

    fn statuses(&self, elements: &[OutPoint]) -> Result<Vec<CellStatus>, AccumulatorError> {
        let tree = self.tree()?;
        elements
            .iter()
            .map(|e| tree.get(&e.hash().into()).map(|s| s.0).map_err(internal))
            .collect()
    }

    fn update(&self, leaves: Vec<(H256, CellStatus)>) -> Result<(), AccumulatorError> {
        let leaves = leaves.iter().map(|(k, s)| (from_hash(k), Status(*s))).collect();
        self.tree()?.update_all(leaves).map_err(internal)?;
        Ok(())
    }
}

impl<'a> AccumulatorWriter for Accumulator<'a> {
    type Item = OutPoint;
    type Commitment = AccumulatorCommitment;
    type Proof = AccumulatorProof;

    fn add(&mut self, elements: Vec<OutPoint>) -> Result<(), AccumulatorError> {
        self.update(self.core.add(&elements))
    }

    fn delete(&mut self, elements: Vec<OutPoint>) -> Result<(), AccumulatorError> {
        let statuses = self.statuses(&elements)?;
        self.update(self.core.delete(&elements, &statuses)?)
    }

    fn commit(&mut self) -> Result<AccumulatorCommitment, AccumulatorError> {
        let root = to_hash(self.tree()?.root());
        assert!(self.core.store().sequence() < u64::MAX);
        let (commitment, entry) = self.core.commit(root);
        write(self.db, entry);
        Ok(commitment)
    }
}

impl<'a> AccumulatorReader for Accumulator<'a> {
    type Item = OutPoint;
    type Commitment = AccumulatorCommitment;
    type Proof = AccumulatorProof;

    fn prove(
        &self,
        commitment: AccumulatorCommitment,
        elements: Vec<OutPoint>,
    ) -> Result<AccumulatorProof, AccumulatorError> {
        let tree = self.tree()?;
        let root = to_hash(tree.root());
        commitment.check(&root)?;
        let statuses = self.statuses(&elements)?;
        let keys = self.core.prove(&commitment, &root, &elements, &statuses)?;
        let keys: Vec<sparse_merkle_tree::H256> = keys.iter().map(from_hash).collect();
        let proof = tree.merkle_proof(keys.clone()).map_err(internal)?;
        let compiled = proof.compile(keys).map_err(internal)?;
        Ok(AccumulatorProof::new(compiled.0))
    }
}

fn out_point(byte: u8) -> OutPoint {
    OutPoint { tx_hash: [byte; 32], index: 0 }
}

#[test]
fn keyed_accumulator_proves_each_state_at_its_commitment() {
    let db = Db::default();
    let mut accumulator = Accumulator::new(&db);

    accumulator.add(vec![out_point(1), out_point(2)]).unwrap();
    let commitment1 = accumulator.commit().unwrap();
    accumulator.add(vec![out_point(3)]).unwrap();
    let commitment2 = accumulator.commit().unwrap();
    accumulator.delete(vec![out_point(2)]).unwrap();
    let commitment3 = accumulator.commit().unwrap();
    assert_eq!(
        (commitment1.sequence(), commitment2.sequence(), commitment3.sequence()),
        (0, 1, 2)
    );

    let view = Accumulator::new_with_sequence(&db, 0);
    let proof1 = view.prove(commitment1, vec![out_point(1)]).unwrap();
    assert!(proof1.verify(commitment1, vec![(out_point(1), CellStatus::new_live(0))]).unwrap());

    let view = Accumulator::new_with_sequence(&db, 1);
    let proof2 = view.prove(commitment2, vec![out_point(3)]).unwrap();
    assert!(proof2.verify(commitment2, vec![(out_point(3), CellStatus::new_live(1))]).unwrap());

    let view = Accumulator::new_with_sequence(&db, 2);
    let proof3 = view.prove(commitment3, vec![out_point(2)]).unwrap();
    assert!(proof3.verify(commitment3, vec![(out_point(2), CellStatus::new_dead(0, 2))]).unwrap());
}

#[test]
fn earlier_sequences_keep_their_roots() {
    let db = Db::default();
    let mut accumulator = Accumulator::new(&db);
    let mut commitments = Vec::new();
    for block in 0..4u8 {
        accumulator.add(vec![out_point(10 + block), out_point(20 + block)]).unwrap();
        if block > 0 {
            accumulator.delete(vec![out_point(10 + block - 1)]).unwrap();
        }
        commitments.push(accumulator.commit().unwrap());
    }
    for (k, commitment) in commitments.iter().enumerate() {
        let view = Accumulator::new_with_sequence(&db, k as u64);
        assert_eq!(&to_hash(view.tree().unwrap().root()), commitment.root());
    }
    assert_ne!(commitments[0].root(), commitments[3].root());
}

#[test]
fn keyed_proof_does_not_verify_under_another_root_or_state() {
    let db = Db::default();
    let mut accumulator = Accumulator::new(&db);
    accumulator.add(vec![out_point(1)]).unwrap();
    let commitment1 = accumulator.commit().unwrap();
    accumulator.add(vec![out_point(2)]).unwrap();
    let commitment2 = accumulator.commit().unwrap();

    let view = Accumulator::new_with_sequence(&db, 0);
    let proof = view.prove(commitment1, vec![out_point(1)]).unwrap();
    assert!(!proof.verify(commitment2, vec![(out_point(1), CellStatus::new_live(0))]).unwrap());
    let proof = view.prove(commitment1, vec![out_point(1)]).unwrap();
    assert!(!proof.verify(commitment1, vec![(out_point(1), CellStatus::new_live(1))]).unwrap());
    let proof = view.prove(commitment1, vec![out_point(1)]).unwrap();
    assert!(proof.verify(commitment1, vec![(out_point(1), CellStatus::new_live(0))]).unwrap());
}

#[test]
fn keyed_delete_is_refused_for_unknown_and_consumed_elements() {
    let db = Db::default();
    let mut accumulator = Accumulator::new(&db);
    accumulator.add(vec![out_point(1), out_point(2)]).unwrap();
    accumulator.commit().unwrap();

    let before = db.borrow().clone();
    let result = accumulator.delete(vec![out_point(1), out_point(2), out_point(3)]);
    assert!(matches!(result, Err(AccumulatorError::ElementNotFound(2))));
    assert_eq!(*db.borrow(), before);

    accumulator.delete(vec![out_point(1)]).unwrap();
    accumulator.commit().unwrap();
    let result = accumulator.delete(vec![out_point(2), out_point(1)]);
    assert!(matches!(result, Err(AccumulatorError::ElementNotFound(1))));
}

#[test]
fn keyed_proof_is_refused_for_unknown_elements_and_stale_commitments() {
    let db = Db::default();
    let mut accumulator = Accumulator::new(&db);
    accumulator.add(vec![out_point(1)]).unwrap();
    let stale = accumulator.commit().unwrap();
    accumulator.add(vec![out_point(2)]).unwrap();
    let current = accumulator.commit().unwrap();

    let result = accumulator.prove(current, vec![out_point(1), out_point(5)]);
    assert!(matches!(result, Err(AccumulatorError::ElementNotFound(1))));
    let result = accumulator.prove(stale, vec![out_point(1)]);
    assert!(matches!(result, Err(AccumulatorError::InvalidCommitment)));
    assert!(accumulator.prove(current, vec![out_point(2), out_point(1)]).is_ok());
}

#[test]
fn add_writes_live_statuses_and_delete_fills_in_the_consumed_block() {
    let core = SMTAccumulator::new(Some(vec![0, 0, 0, 0, 0, 0, 0, 4]));
    let leaves = core.add(&vec![out_point(1), out_point(2)]);
    assert_eq!(
        leaves,
        vec![
            (H256(out_point(1).hash()), CellStatus::new_live(4)),
            (H256(out_point(2).hash()), CellStatus::new_live(4)),
        ]
    );
    let leaves = core.delete(&vec![out_point(1)], &vec![CellStatus::new_live(2)]).unwrap();
    assert_eq!(leaves, vec![(H256(out_point(1).hash()), CellStatus::new_dead(2, 4))]);
    assert!(!leaves[0].1.is_live());
    let again = core.delete(&vec![out_point(1)], &vec![leaves[0].1]);
    assert!(matches!(again, Err(AccumulatorError::ElementNotFound(0))));
    let absent = core.delete(&vec![out_point(1)], &vec![CellStatus::zero()]);
    assert!(matches!(absent, Err(AccumulatorError::ElementNotFound(0))));
}

#[test]
fn an_element_of_block_zero_is_not_deleted_in_block_zero() {
    let core = SMTAccumulator::new(None);
    let result = core.delete(&vec![out_point(1)], &vec![CellStatus::new_live(0)]);
    assert!(matches!(result, Err(AccumulatorError::ElementNotFound(0))));
    let result = core.delete(
        &vec![out_point(1), out_point(2)],
        &vec![CellStatus::new_live(1), CellStatus::new_live(0)],
    );
    assert!(matches!(result, Err(AccumulatorError::ElementNotFound(1))));

    let later = SMTAccumulator::new(Some(vec![0, 0, 0, 0, 0, 0, 0, 1]));
    let leaves = later.delete(&vec![out_point(1)], &vec![CellStatus::new_live(0)]).unwrap();
    assert_eq!(leaves[0].1, CellStatus::new_dead(0, 1));
    assert!(!leaves[0].1.is_zero());

    let db = Db::default();
    let mut accumulator = Accumulator::new(&db);
    accumulator.add(vec![out_point(1)]).unwrap();
    let before = db.borrow().clone();
    let result = accumulator.delete(vec![out_point(1)]);
    assert!(matches!(result, Err(AccumulatorError::ElementNotFound(0))));
    assert_eq!(*db.borrow(), before);
    accumulator.commit().unwrap();
    assert!(accumulator.delete(vec![out_point(1)]).is_ok());
}

#[test]
fn nothing_is_deleted_from_the_keyed_tree_in_the_largest_block() {
    let core = SMTAccumulator::new(Some(vec![0xff; 8]));
    let result = core.delete(&vec![out_point(1)], &vec![CellStatus::new_live(3)]);
    assert!(matches!(result, Err(AccumulatorError::ElementNotFound(0))));
}

#[test]
fn a_proof_that_cannot_be_run_is_an_internal_error() {
    let commitment = AccumulatorCommitment::new(H256([0u8; 32]), 0);
    let proof = AccumulatorProof::new(vec![0x77]);
    let result = proof.verify(commitment, vec![(out_point(1), CellStatus::new_live(0))]);
    assert!(matches!(
        result,
        Err(AccumulatorError::InternalError(text)) if text == "Invalid serialized proof code: 119"
    ));
    let proof = AccumulatorProof::new(vec![0x4c, 0x4f, 0x00]);
    let result = proof.verify(commitment, vec![]);
    assert!(matches!(result, Err(AccumulatorError::InternalError(_))));
}

#[test]
fn a_proof_that_overfills_the_stack_is_invalid() {
    let commitment = AccumulatorCommitment::new(H256([0u8; 32]), 0);
    let elements: Vec<(OutPoint, CellStatus)> = (0..258u32)
        .map(|i| (OutPoint { tx_hash: [0u8; 32], index: i }, CellStatus::new_live(0)))
        .collect();
    let result = AccumulatorProof::new(vec![0x4c; 258]).verify(commitment, elements.clone());
    assert!(matches!(result, Err(AccumulatorError::InvalidProof)));
    // With one push less the program is run, and found not to end in a root.
    let result = AccumulatorProof::new(vec![0x4c; 257]).verify(commitment, elements);
    assert!(matches!(result, Err(AccumulatorError::InternalError(_))));
}

#[test]
fn the_stack_is_followed_through_the_op_codes() {
    assert!(check_stack(&[]));
    assert!(check_stack(&vec![0x4c; 257]));
    assert!(!check_stack(&vec![0x4c; 258]));
    // Two pushes and a merge, again and again, never hold more than two.
    let mut program = vec![0x4c];
    for _ in 0..400 {
        program.extend_from_slice(&[0x4c, 0x48]);
    }
    assert!(check_stack(&program));
    // The 32 bytes after a P are a hash, whatever they look like.
    let mut program = vec![0x4c, 0x50];
    program.extend_from_slice(&[0x4c; 32]);
    program.extend_from_slice(&vec![0x4c; 256]);
    assert!(check_stack(&program));
    program.push(0x4c);
    assert!(!check_stack(&program));
    // A program that ends in an unknown code ends there.
    let mut program = vec![0x00];
    program.extend_from_slice(&vec![0x4c; 300]);
    assert!(check_stack(&program));
}

#[test]
fn a_proof_of_many_elements_is_checked_like_any_other() {
    let db = Db::default();
    let mut accumulator = Accumulator::new(&db);
    let elements: Vec<OutPoint> =
        (0..300u32).map(|i| OutPoint { tx_hash: [7u8; 32], index: i }).collect();
    accumulator.add(elements.clone()).unwrap();
    let commitment = accumulator.commit().unwrap();
    let view = Accumulator::new_with_sequence(&db, 0);
    let proof = view.prove(commitment, elements.clone()).unwrap();
    let shown: Vec<(OutPoint, CellStatus)> =
        elements.iter().map(|e| (*e, CellStatus::new_live(0))).collect();
    assert!(proof.verify(commitment, shown.clone()).unwrap());
    let proof = view.prove(commitment, elements).unwrap();
    let mut wrong = shown;
    wrong[299].1 = CellStatus::new_live(1);
    assert!(!proof.verify(commitment, wrong).unwrap());
}

#[test]
fn a_lone_leaf_under_zero_siblings_gives_the_root_of_a_one_element_tree() {
    let db = Db::default();
    let mut accumulator = Accumulator::new(&db);
    accumulator.add(vec![out_point(1)]).unwrap();
    let commitment = accumulator.commit().unwrap();
    // Push the leaf, then merge it with 256 empty siblings.
    let program = vec![0x4c, 0x4f, 0x00];
    let leaves = element_leaves(&vec![(out_point(1), CellStatus::new_live(0))]);
    assert_eq!(verify_compiled(&program, commitment.root(), &leaves).unwrap(), true);
    assert_eq!(verify_compiled(&program, &H256([1u8; 32]), &leaves).unwrap(), false);
    let other = element_leaves(&vec![(out_point(1), CellStatus::new_live(1))]);
    assert_eq!(verify_compiled(&program, commitment.root(), &other).unwrap(), false);
}

#[test]
fn judge_compares_the_computed_root() {
    let root = H256([3u8; 32]);
    assert_eq!(judge(Ok(H256([3u8; 32])), &root).unwrap(), true);
    assert_eq!(judge(Ok(H256([4u8; 32])), &root).unwrap(), false);
    let failed = judge(Err("Corrupted proof".to_string()), &root);
    assert!(matches!(failed, Err(AccumulatorError::InternalError(text)) if text == "Corrupted proof"));
}
