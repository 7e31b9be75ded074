use std::cell::RefCell;
use std::collections::BTreeMap;
use std::ops::Bound;

use ckb_merkle_mountain_range::{
    leaf_index_to_mmr_size, Error, MMRStoreReadOps, MMRStoreWriteOps, Merge, MMR,
};
use dca_bench::hash::{hash_bytes, merge, H256};
use dca_bench::mmr::accumulator::{
    element_key_bytes, leaf_hash, AccumulatorCommitment, AccumulatorProof, MMRAccumulator,
};
use dca_bench::mmr::merkle::{verify_items, MergeH256, MAX_MMR_SIZE};
use dca_bench::mmr::store::DefaultStore;
use dca_bench::mmr::update::{rehash, update_path};
use dca_bench::{
    AccumulatorError, AccumulatorReader, AccumulatorWriter, CellStatus, OutPoint, Proof,
};

// An ordered key-value store in memory, walked as the versioned store walks
// the real one.
type Db = RefCell<BTreeMap<Vec<u8>, Vec<u8>>>;

fn seek_for_prev(db: &Db, start: &[u8]) -> Option<(Vec<u8>, Vec<u8>)> {
    db.borrow()
        .range::<[u8], _>((Bound::Unbounded, Bound::Included(start)))
        .next_back()
        .map(|(k, v)| (k.clone(), v.clone()))
}

fn point_get(db: &Db, key: &[u8]) -> Option<Vec<u8>> {
    db.borrow().get(key).cloned()
}

fn read(db: &Db, store: &DefaultStore, key: &[u8]) -> Option<Vec<u8>> {
    let start = store.seek_key(key);
    store.get(key, seek_for_prev(db, &start))
}

fn write(db: &Db, entry: (Vec<u8>, Vec<u8>)) {
    db.borrow_mut().insert(entry.0, entry.1);
}

fn counter(db: &Db) -> Option<Vec<u8>> {
    let record = point_get(db, &DefaultStore::sequence_key());
    if let Some(v) = &record {
        assert_eq!(v.len(), 8, "sequence number should be 8 bytes");
    }
    record
}

fn open_at(db: &Db, sequence: u64) -> DefaultStore {
    let record = counter(db);
    let stored = record
        .as_ref()
        .map(|v| u64::from_be_bytes(v.as_slice().try_into().unwrap()))
        .unwrap_or(0);
    assert!(sequence <= stored);
    DefaultStore::new_with_sequence(record, sequence)
}

struct TreeStore<'a> {
    db: &'a Db,
    store: DefaultStore,
}

impl<'a> TreeStore<'a> {
    fn node(&self, pos: u64) -> Option<H256> {
        let key = DefaultStore::elem_key(pos);
        let found = seek_for_prev(self.db, &self.store.seek_key(&key));
        if let Some((k, v)) = &found {
            if k.starts_with(&key) {
                assert!(v.is_empty() || v.len() == 32, "checked length");
            }
        }
        self.store.get_elem(pos, found)
    }
}

impl<'a> MMRStoreReadOps<H256> for TreeStore<'a> {
    fn get_elem(&self, pos: u64) -> Result<Option<H256>, Error> {
        Ok(self.node(pos))
    }
}

impl<'a> MMRStoreWriteOps<H256> for TreeStore<'a> {
    fn append(&mut self, pos: u64, elems: Vec<H256>) -> Result<(), Error> {
        for (i, elem) in elems.iter().enumerate() {
            write(self.db, self.store.insert(pos + i as u64, elem));
        }
        Ok(())
    }
}

type Tree<'a> = MMR<H256, MergeH256, TreeStore<'a>>;

fn tree(db: &Db, store: DefaultStore, mmr_size: u64) -> Tree<'_> {
    MMR::new(mmr_size, TreeStore { db, store })
}

fn replace_leaf(db: &Db, store: DefaultStore, mmr_size: u64, pos: u64, leaf: &H256) {
    let nodes = TreeStore { db, store };
    let path = update_path(pos, mmr_size);
    let siblings: Vec<H256> = path
        .iter()
        .map(|step| nodes.node(step.sibling).expect("sibling is stored"))
        .collect();
    for (at, node) in rehash(pos, leaf, &path, &siblings) {
        write(db, store.insert(at, &node));
    }
}

fn internal(err: Error) -> AccumulatorError {
    AccumulatorError::InternalError(err.to_string())
}

// The accumulator over the store in memory.
struct Accumulator<'a> {
    db: &'a Db,
    core: MMRAccumulator,
    mmr_size: u64,
}

impl<'a> Accumulator<'a> {
    fn new(db: &'a Db, mmr_size: u64) -> Self {
        Accumulator { db, core: MMRAccumulator::new(counter(db)), mmr_size }
    }

    fn new_with_sequence(db: &'a Db, mmr_size: u64, sequence: u64) -> Self {
        open_at(db, sequence);
        Accumulator {
            db,
            core: MMRAccumulator::new_with_sequence(counter(db), sequence),
            mmr_size,
        }
    }

    fn records(&self, elements: &[OutPoint]) -> Vec<Option<Vec<u8>>> {
        elements
            .iter()
            .map(|out_point| {
                let record = read(self.db, self.core.store(), &element_key_bytes(out_point));
                if let Some(r) = &record {
                    assert_eq!(r.len(), 24, "checked length");
                }
                record
            })
            .collect()
    }

    fn root(&self) -> Result<H256, AccumulatorError> {
        tree(self.db, *self.core.store(), self.mmr_size).get_root().map_err(internal)
    }
}

impl<'a> AccumulatorWriter for Accumulator<'a> {
    type Item = OutPoint;
    type Commitment = AccumulatorCommitment;
    type Proof = AccumulatorProof;

    fn add(&mut self, elements: Vec<OutPoint>) -> Result<(), AccumulatorError> {
        let leaves = self.core.add(&elements);
        let mut mmr = tree(self.db, *self.core.store(), self.mmr_size);
        let mut positions = Vec::with_capacity(leaves.len());
        for leaf in leaves {
            positions.push(mmr.push(leaf).map_err(internal)?);
        }
        mmr.commit().map_err(internal)?;
        self.mmr_size = mmr.mmr_size();
        for entry in self.core.index(&elements, &positions) {
            write(self.db, entry);
        }
        Ok(())
    }

    fn delete(&mut self, elements: Vec<OutPoint>) -> Result<(), AccumulatorError> {
        let records = self.records(&elements);
        for update in self.core.delete(&elements, &records)? {
            replace_leaf(self.db, *self.core.store(), self.mmr_size, update.pos, &update.hash);
            write(self.db, self.core.store().put(&update.key, update.record()));
        }
        Ok(())
    }

    fn commit(&mut self) -> Result<AccumulatorCommitment, AccumulatorError> {
        let root = self.root()?;
        assert!(self.core.store().sequence() < u64::MAX);
        let (commitment, entry) = self.core.commit(root);
        write(self.db, entry);
        Ok(commitment)
    }
}

impl<'a> AccumulatorReader for Accumulator<'a> {
    type Item = OutPoint;
    type Commitment = AccumulatorCommitment;
    type Proof = AccumulatorProof;

    fn prove(
        &self,
        commitment: AccumulatorCommitment,
        elements: Vec<OutPoint>,
    ) -> Result<AccumulatorProof, AccumulatorError> {
        let root = self.root()?;
        commitment.check(&root)?;
        let records = self.records(&elements);
        let pos_list = self.core.prove(&commitment, &root, &elements, &records)?;
        let proof = tree(self.db, *self.core.store(), self.mmr_size)
            .gen_proof(pos_list.clone())
            .map_err(internal)?;
        Ok(AccumulatorProof::new(proof.mmr_size(), proof.proof_items().to_vec(), pos_list))
    }
}

pub struct Word(String);

#[derive(Clone, PartialEq, Eq, Debug)]
pub struct WordHash([u8; 32]);

impl From<Word> for WordHash {
    fn from(word: Word) -> Self {
        WordHash(hash_bytes(word.0.as_bytes()).0)
    }
}

fn word_hash(word: &str) -> H256 {
    H256(WordHash::from(Word(word.to_string())).0)
}

fn out_point(byte: u8) -> OutPoint {
    OutPoint { tx_hash: [byte; 32], index: 0 }
}

fn end_block(db: &Db, store: &mut DefaultStore) {
    assert!(store.sequence() < u64::MAX);
    let entry = store.commit();
    write(db, entry);
}

#[test]
fn test_historical_queries() {
    let hashes: Vec<H256> = "The quick brown fox jumps over the lazy dog"
        .split_whitespace()
        .map(word_hash)
        .collect();

    let db = Db::default();
    let mut store = DefaultStore::new(counter(&db));
    let mut size = 0;

    let mut mmr = tree(&db, store, size);
    let pos0 = mmr.push(hashes[0].clone()).unwrap();
    let pos1 = mmr.push(hashes[1].clone()).unwrap();
    let _pos2 = mmr.push(hashes[2].clone()).unwrap();
    mmr.commit().unwrap();
    size = mmr.mmr_size();
    end_block(&db, &mut store);
    let root1 = tree(&db, store, size).get_root().unwrap();

    let mut mmr = tree(&db, store, size);
    let pos3 = mmr.push(hashes[3].clone()).unwrap();
    let pos4 = mmr.push(hashes[4].clone()).unwrap();
    let _pos5 = mmr.push(hashes[5].clone()).unwrap();
    mmr.commit().unwrap();
    size = mmr.mmr_size();
    end_block(&db, &mut store);
    let root2 = tree(&db, store, size).get_root().unwrap();

    // update key 1
    replace_leaf(&db, store, size, pos1, &word_hash(""));
    // update key 4
    replace_leaf(&db, store, size, pos4, &word_hash("JUMPS"));
    let mut mmr = tree(&db, store, size);
    let _pos6 = mmr.push(hashes[6].clone()).unwrap();
    let _pos7 = mmr.push(hashes[7].clone()).unwrap();
    mmr.commit().unwrap();
    size = mmr.mmr_size();
    end_block(&db, &mut store);
    let root3 = tree(&db, store, size).get_root().unwrap();

    let mut mmr = tree(&db, store, size);
    let _pos8 = mmr.push(hashes[8].clone()).unwrap();
    mmr.commit().unwrap();
    size = mmr.mmr_size();
    end_block(&db, &mut store);
    let root4 = tree(&db, store, size).get_root().unwrap();

    let mmr = tree(&db, open_at(&db, 0), leaf_index_to_mmr_size(2));
    let root = mmr.get_root().unwrap();
    assert_eq!(root1, root);
    let proof = mmr.gen_proof(vec![pos0]).unwrap();
    assert!(proof.verify(root, vec![(pos0, hashes[0].clone())]).unwrap());

    let mmr = tree(&db, open_at(&db, 1), leaf_index_to_mmr_size(5));
    let root = mmr.get_root().unwrap();
    assert_eq!(root2, root);
    let proof = mmr.gen_proof(vec![pos0, pos3]).unwrap();
    assert!(proof
        .verify(root, vec![(pos0, hashes[0].clone()), (pos3, hashes[3].clone())])
        .unwrap());

    let mmr = tree(&db, open_at(&db, 2), leaf_index_to_mmr_size(7));
    let root = mmr.get_root().unwrap();
    assert_eq!(root3, root);
    let proof = mmr.gen_proof(vec![pos1, pos4]).unwrap();
    assert!(proof
        .verify(root, vec![(pos1, word_hash("")), (pos4, word_hash("JUMPS"))])
        .unwrap());

    let mmr = tree(&db, DefaultStore::new(counter(&db)), leaf_index_to_mmr_size(8));
    let root = mmr.get_root().unwrap();
    assert_eq!(root4, root);
}

#[test]
fn test_accumulator() {
    let db = Db::default();
    let mut accumulator = Accumulator::new(&db, 0);

    let out_point_1 = out_point(1);
    let out_point_2 = out_point(2);
    let out_point_3 = out_point(3);

    accumulator.add(vec![out_point_1.clone(), out_point_2.clone()]).unwrap();
    let commitment1 = accumulator.commit().unwrap();

    accumulator.add(vec![out_point_3.clone()]).unwrap();
    let commitment2 = accumulator.commit().unwrap();

    accumulator.delete(vec![out_point_2.clone()]).unwrap();
    let commitment3 = accumulator.commit().unwrap();

    let accumulator = Accumulator::new_with_sequence(&db, leaf_index_to_mmr_size(1), 0);
    let proof1 = accumulator.prove(commitment1.clone(), vec![out_point_1.clone()]).unwrap();
    assert!(proof1.verify(commitment1, vec![(out_point_1, CellStatus::new_live(0))]).unwrap());

    let accumulator = Accumulator::new_with_sequence(&db, leaf_index_to_mmr_size(2), 1);
    let proof2 = accumulator.prove(commitment2.clone(), vec![out_point_3.clone()]).unwrap();
    assert!(proof2.verify(commitment2, vec![(out_point_3, CellStatus::new_live(1))]).unwrap());

    let accumulator = Accumulator::new_with_sequence(&db, leaf_index_to_mmr_size(2), 2);
    let proof3 = accumulator.prove(commitment3.clone(), vec![out_point_2.clone()]).unwrap();
    assert!(proof3.verify(commitment3, vec![(out_point_2, CellStatus::new_dead(0, 2))]).unwrap());
}

#[test]
fn commitments_carry_root_and_sequence() {
    let db = Db::default();
    let mut accumulator = Accumulator::new(&db, 0);
    accumulator.add(vec![out_point(1)]).unwrap();
    let first = accumulator.commit().unwrap();
    accumulator.add(vec![out_point(2)]).unwrap();
    let second = accumulator.commit().unwrap();
    assert_eq!(first.sequence(), 0);
    assert_eq!(second.sequence(), 1);
    assert_ne!(first.root(), second.root());
    assert_eq!(first, AccumulatorCommitment::new(*first.root(), 0));
    assert_ne!(first, AccumulatorCommitment::new(*first.root(), 1));
    assert_eq!(point_get(&db, &[1u8]), Some(vec![0, 0, 0, 0, 0, 0, 0, 2]));
}

#[test]
fn proof_against_another_root_does_not_verify() {
    let db = Db::default();
    let mut accumulator = Accumulator::new(&db, 0);
    accumulator.add(vec![out_point(1), out_point(2)]).unwrap();
    let commitment1 = accumulator.commit().unwrap();
    accumulator.add(vec![out_point(3)]).unwrap();
    let commitment2 = accumulator.commit().unwrap();

    let view = Accumulator::new_with_sequence(&db, leaf_index_to_mmr_size(1), 0);
    let proof = view.prove(commitment1.clone(), vec![out_point(1)]).unwrap();
    assert!(!proof.verify(commitment2, vec![(out_point(1), CellStatus::new_live(0))]).unwrap());

    let proof = view.prove(commitment1.clone(), vec![out_point(1)]).unwrap();
    assert!(!proof
        .verify(commitment1.clone(), vec![(out_point(1), CellStatus::new_live(1))])
        .unwrap());

    let proof = view.prove(commitment1.clone(), vec![out_point(1)]).unwrap();
    assert!(!proof
        .verify(commitment1, vec![(out_point(2), CellStatus::new_live(0))])
        .unwrap());
}

#[test]
fn delete_of_unknown_element_names_its_index() {
    let db = Db::default();
    let mut accumulator = Accumulator::new(&db, 0);
    accumulator.add(vec![out_point(1), out_point(2)]).unwrap();
    accumulator.commit().unwrap();
    let before = db.borrow().clone();
    let result = accumulator.delete(vec![out_point(1), out_point(9), out_point(8)]);
    assert!(matches!(result, Err(AccumulatorError::ElementNotFound(1))));
    assert_eq!(*db.borrow(), before);
}

#[test]
fn proof_of_unknown_element_names_its_index() {
    let db = Db::default();
    let mut accumulator = Accumulator::new(&db, 0);
    accumulator.add(vec![out_point(1), out_point(2)]).unwrap();
    let commitment = accumulator.commit().unwrap();
    let result = accumulator.prove(commitment, vec![out_point(2), out_point(1), out_point(7)]);
    assert!(matches!(result, Err(AccumulatorError::ElementNotFound(2))));
}

#[test]
fn proof_with_stale_commitment_is_refused() {
    let db = Db::default();
    let mut accumulator = Accumulator::new(&db, 0);
    accumulator.add(vec![out_point(1)]).unwrap();
    let stale = accumulator.commit().unwrap();
    accumulator.add(vec![out_point(2)]).unwrap();
    accumulator.commit().unwrap();
    let result = accumulator.prove(stale, vec![out_point(1)]);
    assert!(matches!(result, Err(AccumulatorError::InvalidCommitment)));
    let result = accumulator.prove(
        AccumulatorCommitment::new(H256([9u8; 32]), 1),
        vec![out_point(77)],
    );
    assert!(matches!(result, Err(AccumulatorError::InvalidCommitment)));
}

#[test]
fn verify_with_another_number_of_elements_is_invalid() {
    let commitment = AccumulatorCommitment::new(H256([0u8; 32]), 0);
    let proof = AccumulatorProof::new(1, vec![], vec![0]);
    let result = proof.verify(commitment, vec![]);
    assert!(matches!(result, Err(AccumulatorError::InvalidProof)));
    let proof = AccumulatorProof::new(1, vec![], vec![0]);
    let result = proof.leaves(&vec![]);
    assert!(matches!(result, Err(AccumulatorError::InvalidProof)));
    let proof = AccumulatorProof::new(MAX_MMR_SIZE + 1, vec![], vec![0]);
    let result = proof.verify(commitment, vec![(out_point(1), CellStatus::new_live(0))]);
    assert!(matches!(result, Err(AccumulatorError::InvalidProof)));
    let proof = AccumulatorProof::new(3, vec![], vec![0, 1]);
    let leaves = proof
        .leaves(&vec![
            (out_point(1), CellStatus::new_live(0)),
            (out_point(2), CellStatus::new_dead(0, 4)),
        ])
        .unwrap();
    assert_eq!(leaves.len(), 2);
    assert_eq!(leaves[0], (0, leaf_hash(&out_point(1), &CellStatus::new_live(0))));
    assert_eq!(leaves[1], (1, leaf_hash(&out_point(2), &CellStatus::new_dead(0, 4))));
}

#[test]
fn leaf_hash_is_the_digest_of_identity_and_status() {
    let status = CellStatus::new_dead(3, 5);
    let element = OutPoint { tx_hash: [7u8; 32], index: 2 };
    let mut bytes = vec![7u8; 32];
    bytes.extend_from_slice(&[2, 0, 0, 0]);
    bytes.extend_from_slice(&status.block_numbers);
    assert_eq!(leaf_hash(&element, &status), hash_bytes(&bytes));
}

#[test]
fn add_gives_one_live_leaf_per_element() {
    let db = Db::default();
    let mut store = DefaultStore::new(None);
    end_block(&db, &mut store);
    end_block(&db, &mut store);
    let core = MMRAccumulator::new(counter(&db));
    let elements = vec![out_point(4), out_point(5)];
    let leaves = core.add(&elements);
    assert_eq!(
        leaves,
        vec![
            leaf_hash(&out_point(4), &CellStatus::new_live(2)),
            leaf_hash(&out_point(5), &CellStatus::new_live(2)),
        ]
    );
    let entries = core.index(&elements, &vec![10, 11]);
    let mut key = vec![2u8];
    key.extend_from_slice(&out_point(5).hash());
    key.extend_from_slice(&[0, 0, 0, 0]);
    key.extend_from_slice(&[0, 0, 0, 0, 0, 0, 0, 2]);
    let mut value = vec![11u8, 0, 0, 0, 0, 0, 0, 0];
    value.extend_from_slice(&CellStatus::new_live(2).block_numbers);
    assert_eq!(entries[1], (key, value));
}

#[test]
fn delete_keeps_position_and_created_block() {
    let core = MMRAccumulator::new(Some(vec![0, 0, 0, 0, 0, 0, 0, 6]));
    let mut record = vec![42u8, 1, 0, 0, 0, 0, 0, 0];
    record.extend_from_slice(&CellStatus::new_live(3).block_numbers);
    let updates = core.delete(&vec![out_point(1)], &vec![Some(record)]).unwrap();
    assert_eq!(updates.len(), 1);
    assert_eq!(updates[0].pos, 42 + 256);
    assert_eq!(updates[0].cell_status, CellStatus::new_dead(3, 6));
    assert_eq!(updates[0].key, element_key_bytes(&out_point(1)));
    assert_eq!(updates[0].hash, leaf_hash(&out_point(1), &CellStatus::new_dead(3, 6)));
    let mut expected = vec![42u8, 1, 0, 0, 0, 0, 0, 0];
    expected.extend_from_slice(&CellStatus::new_dead(3, 6).block_numbers);
    assert_eq!(updates[0].record(), expected);
}

#[test]
fn word_hash_is_the_digest_of_the_word() {
    let mut expected = [0u8; 32];
    let mut hasher = blake2b_rs::Blake2bBuilder::new(32).build();
    hasher.update(b"JUMPS");
    hasher.finalize(&mut expected);
    assert_eq!(WordHash::from(Word("JUMPS".to_string())), WordHash(expected));
    assert_ne!(word_hash("JUMPS"), word_hash("jumps"));
}

#[test]
fn a_record_is_found_again_after_later_blocks() {
    let db = Db::default();
    let mut accumulator = Accumulator::new(&db, 0);
    accumulator.add(vec![out_point(1)]).unwrap();
    accumulator.commit().unwrap();
    accumulator.add(vec![out_point(2)]).unwrap();
    accumulator.commit().unwrap();
    accumulator.delete(vec![out_point(1)]).unwrap();
    accumulator.commit().unwrap();

    let key = element_key_bytes(&out_point(1));
    let mut live = vec![0u8; 8];
    live.extend_from_slice(&CellStatus::new_live(0).block_numbers);
    let mut dead = vec![0u8; 8];
    dead.extend_from_slice(&CellStatus::new_dead(0, 2).block_numbers);
    assert_eq!(read(&db, &open_at(&db, 0), &key), Some(live.clone()));
    assert_eq!(read(&db, &open_at(&db, 1), &key), Some(live));
    assert_eq!(read(&db, &open_at(&db, 2), &key), Some(dead.clone()));
    assert_eq!(read(&db, &open_at(&db, 3), &key), Some(dead));
    assert_eq!(read(&db, &open_at(&db, 0), &element_key_bytes(&out_point(2))), None);
}

#[test]
fn second_delete_in_the_append_only_accumulator_is_refused() {
    let db = Db::default();
    let mut accumulator = Accumulator::new(&db, 0);
    accumulator.add(vec![out_point(1), out_point(2)]).unwrap();
    accumulator.commit().unwrap();
    accumulator.delete(vec![out_point(1)]).unwrap();
    let deleted = accumulator.commit().unwrap();

    let before = db.borrow().clone();
    let result = accumulator.delete(vec![out_point(1)]);
    assert!(matches!(result, Err(AccumulatorError::ElementNotFound(0))));
    let result = accumulator.delete(vec![out_point(2), out_point(1)]);
    assert!(matches!(result, Err(AccumulatorError::ElementNotFound(1))));
    assert_eq!(*db.borrow(), before);
    assert_eq!(&accumulator.root().unwrap(), deleted.root());

    let key = element_key_bytes(&out_point(1));
    let mut record = vec![0u8; 8];
    record.extend_from_slice(&CellStatus::new_dead(0, 1).block_numbers);
    assert_eq!(read(&db, accumulator.core.store(), &key), Some(record));
    assert!(accumulator.delete(vec![out_point(2)]).is_ok());
}

#[test]
fn nothing_is_deleted_in_the_largest_block() {
    let core = MMRAccumulator::new(Some(vec![0xff; 8]));
    let mut live = vec![1u8, 0, 0, 0, 0, 0, 0, 0];
    live.extend_from_slice(&CellStatus::new_live(3).block_numbers);
    let result = core.delete(&vec![out_point(1)], &vec![Some(live.clone())]);
    assert!(matches!(result, Err(AccumulatorError::ElementNotFound(0))));
    let core = MMRAccumulator::new(Some(vec![0xff, 0xff, 0xff, 0xff, 0xff, 0xff, 0xff, 0xfe]));
    let updates = core.delete(&vec![out_point(1)], &vec![Some(live)]).unwrap();
    assert!(!updates[0].cell_status.is_live());
}

#[test]
fn delete_refuses_a_record_that_is_consumed_already() {
    let core = MMRAccumulator::new(Some(vec![0, 0, 0, 0, 0, 0, 0, 6]));
    let mut live = vec![1u8, 0, 0, 0, 0, 0, 0, 0];
    live.extend_from_slice(&CellStatus::new_live(3).block_numbers);
    let mut dead = vec![0u8, 0, 0, 0, 0, 0, 0, 0];
    dead.extend_from_slice(&CellStatus::new_dead(3, 4).block_numbers);
    let result = core.delete(&vec![out_point(1), out_point(2)], &vec![Some(live), Some(dead)]);
    assert!(matches!(result, Err(AccumulatorError::ElementNotFound(1))));
}

#[test]
fn replacing_a_leaf_rewrites_the_way_to_its_peak() {
    // Seven nodes: leaves 0 1 3 4, parents 2 5, peak 6.
    let path = update_path(3, 7);
    assert_eq!(path.len(), 2);
    assert_eq!((path[0].sibling, path[0].parent, path[0].sibling_is_left), (4, 5, false));
    assert_eq!((path[1].sibling, path[1].parent, path[1].sibling_is_left), (2, 6, true));
    assert!(update_path(7, 8).is_empty());
    assert!(update_path(0, 1).is_empty());

    let leaf = H256([1u8; 32]);
    let siblings = vec![H256([2u8; 32]), H256([3u8; 32])];
    let nodes = rehash(3, &leaf, &path, &siblings);
    let parent = merge(&leaf, &siblings[0]);
    let peak = merge(&siblings[1], &parent);
    assert_eq!(nodes, vec![(3, leaf), (5, parent), (6, peak)]);
}

#[test]
fn a_lone_leaf_is_its_own_root() {
    let leaf = leaf_hash(&out_point(1), &CellStatus::new_live(0));
    let commitment = AccumulatorCommitment::new(leaf, 0);
    let proof = AccumulatorProof::new(1, vec![], vec![0]);
    assert!(proof.verify(commitment, vec![(out_point(1), CellStatus::new_live(0))]).unwrap());
    let proof = AccumulatorProof::new(1, vec![], vec![0]);
    assert!(!proof.verify(commitment, vec![(out_point(1), CellStatus::new_live(1))]).unwrap());
}

#[test]
fn two_leaves_merge_into_their_peak() {
    let left = H256([1u8; 32]);
    let right = H256([2u8; 32]);
    let peak = merge(&left, &right);
    assert_eq!(verify_items(3, &vec![right], &peak, vec![(0, left)]).unwrap(), true);
    assert_eq!(verify_items(3, &vec![left], &peak, vec![(1, right)]).unwrap(), true);
    assert_eq!(verify_items(3, &vec![], &peak, vec![(0, left), (1, right)]).unwrap(), true);
    assert_eq!(verify_items(3, &vec![left], &peak, vec![(0, right)]).unwrap(), false);
    assert_eq!(<MergeH256 as Merge>::merge(&left, &right).unwrap(), peak);
}

#[test]
fn a_proof_that_does_not_fit_is_an_internal_error() {
    let leaf = H256([1u8; 32]);
    let result = verify_items(3, &vec![], &leaf, vec![(0, leaf)]);
    assert!(matches!(
        result,
        Err(AccumulatorError::InternalError(text)) if text == "Corrupted proof"
    ));
    let result = verify_items(3, &vec![leaf], &leaf, vec![(2, leaf)]);
    assert!(matches!(
        result,
        Err(AccumulatorError::InternalError(text))
            if text == "Tried to verify membership of a non-leaf"
    ));
}

#[test]
fn merge_is_the_digest_of_left_then_right() {
    let left = H256([1u8; 32]);
    let right = H256([2u8; 32]);
    let mut bytes = vec![1u8; 32];
    bytes.extend_from_slice(&[2u8; 32]);
    assert_eq!(merge(&left, &right), hash_bytes(&bytes));
    assert_ne!(merge(&left, &right), merge(&right, &left));
}
