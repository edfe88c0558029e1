use blockifier::changes::CellKind;
use blockifier::felt::Felt;
use blockifier::resources::StateChangesCount;
use blockifier::state::{DictStateReader, LayerHandle, LayeredState, StateError};
use blockifier::state_map::{CellKey, StateMap};

fn felt(x: u128) -> Felt {
    Felt::from_u128(x)
}

fn cell(contract: u128, key: u128) -> CellKey {
    CellKey::Storage(felt(contract), felt(key))
}

fn state_with(cells: &[(CellKey, u128)]) -> LayeredState<DictStateReader> {
    let mut base = DictStateReader::new();
    for (key, value) in cells {
        base.set(*key, felt(*value));
    }
    LayeredState::new(base)
}

#[test]
fn unset_cells_read_as_zero() {
    let mut state = state_with(&[]);
    assert_eq!(state.get_storage_at(felt(1), felt(2)), felt(0));
    assert_eq!(state.get_nonce_at(felt(1)), felt(0));
    assert_eq!(state.get_class_hash_at(felt(1)), felt(0));
    assert_eq!(state.get_compiled_class_hash(felt(1)), felt(0));
    assert!(!state.is_declared(felt(1)));
}

#[test]
fn reads_fall_through_to_the_base_and_are_recorded_once() {
    let key = cell(1, 2);
    let mut state = state_with(&[(key, 7)]);
    let child = state.create_transactional();
    assert_eq!(child, LayerHandle { depth: 1 });
    assert_eq!(state.top_initial_read(&key), None);
    assert_eq!(state.get(key), felt(7));
    assert_eq!(state.top_initial_read(&key), Some(felt(7)));
    // A write does not touch the first read, and a later read does not replace it.
    state.set(key, felt(8));
    assert_eq!(state.get(key), felt(8));
    assert_eq!(state.top_initial_read(&key), Some(felt(7)));
    assert_eq!(state.top_write(&key), Some(felt(8)));
}

#[test]
fn writes_go_to_the_top_layer_only() {
    let key = cell(1, 2);
    let mut state = state_with(&[(key, 7)]);
    state.set(key, felt(10));
    let child = state.create_transactional();
    state.set(key, felt(11));
    assert_eq!(state.get(key), felt(11));
    state.discard(child).unwrap();
    assert_eq!(state.depth(), 1);
    assert_eq!(state.get(key), felt(10));
    assert_eq!(state.top_write(&key), Some(felt(10)));
}

#[test]
fn commit_merges_writes_and_keeps_the_first_read_of_the_parent() {
    let read_by_both = cell(1, 1);
    let read_by_child = cell(1, 2);
    let written_by_parent = cell(1, 3);
    let mut state =
        state_with(&[(read_by_both, 5), (read_by_child, 6), (written_by_parent, 7)]);
    let parent = state.create_transactional();
    assert_eq!(state.get(read_by_both), felt(5));
    state.set(written_by_parent, felt(70));
    let child = state.create_transactional();
    assert_eq!(state.get(read_by_both), felt(5));
    assert_eq!(state.get(read_by_child), felt(6));
    // The child sees what the parent wrote, as its own first read.
    assert_eq!(state.get(written_by_parent), felt(70));
    state.set(read_by_both, felt(50));
    state.commit(child).unwrap();
    assert_eq!(state.top_handle(), parent);
    assert_eq!(state.top_initial_read(&read_by_both), Some(felt(5)));
    assert_eq!(state.top_initial_read(&read_by_child), Some(felt(6)));
    // What the parent wrote itself is no first read of the parent.
    assert_eq!(state.top_initial_read(&written_by_parent), None);
    assert_eq!(state.top_write(&read_by_both), Some(felt(50)));
    assert_eq!(state.top_write(&written_by_parent), Some(felt(70)));
    assert_eq!(state.get(read_by_both), felt(50));
}

#[test]
fn only_the_top_layer_above_the_bottom_can_be_closed() {
    let mut state = state_with(&[]);
    let bottom = state.top_handle();
    assert_eq!(state.commit(bottom), Err(StateError::NotTopLayer));
    assert_eq!(state.discard(bottom), Err(StateError::NotTopLayer));
    let first = state.create_transactional();
    let second = state.create_transactional();
    assert_eq!(state.commit(first), Err(StateError::NotTopLayer));
    assert_eq!(state.discard(first), Err(StateError::NotTopLayer));
    assert_eq!(state.depth(), 3);
    assert_eq!(state.commit(second), Ok(()));
    assert_eq!(state.discard(first), Ok(()));
    assert_eq!(state.depth(), 1);
}

#[test]
fn net_changes_leave_out_cells_that_end_as_they_began() {
    let unchanged = cell(1, 1);
    let changed = cell(1, 2);
    let write_only = cell(1, 3);
    let write_only_same = cell(1, 4);
    let mut state = state_with(&[(unchanged, 1), (changed, 2), (write_only, 3), (write_only_same, 4)]);
    let _layer = state.create_transactional();
    assert_eq!(state.get(unchanged), felt(1));
    state.set(unchanged, felt(9));
    state.set(unchanged, felt(1));
    assert_eq!(state.get(changed), felt(2));
    state.set(changed, felt(20));
    state.set(write_only, felt(30));
    state.set(write_only_same, felt(4));
    let changes = state.get_actual_state_changes();
    assert_eq!(changes.len(), 2);
    assert_eq!(changes.get(&unchanged), None);
    assert_eq!(changes.get(&changed), Some(felt(20)));
    assert_eq!(changes.get(&write_only), Some(felt(30)));
    assert_eq!(changes.get(&write_only_same), None);
    // The cells that were written without being read have their first value recorded.
    assert_eq!(state.top_initial_read(&write_only), Some(felt(3)));
    assert_eq!(state.top_initial_read(&write_only_same), Some(felt(4)));
}

#[test]
fn counts_for_the_fee() {
    let token = felt(0x70);
    let sender_key = felt(0x71);
    let mut map = StateMap::new();
    map.insert(CellKey::Storage(felt(1), felt(1)), felt(1));
    map.insert(CellKey::Storage(felt(1), felt(2)), felt(1));
    map.insert(CellKey::Storage(token, felt(0x99)), felt(1));
    map.insert(CellKey::Nonce(felt(2)), felt(1));
    map.insert(CellKey::ClassHash(felt(3)), felt(1));
    map.insert(CellKey::CompiledClassHash(felt(4)), felt(1));
    map.insert(CellKey::Declared(felt(4)), felt(1));
    assert_eq!(map.len(), 7);
    let changes = blockifier::changes::StateChanges::from_map(map);
    assert_eq!(changes.count_kind(CellKind::Storage), 3);
    assert_eq!(changes.count_kind(CellKind::Nonce), 1);
    assert_eq!(changes.count_kind(CellKind::Declared), 1);
    let mut contracts: Vec<u128> =
        changes.get_modified_contracts().into_iter().map(|a| a.low).collect();
    contracts.sort();
    assert_eq!(contracts, vec![1, 2, 3, 0x70]);
    // The sender's balance cell is not among the changes yet: it counts as one more update.
    assert_eq!(
        changes.count_for_fee_charge(Some(sender_key), token),
        Some(StateChangesCount {
            n_storage_updates: 4,
            n_class_hash_updates: 1,
            n_compiled_class_hash_updates: 1,
            n_modified_contracts: 3,
        })
    );
    // Without a sender nothing is added; the fee token contract is left out all the same.
    assert_eq!(
        changes.count_for_fee_charge(None, token),
        Some(StateChangesCount {
            n_storage_updates: 3,
            n_class_hash_updates: 1,
            n_compiled_class_hash_updates: 1,
            n_modified_contracts: 3,
        })
    );
    // A sender whose balance cell did change is not counted twice.
    assert_eq!(
        changes.count_for_fee_charge(Some(felt(0x99)), token).unwrap().n_storage_updates,
        3
    );
}

#[test]
fn state_map_insert_get_remove() {
    let mut map = StateMap::new();
    let key = CellKey::Nonce(felt(1));
    assert_eq!(map.get(&key), None);
    map.insert(key, felt(1));
    map.insert(key, felt(2));
    assert_eq!(map.len(), 1);
    assert_eq!(map.get(&key), Some(felt(2)));
    assert!(map.contains_key(&key));
    let copy = map.duplicate();
    map.remove(&key);
    assert_eq!(map.len(), 0);
    assert_eq!(map.get(&key), None);
    assert_eq!(copy.get(&key), Some(felt(2)));
    assert_eq!(copy.key_at(0), key);
    assert_eq!(copy.value_at(0), felt(2));
}

#[test]
fn a_nonce_is_raised_by_one_until_the_last_word() {
    let address = felt(5);
    let mut state = state_with(&[(CellKey::Nonce(address), 41)]);
    assert_eq!(state.increment_nonce(address), Ok(()));
    assert_eq!(state.get_nonce_at(address), felt(42));
    state.set(CellKey::Nonce(address), Felt { high: 0, low: u128::MAX });
    assert_eq!(state.increment_nonce(address), Ok(()));
    assert_eq!(state.get_nonce_at(address), Felt { high: 1, low: 0 });
    state.set(CellKey::Nonce(address), Felt { high: u128::MAX, low: u128::MAX });
    assert_eq!(state.increment_nonce(address), Err(StateError::NonceOverflow));
    assert_eq!(state.get_nonce_at(address), Felt { high: u128::MAX, low: u128::MAX });
}

#[test]
fn declared_classes_and_class_hashes() {
    let mut state = state_with(&[]);
    state.set_declared(felt(9));
    state.set_compiled_class_hash(felt(9), felt(90));
    state.set_class_hash_at(felt(1), felt(9));
    assert!(state.is_declared(felt(9)));
    assert!(!state.is_declared(felt(8)));
    assert_eq!(state.get_compiled_class_hash(felt(9)), felt(90));
    assert_eq!(state.get_class_hash_at(felt(1)), felt(9));
}
