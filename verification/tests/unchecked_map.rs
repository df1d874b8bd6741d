use rsnano_node::numbers::Hash256;
use rsnano_node::unchecked::{EntriesContainer, Entry, UncheckedInfo, UncheckedKey, UncheckedMap};

fn test_entry(hash: u128) -> Entry<u64> {
    Entry::new(UncheckedKey::new(Hash256::from_u128(hash), Hash256::zero()), 7)
}

#[test]
fn empty_container() {
    let container: EntriesContainer<u64> = EntriesContainer::new();
    assert_eq!(container.next_id(), 0);
    assert_eq!(container.len(), 0);
    assert_eq!(container.iter().len(), 0);
}

#[test]
fn insert_one_entry() {
    let mut container = EntriesContainer::new();

    let entry = test_entry(1);
    let key = entry.key;
    let new_insert = container.insert(entry);

    assert_eq!(container.next_id(), 1);
    assert_eq!(container.len(), 1);
    assert_eq!(container.get_by_id(0).unwrap().key, key);
    assert_eq!(container.iter().len(), 1);
    assert_eq!(container.id_of(&key).unwrap(), 0);
    assert_eq!(new_insert, true);
}

#[test]
fn insert_two_entries_with_same_key() {
    let mut container = EntriesContainer::new();

    let new_insert1 = container.insert(test_entry(1));
    let new_insert2 = container.insert(test_entry(1));

    assert_eq!(container.next_id(), 1);
    assert_eq!(container.len(), 1);
    assert_eq!(container.iter().len(), 1);
    assert_eq!(new_insert1, true);
    assert_eq!(new_insert2, false);
}

#[test]
fn insert_two_entries_with_different_key() {
    let mut container = EntriesContainer::new();

    let new_insert1 = container.insert(test_entry(1));
    let new_insert2 = container.insert(test_entry(2));

    assert_eq!(container.next_id(), 2);
    assert_eq!(container.len(), 2);
    assert_eq!(container.iter().len(), 2);
    assert_eq!(new_insert1, true);
    assert_eq!(new_insert2, true);
}

#[test]
fn pop_front() {
    let mut container = EntriesContainer::new();

    container.insert(test_entry(1));
    let entry = test_entry(2);
    let key = entry.key;
    container.insert(entry);

    container.pop_front();

    assert_eq!(container.next_id(), 2);
    assert_eq!(container.len(), 1);
    assert_eq!(container.get_by_id(1).is_some(), true);
    assert_eq!(container.iter().len(), 1);
    assert_eq!(container.id_of(&key).unwrap(), 1);
    assert_eq!(container.len(), 1);
}

#[test]
fn pop_front_twice() {
    let mut container = EntriesContainer::new();

    container.insert(test_entry(1));
    container.insert(test_entry(2));

    container.pop_front();
    container.pop_front();

    assert_eq!(container.len(), 0);
}

#[test]
fn remove_by_key() {
    let mut container = EntriesContainer::new();
    container.insert(test_entry(1));
    let entry = test_entry(2);
    let key = entry.key;
    container.insert(entry);

    container.remove(&key);

    assert_eq!(container.len(), 1);
    assert_eq!(container.iter().len(), 1);
    assert_eq!(container.get_by_id(0).is_some(), true);
    assert_eq!(container.exists_key(&key), false);
}

#[test]
fn clear_restarts_ids() {
    let mut container = EntriesContainer::new();
    container.insert(test_entry(1));
    container.insert(test_entry(2));
    container.clear();
    assert_eq!(container.len(), 0);
    assert_eq!(container.next_id(), 0);
}

fn info(hash: u128) -> UncheckedInfo {
    UncheckedInfo { block_hash: Hash256::from_u128(hash), modified: 0 }
}

#[test]
fn dependents_come_in_hash_order() {
    let mut map = UncheckedMap::new(10, false);
    let dep = Hash256::from_u128(100);
    map.put(dep, info(3));
    map.put(dep, info(1));
    map.put(Hash256::from_u128(200), info(2));
    map.put(dep, info(2));
    let got: Vec<u128> = map.get(&dep).iter().map(|i| i.block_hash.lo).collect();
    assert_eq!(got, vec![1, 2, 3]);
    assert_eq!(map.len(), 4);
}

#[test]
fn put_evicts_oldest_above_limit() {
    let mut map = UncheckedMap::new(2, false);
    let dep = Hash256::from_u128(100);
    assert!(map.put(dep, info(1)));
    assert!(map.put(dep, info(2)));
    assert!(!map.put(dep, info(2)));
    assert!(map.put(dep, info(3)));
    assert_eq!(map.len(), 2);
    assert!(!map.exists_key(&UncheckedKey::new(dep, Hash256::from_u128(1))));
}

#[test]
fn satisfied_dependency_releases_and_deletes() {
    let mut map = UncheckedMap::new(10, false);
    let dep = Hash256::from_u128(100);
    map.put(dep, info(1));
    map.put(Hash256::from_u128(5), info(9));
    map.trigger(&dep);
    assert_eq!(map.buffer_count(), 1);
    let released = map.process_queries();
    assert_eq!(map.buffer_count(), 0);
    assert_eq!(released.len(), 1);
    assert_eq!(released[0], vec![info(1)]);
    assert_eq!(map.len(), 1);
}

#[test]
fn disabled_delete_keeps_released_blocks() {
    let mut map = UncheckedMap::new(10, true);
    let dep = Hash256::from_u128(100);
    map.put(dep, info(1));
    let released = map.query_impl(&dep);
    assert_eq!(released, vec![info(1)]);
    assert_eq!(map.len(), 1);
}
