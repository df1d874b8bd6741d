use rsnano_node::bootstrap_attempts::BootstrapAttempts;
use rsnano_node::numbers::{Hash256, QualifiedRoot};
use rsnano_node::ordered_tags::{AsyncTag, OrderedTags, QuerySource, QueryType};
use rsnano_node::recently_confirmed::RecentlyConfirmedCache;

fn root(n: u128) -> QualifiedRoot {
    QualifiedRoot::new(Hash256::from_u128(n), Hash256::from_u128(n + 1000))
}

#[test]
fn recently_confirmed_put_and_query() {
    let mut cache = RecentlyConfirmedCache::new(2);
    assert!(cache.put(root(1), Hash256::from_u128(11)));
    assert!(!cache.put(root(1), Hash256::from_u128(12)));
    assert!(!cache.put(root(2), Hash256::from_u128(11)));
    assert!(cache.root_exists(&root(1)));
    assert!(cache.hash_exists(&Hash256::from_u128(11)));
    assert_eq!(cache.len(), 1);
    assert_eq!(cache.back(), Some((root(1), Hash256::from_u128(11))));
}

#[test]
fn recently_confirmed_evicts_oldest() {
    let mut cache = RecentlyConfirmedCache::new(2);
    cache.put(root(1), Hash256::from_u128(11));
    cache.put(root(2), Hash256::from_u128(12));
    cache.put(root(3), Hash256::from_u128(13));
    assert_eq!(cache.len(), 2);
    assert!(!cache.root_exists(&root(1)));
    assert!(!cache.hash_exists(&Hash256::from_u128(11)));
    assert!(cache.root_exists(&root(3)));
}

#[test]
fn recently_confirmed_erase_and_clear() {
    let mut cache = RecentlyConfirmedCache::new(5);
    cache.put(root(1), Hash256::from_u128(11));
    cache.put(root(2), Hash256::from_u128(12));
    cache.erase(&Hash256::from_u128(11));
    assert!(!cache.root_exists(&root(1)));
    assert_eq!(cache.len(), 1);
    cache.erase(&Hash256::from_u128(99));
    assert_eq!(cache.len(), 1);
    cache.clear();
    assert_eq!(cache.len(), 0);
    assert_eq!(cache.back(), None);
}

fn tag(id: u64, account: u128, hash: u128, source: QuerySource) -> AsyncTag {
    AsyncTag {
        query_type: QueryType::BlocksByHash,
        source,
        start: Hash256::from_u128(hash),
        account: Hash256::from_u128(account),
        hash: Hash256::from_u128(hash),
        count: 0,
        id,
        timestamp: 0,
    }
}

#[test]
fn ordered_tags_keep_insertion_order() {
    let mut tags = OrderedTags::new();
    tags.insert(tag(5, 1, 10, QuerySource::Priority));
    tags.insert(tag(3, 1, 11, QuerySource::Database));
    tags.insert(tag(9, 2, 10, QuerySource::Priority));
    assert_eq!(tags.len(), 3);
    assert_eq!(tags.front().unwrap().id, 5);
    assert_eq!(tags.count_by_account(&Hash256::from_u128(1), QuerySource::Priority), 1);
    let ids: Vec<u64> = tags.iter_hash(&Hash256::from_u128(10)).iter().map(|t| t.id).collect();
    assert_eq!(ids, vec![5, 9]);
    assert_eq!(tags.pop_front().unwrap().id, 5);
    assert!(!tags.contains(5));
    assert_eq!(tags.remove(9).unwrap().account, Hash256::from_u128(2));
    assert_eq!(tags.len(), 1);
    assert!(tags.get(3).is_some());
    assert!(tags.remove(9).is_none());
}

#[test]
fn ordered_tags_reinsert_moves_to_back() {
    let mut tags = OrderedTags::new();
    tags.insert(tag(1, 1, 10, QuerySource::Priority));
    tags.insert(tag(2, 1, 10, QuerySource::Priority));
    assert!(tags.contains(1));
    assert!(tags.remove(1).is_some());
    tags.insert(tag(1, 3, 10, QuerySource::Blocking));
    assert_eq!(tags.len(), 2);
    assert_eq!(tags.front().unwrap().id, 2);
    assert_eq!(tags.get(1).unwrap().account, Hash256::from_u128(3));
    assert_eq!(tags.iter_account(&Hash256::from_u128(1)).len(), 1);
}

#[test]
fn bootstrap_attempts_track_ids() {
    let mut attempts: BootstrapAttempts<&str> = BootstrapAttempts::new();
    let id0 = attempts.get_incremental_id();
    let id1 = attempts.get_incremental_id();
    assert_eq!((id0, id1), (0, 1));
    attempts.add(id0, "lazy");
    attempts.add(id1, "legacy");
    assert_eq!(attempts.size(), 2);
    assert_eq!(attempts.find(1), Some(&"legacy"));
    attempts.remove(0);
    assert_eq!(attempts.find(0), None);
    assert_eq!(attempts.total_attempts(), 2);
    attempts.clear();
    assert_eq!(attempts.size(), 0);
    assert_eq!(attempts.total_attempts(), 2);
}
