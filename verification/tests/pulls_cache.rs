use rsnano_node::numbers::Hash256;
use rsnano_node::pulls_cache::{PullInfo, PullsCache};

fn filled(byte: u8) -> Hash256 {
    let mut v: u128 = 0;
    for _ in 0..16 {
        v = (v << 8) | byte as u128;
    }
    Hash256::new(v, v)
}

fn test_pull(id: u8) -> PullInfo {
    PullInfo {
        account_or_head: filled(id),
        head: Hash256::zero(),
        head_original: Hash256::zero(),
        end: Hash256::zero(),
        count: 0,
        attempts: 0,
        processed: 1000,
        retry_limit: 0,
        bootstrap_id: 0,
    }
}

#[test]
fn pulls_cache_empty() {
    let cache = PullsCache::new();
    assert_eq!(cache.size(), 0);
}

#[test]
fn only_processed_above_500_is_cached() {
    let mut cache = PullsCache::new();

    cache.add(&PullInfo { processed: 499, ..test_pull(0) });
    assert_eq!(cache.size(), 0);

    cache.add(&PullInfo { processed: 500, ..test_pull(0) });
    assert_eq!(cache.size(), 0);

    let pull = PullInfo { processed: 501, ..test_pull(0) };
    cache.add(&pull);
    assert_eq!(cache.size(), 1);
    assert!(cache.contains(&pull))
}

#[test]
fn remove_unknown_pull() {
    let mut cache = PullsCache::new();
    cache.remove(&test_pull(0));
    assert_eq!(cache.size(), 0);
}

#[test]
fn remove() {
    let mut cache = PullsCache::new();
    cache.add(&test_pull(0));
    cache.add(&test_pull(1));
    cache.add(&test_pull(2));
    cache.remove(&test_pull(1));
    assert_eq!(cache.size(), 2);
    assert_eq!(cache.contains(&test_pull(1)), false);
}

#[test]
fn cache_size_is_limited() {
    let mut cache = PullsCache::with_max_cache_size(2);
    cache.add_at(&test_pull(0), 0);
    cache.add_at(&test_pull(1), 1);
    cache.add_at(&test_pull(2), 2);
    assert_eq!(cache.size(), 2);
    assert_eq!(cache.contains(&test_pull(0)), false);
}

#[test]
fn update_pull_info_from_cache() {
    let mut cache = PullsCache::with_max_cache_size(2);
    let head = filled(5);
    cache.add(&PullInfo { head, ..test_pull(0) });
    let mut pull = test_pull(0);
    cache.update_pull(&mut pull);
    assert_eq!(pull.head, head);
}

#[test]
fn update_already_cached_pull() {
    let mut cache = PullsCache::with_max_cache_size(2);
    cache.add(&test_pull(0));
    let new_head = filled(5);
    cache.add(&PullInfo { head: new_head, ..test_pull(0) });
    assert_eq!(cache.size(), 1);
    let mut pull = test_pull(0);
    cache.update_pull(&mut pull);
    assert_eq!(pull.head, new_head);
}

#[test]
fn uncached_pull_is_left_alone() {
    let cache = PullsCache::new();
    let mut pull = PullInfo { head: filled(9), ..test_pull(3) };
    let before = pull;
    cache.update_pull(&mut pull);
    assert_eq!(pull, before);
}

#[test]
fn overflow_evicts_the_latest_of_the_oldest_time() {
    let mut cache = PullsCache::with_max_cache_size(2);
    cache.add_at(&test_pull(0), 5);
    cache.add_at(&test_pull(1), 5);
    cache.add_at(&test_pull(2), 6);
    assert_eq!(cache.size(), 2);
    assert!(cache.contains(&test_pull(0)));
    assert!(!cache.contains(&test_pull(1)));
    assert!(cache.contains(&test_pull(2)));
}

#[test]
fn refreshed_pull_leaves_the_eviction_order() {
    let mut cache = PullsCache::with_max_cache_size(2);
    cache.add_at(&test_pull(0), 1);
    cache.add_at(&test_pull(1), 2);
    cache.add_at(&PullInfo { head: filled(7), ..test_pull(0) }, 3);
    cache.add_at(&test_pull(2), 4);
    assert_eq!(cache.size(), 2);
    assert!(cache.contains(&test_pull(0)));
    assert!(!cache.contains(&test_pull(1)));
    assert!(cache.contains(&test_pull(2)));
}
