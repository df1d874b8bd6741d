use rsnano_node::numbers::Hash256;
use rsnano_node::vote::{Vote, FINAL_TIMESTAMP};
use rsnano_node::vote_cache::{CacheEntry, TopEntry, VoteCache, VoteCacheConfig, VoteCode};
use std::sync::Arc;

fn rep(n: u128) -> Hash256 {
    Hash256::new(0xabcd, n)
}

fn create_vote(rep: Hash256, hash: &Hash256, timestamp_offset: u64) -> Arc<Vote> {
    Arc::new(Vote::new(rep, timestamp_offset * 1024 * 1024, vec![*hash]))
}

fn create_final_vote(rep: Hash256, hash: &Hash256) -> Arc<Vote> {
    Arc::new(Vote::new_final(rep, vec![*hash]))
}

fn test_config() -> VoteCacheConfig {
    VoteCacheConfig { max_size: 3, max_voters: 80, age_cutoff_ms: 5 * 60 * 1000 }
}

fn create_vote_cache() -> VoteCache {
    VoteCache::new(test_config())
}

fn no_results() -> Vec<(Hash256, VoteCode)> {
    Vec::new()
}

#[test]
fn construction() {
    let cache = create_vote_cache();
    assert_eq!(cache.size(), 0);
    assert!(cache.empty());
    let hash = Hash256::new(0x1234, 0x5678);
    assert!(cache.find(&hash).is_empty());
}

#[test]
fn insert_one_hash() {
    let mut cache = create_vote_cache();
    let hash = Hash256::from_u128(1);
    let vote = create_vote(rep(1), &hash, 1);

    cache.insert(&vote, 7, &no_results());

    assert_eq!(cache.size(), 1);
    let peek = cache.find(&hash);
    assert_eq!(peek.len(), 1);
    assert!(Arc::ptr_eq(peek.first().unwrap(), &vote));
}

#[test]
fn insert_one_hash_many_votes() {
    let mut cache = create_vote_cache();
    let hash = Hash256::new(77, 88);
    let vote1 = create_vote(rep(1), &hash, 1);
    let vote2 = create_vote(rep(2), &hash, 2);
    let vote3 = create_vote(rep(3), &hash, 3);

    cache.insert(&vote1, 7, &no_results());
    cache.insert(&vote2, 9, &no_results());
    cache.insert(&vote3, 11, &no_results());
    assert_eq!(cache.size(), 1);
    let votes = cache.find(&hash);
    assert_eq!(votes.len(), 3);
}

#[test]
fn insert_many_hashes_many_votes() {
    let mut cache = create_vote_cache();
    let hash1 = Hash256::from_u128(1);
    let hash2 = Hash256::from_u128(2);
    let hash3 = Hash256::from_u128(3);

    let vote1 = create_vote(rep(1), &hash1, 1);
    let vote2 = create_vote(rep(2), &hash2, 1);
    let vote3 = create_vote(rep(3), &hash3, 1);
    let vote4 = create_vote(rep(4), &hash1, 1);

    cache.insert(&vote1, 7, &no_results());
    cache.insert(&vote2, 9, &no_results());
    cache.insert(&vote3, 11, &no_results());

    assert_eq!(cache.size(), 3);
    assert_eq!(cache.find(&hash1).len(), 1);
    assert_eq!(cache.find(&hash2).len(), 1);
    assert_eq!(cache.find(&hash3).len(), 1);

    cache.insert(&vote4, 13, &no_results());

    let pop1 = cache.find(&hash1);
    assert_eq!(pop1.len(), 2);

    let pop2 = cache.find(&hash3);
    assert_eq!(pop2.len(), 1);
}

#[test]
fn insert_duplicate() {
    let mut cache = create_vote_cache();
    let hash = Hash256::from_u128(1);
    let vote1 = create_vote(rep(1), &hash, 1);
    let vote2 = create_vote(rep(1), &hash, 1);

    cache.insert(&vote1, 9, &no_results());
    cache.insert(&vote2, 9, &no_results());

    assert_eq!(cache.size(), 1)
}

#[test]
fn insert_newer() {
    let mut cache = create_vote_cache();
    let hash = Hash256::from_u128(1);
    let vote1 = create_vote(rep(1), &hash, 1);
    cache.insert(&vote1, 9, &no_results());

    let vote2 = Arc::new(Vote::new(rep(1), FINAL_TIMESTAMP, vec![hash]));
    cache.insert(&vote2, 9, &no_results());

    let peek2 = cache.find(&hash);
    assert_eq!(peek2.len(), 1);
    assert_eq!(peek2.first().unwrap().timestamp(), FINAL_TIMESTAMP);
}

#[test]
fn insert_older() {
    let mut cache = create_vote_cache();
    let hash = Hash256::from_u128(1);
    let vote1 = create_vote(rep(1), &hash, 2);
    cache.insert(&vote1, 9, &no_results());
    let peek1 = cache.find(&hash);

    let vote2 = create_vote(rep(1), &hash, 1);
    cache.insert(&vote2, 9, &no_results());
    let peek2 = cache.find(&hash);

    assert_eq!(cache.size(), 1);
    assert_eq!(peek2.len(), 1);
    assert_eq!(peek2.first().unwrap().timestamp(), peek1.first().unwrap().timestamp());
}

#[test]
fn erase() {
    let mut cache = create_vote_cache();
    let hash1 = Hash256::from_u128(1);
    let hash2 = Hash256::from_u128(2);
    let hash3 = Hash256::from_u128(3);

    let vote1 = create_vote(rep(1), &hash1, 1);
    let vote2 = create_vote(rep(2), &hash2, 1);
    let vote3 = create_vote(rep(3), &hash3, 1);

    cache.insert(&vote1, 7, &no_results());
    cache.insert(&vote2, 9, &no_results());
    cache.insert(&vote3, 11, &no_results());

    assert_eq!(cache.size(), 3);
    assert_eq!(cache.find(&hash1).len(), 1);
    assert_eq!(cache.find(&hash2).len(), 1);
    assert_eq!(cache.find(&hash3).len(), 1);

    cache.erase(&hash2);

    assert_eq!(cache.size(), 2);
    assert_eq!(cache.find(&hash1).len(), 1);
    assert_eq!(cache.find(&hash2).len(), 0);
    assert_eq!(cache.find(&hash3).len(), 1);
    cache.erase(&hash1);
    cache.erase(&hash3);

    assert!(cache.empty());
}

#[test]
fn overfill() {
    let mut cache = create_vote_cache();
    let hash1 = Hash256::from_u128(1);
    let hash2 = Hash256::from_u128(2);
    let hash3 = Hash256::from_u128(3);
    let hash4 = Hash256::from_u128(4);

    let vote1 = create_vote(rep(1), &hash1, 1);
    cache.insert(&vote1, 1, &no_results());
    let vote2 = create_vote(rep(2), &hash2, 1);
    cache.insert(&vote2, 2, &no_results());
    let vote3 = create_vote(rep(3), &hash3, 1);
    cache.insert(&vote3, 3, &no_results());
    let vote4 = create_vote(rep(4), &hash4, 1);
    cache.insert(&vote4, 4, &no_results());

    assert_eq!(cache.size(), 3);

    assert_eq!(cache.find(&hash4).len(), 1);
    assert_eq!(cache.find(&hash3).len(), 1);
    assert_eq!(cache.find(&hash2).len(), 1);
    assert_eq!(cache.find(&hash1).len(), 0);
}

#[test]
fn overfill_entry() {
    let mut cache = create_vote_cache();
    let hash = Hash256::from_u128(1);

    let vote1 = create_vote(rep(1), &hash, 1);
    cache.insert(&vote1, 9, &no_results());
    let vote2 = create_vote(rep(2), &hash, 1);
    cache.insert(&vote2, 9, &no_results());
    let vote3 = create_vote(rep(3), &hash, 1);
    cache.insert(&vote3, 9, &no_results());

    assert_eq!(cache.size(), 1);
}

#[test]
fn change_vote_to_final_vote() {
    let mut cache = create_vote_cache();
    let hash = Hash256::from_u128(1);
    let vote = create_vote(rep(1), &hash, 1);
    let final_vote = create_final_vote(rep(1), &hash);
    cache.insert(&vote, 9, &no_results());
    cache.insert(&final_vote, 9, &no_results());

    let votes = cache.find(&hash);
    let vote = votes.first().unwrap();
    assert!(vote.is_final());
}

#[test]
fn add_final_vote() {
    let mut cache = create_vote_cache();
    let hash = Hash256::from_u128(1);
    let vote = create_final_vote(rep(1), &hash);
    cache.insert(&vote, 9, &no_results());

    let votes = cache.find(&hash);
    let vote = votes.first().unwrap();
    assert!(vote.is_final());
}

#[test]
fn top_empty() {
    let mut cache = create_vote_cache();
    assert_eq!(cache.top(0), Vec::new());
}

fn add_test_vote(cache: &mut VoteCache, hash: &Hash256, rep_weight: u128, r: u128) {
    let vote = create_vote(rep(r), hash, 0);
    cache.insert(&vote, rep_weight, &no_results());
}

fn add_test_final_vote(cache: &mut VoteCache, hash: &Hash256, rep_weight: u128, r: u128) {
    let vote = create_final_vote(rep(r), hash);
    cache.insert(&vote, rep_weight, &no_results());
}

#[test]
fn top_one_entry() {
    let mut cache = create_vote_cache();
    let hash = Hash256::from_u128(1);
    add_test_vote(&mut cache, &hash, 1, 1);

    assert_eq!(cache.top(0), vec![TopEntry { hash, tally: 1, final_tally: 0 }]);
}

#[test]
fn top_multiple_entries_sorted_by_tally() {
    let mut cache = create_vote_cache();
    let hash1 = Hash256::from_u128(1);
    let hash2 = Hash256::from_u128(2);
    let hash3 = Hash256::from_u128(3);
    add_test_vote(&mut cache, &hash1, 1, 1);
    add_test_vote(&mut cache, &hash2, 4, 2);
    add_test_vote(&mut cache, &hash3, 3, 3);
    add_test_final_vote(&mut cache, &hash2, 5, 4);
    add_test_final_vote(&mut cache, &hash3, 5, 5);

    let top = cache.top(0);

    assert_eq!(top.len(), 3);
    assert_eq!(top[0].hash, hash2);
    assert_eq!(top[1].hash, hash3);
    assert_eq!(top[2].hash, hash1);
}

#[test]
fn top_min_tally() {
    let mut cache = create_vote_cache();
    let hash1 = Hash256::from_u128(1);
    let hash2 = Hash256::from_u128(2);
    let hash3 = Hash256::from_u128(3);
    add_test_vote(&mut cache, &hash1, 1, 1);
    add_test_vote(&mut cache, &hash2, 2, 2);
    add_test_vote(&mut cache, &hash3, 3, 3);

    let top = cache.top(2);
    assert_eq!(top.len(), 2);
    assert_eq!(top[0].hash, hash3);
    assert_eq!(top[1].hash, hash2);
}

#[test]
fn top_age_cutoff() {
    let mut cache = VoteCache::new_at(test_config(), 0);
    let hash = Hash256::from_u128(1);
    let vote = create_vote(rep(1), &hash, 0);
    cache.insert_at(&vote, 1, &no_results(), 0);
    assert_eq!(cache.cleanup_count(), 0);
    assert_eq!(cache.top_at(0, 150_000).len(), 1);
    assert_eq!(cache.cleanup_count(), 1);
    assert_eq!(cache.top_at(0, 300_000).len(), 0);
    assert_eq!(cache.cleanup_count(), 2);
}

#[test]
fn results_select_hashes_to_cache() {
    let mut cache = create_vote_cache();
    let hash1 = Hash256::from_u128(1);
    let hash2 = Hash256::from_u128(2);
    let hash3 = Hash256::from_u128(3);
    let vote = Arc::new(Vote::new(rep(1), 5, vec![hash1, hash2, hash3]));
    let results = vec![(hash1, VoteCode::Vote), (hash2, VoteCode::Replay), (hash3, VoteCode::Indeterminate)];
    cache.insert(&vote, 10, &results);
    assert_eq!(cache.size(), 2);
    assert_eq!(cache.find(&hash1).len(), 1);
    assert_eq!(cache.find(&hash2).len(), 0);
    assert_eq!(cache.find(&hash3).len(), 1);
}

#[test]
fn ties_rank_by_who_reached_the_tally_first() {
    let mut cache = create_vote_cache();
    let hash1 = Hash256::from_u128(1);
    let hash2 = Hash256::from_u128(2);
    add_test_vote(&mut cache, &hash1, 5, 1);
    add_test_vote(&mut cache, &hash2, 5, 2);
    let top = cache.top(0);
    assert_eq!(top[0].hash, hash1);
    assert_eq!(top[1].hash, hash2);
}

#[test]
fn tally_wraps_around() {
    let mut entry = CacheEntry::new(0, Hash256::from_u128(1), 0, 0);
    let hash = Hash256::from_u128(1);
    assert!(entry.vote(&create_vote(rep(1), &hash, 1), u128::MAX, 10, 0, 0));
    assert!(entry.vote(&create_vote(rep(2), &hash, 1), 2, 10, 0, 1));
    assert_eq!(entry.tally(), 1);
    assert_eq!(entry.final_tally(), 0);
    assert_eq!(entry.size(), 2);
}

#[test]
fn full_entry_drops_lowest_weight_voters() {
    let mut entry = CacheEntry::new(0, Hash256::from_u128(1), 0, 0);
    let hash = Hash256::from_u128(1);
    entry.vote(&create_vote(rep(1), &hash, 1), 5, 3, 0, 0);
    entry.vote(&create_vote(rep(2), &hash, 1), 7, 3, 0, 1);
    // the third voter fills the entry, so the lightest one goes
    entry.vote(&create_vote(rep(3), &hash, 1), 9, 3, 0, 2);
    assert_eq!(entry.size(), 2);
    assert_eq!(entry.tally(), 16);
    // there is room again, so a light voter is added, fills the entry and is dropped
    assert!(entry.vote(&create_vote(rep(4), &hash, 1), 1, 3, 0, 3));
    assert_eq!(entry.size(), 2);
    assert_eq!(entry.tally(), 16);
}

#[test]
fn top_orders_by_final_tally_before_tally() {
    let mut cache = create_vote_cache();
    let a = Hash256::from_u128(1);
    let b = Hash256::from_u128(2);
    add_test_vote(&mut cache, &a, 10, 1);
    add_test_final_vote(&mut cache, &b, 5, 2);
    let top = cache.top(0);
    assert_eq!(
        top,
        vec![
            TopEntry { hash: b, tally: 5, final_tally: 5 },
            TopEntry { hash: a, tally: 10, final_tally: 0 },
        ]
    );
}
