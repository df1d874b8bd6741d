use rsnano_node::numbers::Hash256;
use rsnano_node::vote_cache_processor::TriggerQueue;

fn h(n: u128) -> Hash256 {
    Hash256::new(0, n)
}

#[test]
fn triggered_hashes_queue_up() {
    let mut q = TriggerQueue::new(10);
    assert!(!q.trigger(h(1)));
    assert!(!q.trigger(h(2)));
    assert_eq!(q.len(), 2);
}

#[test]
fn overfill_drops_the_oldest_hash() {
    let mut q = TriggerQueue::new(2);
    assert!(!q.trigger(h(1)));
    assert!(!q.trigger(h(2)));
    // Two wait, which is not more than the maximum: a third still fits.
    assert!(!q.trigger(h(3)));
    assert_eq!(q.len(), 3);
    // Now more than the maximum wait: the oldest leaves.
    assert!(q.trigger(h(4)));
    assert_eq!(q.len(), 3);
    assert_eq!(q.take_batch(), vec![h(2), h(3), h(4)]);
}

#[test]
fn batch_has_each_hash_once_in_first_order() {
    let mut q = TriggerQueue::new(100);
    for n in [5, 3, 5, 7, 3, 3, 9] {
        q.trigger(h(n));
    }
    assert_eq!(q.take_batch(), vec![h(5), h(3), h(7), h(9)]);
    assert_eq!(q.len(), 0);
    assert!(q.take_batch().is_empty());
}
