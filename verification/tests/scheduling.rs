use rsnano_node::numbers::Hash256;
use rsnano_node::processing_queue::SharedState;
use rsnano_node::election::ElectionBehavior;
use rsnano_node::scheduling::{
    activation_target, balance_priority, create_buckets, find_bucket, should_notify_hinted, successor_accounts,
    hinted_candidate, tally_threshold, HintedAction, HintedActivation, HintedLookup, ManualQueue, OrderedCooldowns,
};
use rsnano_node::vote_cache::TopEntry;

#[test]
fn buckets_cover_balances() {
    let buckets = create_buckets();
    assert_eq!(buckets.len(), 63);
    assert_eq!(buckets[0], 0);
    assert_eq!(buckets[1], 1u128 << 79);
    assert_eq!(buckets[2], 1u128 << 88);
    assert_eq!(buckets[3], (1u128 << 88) + ((1u128 << 92) - (1u128 << 88)) / 2);
    assert_eq!(buckets[62], 1u128 << 120);
    assert_eq!(find_bucket(&buckets, 0), 0);
    assert_eq!(find_bucket(&buckets, (1u128 << 79) - 1), 0);
    assert_eq!(find_bucket(&buckets, 1u128 << 79), 1);
    assert_eq!(find_bucket(&buckets, u128::MAX), 62);
}

#[test]
fn hinting_thresholds() {
    assert_eq!(tally_threshold(1000, 10), 100);
    assert_eq!(tally_threshold(199, 10), 10);
    assert!(should_notify_hinted(200, 1000, 20));
    assert!(!should_notify_hinted(199, 1000, 20));
}

#[test]
fn cooldowns_hold_back_hashes() {
    let mut cooldowns = OrderedCooldowns::new();
    let hash = Hash256::from_u128(1);
    assert!(!cooldowns.cooldown(hash, 1000, 5000));
    assert_eq!(cooldowns.get(&hash), Some(6000));
    assert!(cooldowns.cooldown(hash, 5999, 5000));
    assert!(!cooldowns.cooldown(hash, 6000, 5000));
    assert_eq!(cooldowns.get(&hash), Some(11_000));
    assert_eq!(cooldowns.len(), 1);
    cooldowns.remove(&hash);
    assert_eq!(cooldowns.len(), 0);
}

#[test]
fn batches_respect_the_maximum() {
    let mut state = SharedState::new(2);
    for i in 0..5 {
        assert!(state.add(i, 4) == (i < 4));
    }
    assert_eq!(state.len(), 4);
    let batch: Vec<i32> = state.next_batch().into_iter().collect();
    assert_eq!(batch, vec![0, 1]);
    let batch: Vec<i32> = state.next_batch().into_iter().collect();
    assert_eq!(batch, vec![2, 3]);
    assert_eq!(state.next_batch().len(), 0);
    state.add(7, 4);
    state.stop();
    assert_eq!(state.next_batch().len(), 0);
    assert_eq!(state.len(), 1);
}

#[test]
fn unlimited_batches_take_everything() {
    let mut state = SharedState::new(0);
    for i in 0..3 {
        state.add(i, 16);
    }
    let batch: Vec<i32> = state.next_batch().into_iter().collect();
    assert_eq!(batch, vec![0, 1, 2]);
}

#[test]
fn hinted_walk_starts_unblocked_dependents_first() {
    let top = Hash256::from_u128(1);
    let mut walk = HintedActivation::new(top, true);
    assert_eq!(walk.next(), Some(top));
    let deps = vec![Hash256::from_u128(2), Hash256::zero(), Hash256::from_u128(3), Hash256::from_u128(2)];
    let action = walk.handle(top, HintedLookup::Unconfirmed { dependents_confirmed: false, dependents: deps });
    assert_eq!(action, HintedAction::Skip);
    // last queued is examined first
    assert_eq!(walk.next(), Some(Hash256::from_u128(3)));
    assert_eq!(walk.handle(Hash256::from_u128(3), HintedLookup::Confirmed), HintedAction::EraseFromVoteCache(Hash256::from_u128(3)));
    assert_eq!(walk.next(), Some(Hash256::from_u128(2)));
    let action = walk.handle(
        Hash256::from_u128(2),
        HintedLookup::Unconfirmed { dependents_confirmed: true, dependents: vec![] },
    );
    assert_eq!(action, HintedAction::Insert(Hash256::from_u128(2)));
    assert_eq!(walk.next(), None);
}

#[test]
fn hinted_walk_with_quorum_inserts_right_away() {
    let top = Hash256::from_u128(1);
    let mut walk = HintedActivation::new(top, false);
    assert_eq!(walk.next(), Some(top));
    let action = walk.handle(
        top,
        HintedLookup::Unconfirmed { dependents_confirmed: false, dependents: vec![Hash256::from_u128(2)] },
    );
    assert_eq!(action, HintedAction::Insert(top));
    assert_eq!(walk.next(), None);
    let mut missing = HintedActivation::new(top, true);
    assert_eq!(missing.next(), Some(top));
    assert_eq!(missing.handle(top, HintedLookup::Missing), HintedAction::Skip);
}

#[test]
fn hinted_walk_stops_after_the_iteration_limit() {
    let mut walk = HintedActivation::new(Hash256::from_u128(1), true);
    let mut examined = 0;
    let mut next_id: u128 = 2;
    while let Some(hash) = walk.next() {
        examined += 1;
        let deps = vec![Hash256::from_u128(next_id), Hash256::from_u128(next_id + 1)];
        next_id += 2;
        walk.handle(hash, HintedLookup::Unconfirmed { dependents_confirmed: false, dependents: deps });
    }
    assert_eq!(examined, 64);
}

#[test]
fn priority_activation_targets() {
    let open = Hash256::from_u128(10);
    let succ = Some(Hash256::from_u128(11));
    assert_eq!(activation_target(true, 5, 0, open, None), Some(open));
    assert_eq!(activation_target(true, 5, 2, open, succ), succ);
    assert_eq!(activation_target(true, 5, 5, open, succ), None);
    assert_eq!(activation_target(false, 5, 0, open, succ), None);
    assert_eq!(balance_priority(100, Some(300)), 300);
    assert_eq!(balance_priority(100, Some(30)), 100);
    assert_eq!(balance_priority(100, None), 100);
    let a = Hash256::from_u128(1);
    let d = Hash256::from_u128(2);
    assert_eq!(successor_accounts(a, true, Some(d)), vec![a, d]);
    assert_eq!(successor_accounts(a, false, Some(d)), vec![a]);
    assert_eq!(successor_accounts(a, true, Some(a)), vec![a]);
    assert_eq!(successor_accounts(a, true, Some(Hash256::zero())), vec![a]);
    assert_eq!(successor_accounts(a, true, None), vec![a]);
}

#[test]
fn manual_queue_is_first_in_first_out() {
    let mut q: ManualQueue<u32> = ManualQueue::new();
    assert!(!q.predicate());
    q.push(1, None);
    q.push(2, Some(5));
    assert_eq!(q.len(), 2);
    assert_eq!(q.next(), Some((1, None, ElectionBehavior::Manual)));
    q.stop();
    assert_eq!(q.next(), None);
    assert_eq!(q.len(), 1);
}

#[test]
fn hinted_candidates_cool_down_and_check_dependents_below_quorum() {
    let mut cooldowns = OrderedCooldowns::new();
    let low = TopEntry { hash: Hash256::new(0, 1), tally: 50, final_tally: 10 };
    let high = TopEntry { hash: Hash256::new(0, 2), tally: 90, final_tally: 80 };
    assert_eq!(hinted_candidate(&mut cooldowns, &low, 67, 1000, 5000), Some(true));
    assert_eq!(hinted_candidate(&mut cooldowns, &high, 67, 1000, 5000), Some(false));
    // Both cool down now.
    assert_eq!(hinted_candidate(&mut cooldowns, &low, 67, 3000, 5000), None);
    // After the cooldown they are candidates again.
    assert_eq!(hinted_candidate(&mut cooldowns, &low, 67, 6000, 5000), Some(true));
}
