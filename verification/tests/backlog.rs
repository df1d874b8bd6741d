use rsnano_node::backlog::{
    backlog_chunk, chunk_interval_ms, chunk_size, needs_activation, should_populate, BacklogAccount,
};
use rsnano_node::config::BacklogPopulationConfig;
use rsnano_node::numbers::Hash256;

fn entry(n: u128, block_count: u64, confirmed_height: u64) -> BacklogAccount {
    BacklogAccount { account: Hash256::new(0, n), block_count, confirmed_height }
}

fn ledger() -> Vec<BacklogAccount> {
    vec![entry(1, 3, 3), entry(2, 5, 1), entry(3, 1, 0), entry(4, 2, 2), entry(5, 7, 6)]
}

#[test]
fn chunk_size_and_interval_follow_the_config() {
    let config = BacklogPopulationConfig::default();
    assert_eq!(chunk_size(&config), 1000);
    assert_eq!(chunk_interval_ms(&config), 100);
    let config = BacklogPopulationConfig { enabled: true, batch_size: 7, frequency: 3 };
    assert_eq!(chunk_size(&config), 2);
    assert_eq!(chunk_interval_ms(&config), 333);
}

#[test]
fn population_runs_when_enabled_or_triggered() {
    let enabled = BacklogPopulationConfig::default();
    let disabled = BacklogPopulationConfig { enabled: false, batch_size: 10, frequency: 1 };
    assert!(should_populate(false, &enabled));
    assert!(should_populate(true, &disabled));
    assert!(!should_populate(false, &disabled));
}

#[test]
fn only_accounts_with_unconfirmed_blocks_are_activated() {
    assert!(needs_activation(&entry(1, 2, 1)));
    assert!(needs_activation(&entry(1, 1, 0)));
    assert!(!needs_activation(&entry(1, 2, 2)));
}

#[test]
fn one_chunk_covers_a_small_ledger() {
    let chunk = backlog_chunk(&ledger(), Hash256::zero(), 100);
    assert_eq!(chunk.activate, vec![Hash256::new(0, 2), Hash256::new(0, 3), Hash256::new(0, 5)]);
    assert_eq!(chunk.scanned, 5);
    assert_eq!(chunk.next, Hash256::new(0, 6));
    assert!(chunk.done);
}

#[test]
fn chunks_continue_after_the_last_account() {
    let accounts = ledger();
    let first = backlog_chunk(&accounts, Hash256::zero(), 2);
    assert_eq!(first.activate, vec![Hash256::new(0, 2)]);
    assert_eq!(first.next, Hash256::new(0, 3));
    assert!(!first.done);

    let second = backlog_chunk(&accounts, first.next, 2);
    assert_eq!(second.activate, vec![Hash256::new(0, 3)]);
    assert_eq!(second.next, Hash256::new(0, 5));
    assert!(!second.done);

    let third = backlog_chunk(&accounts, second.next, 2);
    assert_eq!(third.activate, vec![Hash256::new(0, 5)]);
    assert_eq!(third.scanned, 1);
    assert!(third.done);
}

#[test]
fn chunk_ending_exactly_at_the_last_account_finishes_the_walk() {
    let accounts = vec![entry(1, 1, 0), entry(2, 1, 0)];
    let chunk = backlog_chunk(&accounts, Hash256::zero(), 2);
    assert_eq!(chunk.scanned, 2);
    assert!(chunk.done);
}

#[test]
fn empty_chunk_size_goes_nowhere() {
    let accounts = ledger();
    let chunk = backlog_chunk(&accounts, Hash256::new(0, 2), 0);
    assert!(chunk.activate.is_empty());
    assert_eq!(chunk.scanned, 0);
    assert_eq!(chunk.next, Hash256::new(0, 2));
    assert!(!chunk.done);
    // From zero, a chunk that goes nowhere is done.
    assert!(backlog_chunk(&accounts, Hash256::zero(), 0).done);
}

#[test]
fn walk_after_the_highest_account_wraps_to_zero_and_is_done() {
    let top = BacklogAccount { account: Hash256::new(u128::MAX, u128::MAX), block_count: 1, confirmed_height: 0 };
    let chunk = backlog_chunk(&vec![entry(9, 1, 1), top], Hash256::new(0, 10), 5);
    assert_eq!(chunk.activate, vec![top.account]);
    assert_eq!(chunk.next, Hash256::zero());
    assert!(chunk.done);
}

#[test]
fn empty_ledger_is_done_at_once() {
    let chunk = backlog_chunk(&Vec::new(), Hash256::new(0, 3), 10);
    assert_eq!(chunk.scanned, 0);
    assert!(chunk.done);
}
