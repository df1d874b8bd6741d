use rsnano_node::bootstrap_lazy::{backlog_cleanup_due, flush_due, LazyBlock, LazyBlockKind, LazyData, LedgerView};
use rsnano_node::numbers::Hash256;

fn h(n: u128) -> Hash256 {
    Hash256::from_u128(n)
}

fn legacy_receive(hash: u128, previous: u128, source: u128) -> LazyBlock {
    LazyBlock {
        hash: h(hash),
        kind: LazyBlockKind::LegacyOther,
        previous: h(previous),
        balance: 0,
        link: Hash256::zero(),
        has_source: true,
        source_or_link: h(source),
    }
}

fn state(hash: u128, previous: u128, balance: u128, link: u128) -> LazyBlock {
    LazyBlock {
        hash: h(hash),
        kind: LazyBlockKind::State,
        previous: h(previous),
        balance,
        link: h(link),
        has_source: false,
        source_or_link: h(link),
    }
}

#[test]
fn start_keys_are_added_once() {
    let mut lazy = LazyData::new(0, false, 64);
    assert!(lazy.lazy_start(&h(1)));
    assert!(!lazy.lazy_start(&h(1)));
    assert_eq!(lazy.lazy_pulls_len(), 1);
}

#[test]
fn unknown_sources_are_pulled_and_blocks_processed_once() {
    let mut lazy = LazyData::new(0, false, 64);
    let ledger = LedgerView::new();
    let genesis = h(999);
    assert_eq!(lazy.process_block_lazy(&legacy_receive(10, 9, 20), 1, 100, 7, &ledger, &genesis), (false, true));
    assert!(lazy.lazy_blocks_processed(&h(10)));
    assert_eq!(lazy.lazy_blocks_count(), 1);
    assert_eq!(lazy.lazy_pulls_len(), 1);
    assert_eq!(lazy.process_block_lazy(&legacy_receive(10, 9, 20), 101, 100, 7, &ledger, &genesis), (true, false));
    assert_eq!(lazy.lazy_pulls_len(), 1);
    // the genesis account is never pulled
    lazy.process_block_lazy(&legacy_receive(11, 10, 999), 2, 100, 7, &ledger, &genesis);
    assert_eq!(lazy.lazy_pulls_len(), 1);
    // an unexpected block stops the pull
    assert_eq!(lazy.process_block(&legacy_receive(12, 11, 30), 1, 100, false, 7, &ledger, &genesis), (true, false));
    assert!(!lazy.lazy_blocks_processed(&h(12)));
}

#[test]
fn state_receive_pulls_its_link() {
    let mut lazy = LazyData::new(0, false, 64);
    let mut ledger = LedgerView::new();
    ledger.insert_block(h(9), Some(30));
    let genesis = h(999);
    // balance went up from 30 to 40: a receive, so the source is pulled
    lazy.process_block_lazy(&state(10, 9, 40, 50), 2, 100, 7, &ledger, &genesis);
    assert_eq!(lazy.lazy_pulls_len(), 1);
    // balance went down: a send, nothing to pull
    ledger.insert_block(h(19), Some(100));
    lazy.process_block_lazy(&state(20, 19, 40, 60), 2, 100, 7, &ledger, &genesis);
    assert_eq!(lazy.lazy_pulls_len(), 1);
    // epoch links are not pulled
    ledger.insert_block(h(29), Some(30));
    ledger.add_epoch_link(h(70));
    lazy.process_block_lazy(&state(30, 29, 40, 70), 2, 100, 7, &ledger, &genesis);
    assert_eq!(lazy.lazy_pulls_len(), 1);
}

#[test]
fn backlogged_state_block_waits_for_its_previous_block() {
    let mut lazy = LazyData::new(0, false, 64);
    let ledger = LedgerView::new();
    let genesis = h(999);
    // previous block 9 is unknown: the state block waits in the backlog
    lazy.process_block_lazy(&state(10, 9, 40, 50), 2, 100, 7, &ledger, &genesis);
    assert_eq!(lazy.lazy_pulls_len(), 0);
    // block 9 arrives as a legacy send with balance 30 <= 40: the link is pulled
    let send = LazyBlock {
        hash: h(9),
        kind: LazyBlockKind::LegacySend,
        previous: h(8),
        balance: 30,
        link: Hash256::zero(),
        has_source: false,
        source_or_link: Hash256::zero(),
    };
    lazy.process_block_lazy(&send, 2, 100, 7, &ledger, &genesis);
    assert_eq!(lazy.lazy_pulls_len(), 1);
    let pulls = lazy.lazy_pull_flush(0, 10, 5, 3, &ledger);
    assert_eq!(pulls.len(), 1);
    assert_eq!(pulls[0].account_or_head, h(50));
    assert_eq!(pulls[0].retry_limit, 7);
    assert_eq!(pulls[0].count, 5);
    assert_eq!(pulls[0].bootstrap_id, 3);
}

#[test]
fn backlog_cleanup_follows_the_ledger() {
    let mut lazy = LazyData::new(0, false, 64);
    let mut ledger = LedgerView::new();
    let genesis = h(999);
    lazy.process_block_lazy(&state(10, 9, 40, 50), 2, 100, 7, &ledger, &genesis);
    // still missing: the previous block itself is pulled, the entry stays
    lazy.lazy_backlog_cleanup(false, &ledger);
    assert_eq!(lazy.lazy_pulls_len(), 1);
    ledger.insert_block(h(9), Some(10));
    lazy.lazy_backlog_cleanup(true, &ledger);
    assert_eq!(lazy.lazy_pulls_len(), 1);
    lazy.lazy_backlog_cleanup(false, &ledger);
    assert_eq!(lazy.lazy_pulls_len(), 2);
    lazy.lazy_backlog_cleanup(false, &ledger);
    assert_eq!(lazy.lazy_pulls_len(), 2);
}

#[test]
fn flush_stops_at_the_limit_and_drops_known_blocks() {
    let mut lazy = LazyData::new(0, false, 64);
    let mut ledger = LedgerView::new();
    for n in 1..=5u128 {
        assert!(lazy.lazy_start(&h(n)));
    }
    ledger.insert_block(h(2), None);
    assert!(lazy.lazy_pull_flush(10, 10, 5, 3, &ledger).is_empty());
    let pulls = lazy.lazy_pull_flush(0, 2, 5, 3, &ledger);
    let heads: Vec<_> = pulls.iter().map(|p| p.head).collect();
    assert_eq!(heads, vec![h(1), h(3)]);
    assert_eq!(lazy.lazy_pulls_len(), 2);
}

#[test]
fn finished_once_start_keys_are_known() {
    let mut lazy = LazyData::new(0, false, 64);
    let mut ledger = LedgerView::new();
    lazy.lazy_start(&h(1));
    lazy.lazy_start(&h(2));
    assert!(lazy.lazy_finished(true, &ledger));
    assert!(!lazy.lazy_finished(false, &ledger));
    ledger.insert_block(h(1), Some(0));
    assert!(!lazy.lazy_finished(false, &ledger));
    ledger.insert_block(h(2), Some(0));
    assert!(lazy.lazy_finished(false, &ledger));
}

#[test]
fn requeue_forgets_the_processed_block() {
    let mut lazy = LazyData::new(0, false, 64);
    let ledger = LedgerView::new();
    assert!(lazy.lazy_requeue(&h(10), &h(9), 4, 3).is_none());
    lazy.process_block_lazy(&legacy_receive(10, 9, 20), 2, 100, 7, &ledger, &h(999));
    assert!(lazy.lazy_processed_or_exists(&h(10), &ledger));
    let pull = lazy.lazy_requeue(&h(10), &h(9), 4, 3).unwrap();
    assert_eq!((pull.head, pull.end, pull.count, pull.retry_limit), (h(10), h(9), 1, 4));
    assert!(!lazy.lazy_blocks_processed(&h(10)));
    assert_eq!(lazy.lazy_blocks_count(), 0);
}

#[test]
fn sessions_expire() {
    let lazy = LazyData::new(1000, false, 64);
    assert!(!lazy.lazy_has_expired(1000 + 1_799_999, 10));
    assert!(lazy.lazy_has_expired(1000 + 1_800_000, 10));
    let long = LazyData::new(0, true, 64);
    assert!(!long.lazy_has_expired(1_800_000, 0));
    assert!(long.lazy_has_expired(604_800_000, 0));
    let mut busy = LazyData::new(0, false, 64);
    busy.lazy_blocks_insert(&h(1));
    assert!(busy.lazy_has_expired(5, 0));
    assert!(!busy.lazy_has_expired(5, 1));
}

#[test]
fn information_reports_sizes_and_a_start_block() {
    let mut lazy = LazyData::new(0, false, 64);
    let info = lazy.get_information();
    assert_eq!(info.lazy_keys, 0);
    assert_eq!(info.lazy_key_1, None);
    assert!(lazy.lazy_start(&h(7)));
    assert!(lazy.lazy_start(&h(8)));
    let info = lazy.get_information();
    assert_eq!(info.lazy_keys, 2);
    assert_eq!(info.lazy_pulls, 2);
    assert_eq!(info.lazy_blocks, 0);
    assert_eq!(info.lazy_state_backlog, 0);
    assert_eq!(info.lazy_balances, 0);
    assert_eq!(info.lazy_undefined_links, 0);
    assert_eq!(info.lazy_key_1, Some(h(7)));
}

#[test]
fn lazy_loop_wakes_to_flush() {
    assert!(flush_due(true, 5, 3, false, false));
    assert!(flush_due(false, 0, 3, false, false));
    assert!(flush_due(false, 2, 3, true, false));
    assert!(!flush_due(false, 2, 3, false, false));
    assert!(!flush_due(false, 3, 3, true, false));
    assert!(flush_due(false, 3, 3, true, true));
    assert!(backlog_cleanup_due(100));
    assert!(backlog_cleanup_due(0));
    assert!(!backlog_cleanup_due(101));
}

#[test]
fn digests_record_processed_blocks() {
    let mut lazy = LazyData::new(0, false, 64);
    assert!(!lazy.digest_processed(42));
    lazy.insert_digest(42);
    lazy.insert_digest(42);
    assert!(lazy.digest_processed(42));
    assert_eq!(lazy.lazy_blocks_count(), 1);
    lazy.insert_digest(7);
    assert_eq!(lazy.lazy_blocks_count(), 2);
    lazy.erase_digest(42);
    assert!(!lazy.digest_processed(42));
    assert!(lazy.digest_processed(7));
    assert_eq!(lazy.lazy_blocks_count(), 1);
}

#[test]
fn blocks_are_processed_by_their_own_digest() {
    let mut lazy = LazyData::new(0, false, 64);
    lazy.lazy_blocks_insert(&h(1));
    assert!(lazy.lazy_blocks_processed(&h(1)));
    assert!(!lazy.lazy_blocks_processed(&h(2)));
    lazy.lazy_block_erase(&h(1));
    assert!(!lazy.lazy_blocks_processed(&h(1)));
}
