use rsnano_node::config::TxnTrackingConfig;
use rsnano_node::txn_tracking::LongRunningTransactionLogger;

fn logger() -> LongRunningTransactionLogger {
    LongRunningTransactionLogger::new(TxnTrackingConfig::new(), 1000)
}

#[test]
fn short_transactions_are_not_reported() {
    let mut l = logger();
    l.add_at(1, false, Some("worker".to_string()), 100);
    assert!(l.erase_at(1, false, 5099).is_none());
    l.add_at(2, true, None, 100);
    assert!(l.erase_at(2, true, 599).is_none());
}

#[test]
fn long_reads_and_writes_are_reported() {
    let mut l = logger();
    l.add_at(1, false, Some("worker".to_string()), 100);
    let r = l.erase_at(1, false, 5100).unwrap();
    assert_eq!(r.time_open_ms, 5000);
    assert!(!r.is_write);
    assert_eq!(r.thread_name.as_deref(), Some("worker"));
    l.add_at(2, true, None, 100);
    let w = l.erase_at(2, true, 600).unwrap();
    assert_eq!(w.time_open_ms, 500);
    assert!(w.is_write);
}

#[test]
fn block_processor_writes_within_batch_time_are_exempt() {
    let mut l = logger();
    l.add_at(1, true, Some("Blck processing".to_string()), 0);
    assert!(l.erase_at(1, true, 4000).is_none());
    l.add_at(2, true, Some("Blck processing".to_string()), 0);
    assert_eq!(l.erase_at(2, true, 4001).unwrap().time_open_ms, 4001);
}

#[test]
fn unknown_transaction_gives_nothing() {
    let mut l = logger();
    assert!(l.erase_at(7, false, 1_000_000).is_none());
}
