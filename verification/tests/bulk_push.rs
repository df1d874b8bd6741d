use rsnano_node::bulk_push::{BulkPushClient, PushStep};
use rsnano_node::numbers::Hash256;

fn h(n: u128) -> Hash256 {
    Hash256::new(0, n)
}

/// Blocks 1 <- 2 <- 3 of one chain, each with its previous block.
fn ledger() -> Vec<(Hash256, Hash256)> {
    vec![(h(1), Hash256::zero()), (h(2), h(1)), (h(3), h(2))]
}

#[test]
fn nothing_to_push_finishes() {
    let mut client = BulkPushClient::new();
    let mut targets = Vec::new();
    assert_eq!(client.push(&mut targets, &ledger()), PushStep::Finished);
}

#[test]
fn range_is_pushed_newest_first_down_to_its_end() {
    let mut client = BulkPushClient::new();
    let mut targets = vec![(h(3), h(1))];
    assert_eq!(client.push(&mut targets, &ledger()), PushStep::Block(h(3)));
    assert!(targets.is_empty());
    assert_eq!(client.push(&mut targets, &ledger()), PushStep::Block(h(2)));
    // The range reached its end.
    assert_eq!(client.push(&mut targets, &ledger()), PushStep::Finished);
}

#[test]
fn range_starting_at_an_unknown_block_is_dropped() {
    let mut client = BulkPushClient::new();
    let mut targets = vec![(h(9), h(1)), (h(2), Hash256::zero())];
    assert_eq!(client.push(&mut targets, &ledger()), PushStep::Block(h(2)));
    assert!(targets.is_empty());
    assert_eq!(client.push(&mut targets, &ledger()), PushStep::Block(h(1)));
    // The range went back to the chain's start (previous is zero).
    assert_eq!(client.push(&mut targets, &ledger()), PushStep::Finished);
}

#[test]
fn ranges_are_taken_in_order() {
    let mut client = BulkPushClient::new();
    let mut targets = vec![(h(1), Hash256::zero()), (h(3), h(2))];
    assert_eq!(client.push(&mut targets, &ledger()), PushStep::Block(h(1)));
    assert_eq!(targets.len(), 1);
    assert_eq!(client.push(&mut targets, &ledger()), PushStep::Block(h(3)));
    assert_eq!(client.push(&mut targets, &ledger()), PushStep::Finished);
}

#[test]
fn result_is_kept() {
    let mut client = BulkPushClient::new();
    assert_eq!(client.get_result(), None);
    client.set_result(true);
    assert_eq!(client.get_result(), Some(true));
}
