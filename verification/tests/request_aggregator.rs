use rsnano_node::numbers::Hash256;
use rsnano_node::request_aggregator::{AggregatorLedger, RequestAggregatorImpl, RequestKind};

fn h(n: u128) -> Hash256 {
    Hash256::new(0, n)
}

/// Account 100 holds blocks 1 (height 1) and 2 (height 2), confirmed up to height 1.
/// Block 2 follows block 1.
fn ledger() -> AggregatorLedger {
    let mut l = AggregatorLedger::new();
    l.insert_block(h(1), h(100), 1);
    l.insert_block(h(2), h(100), 2);
    l.set_confirmed_height(h(100), 1);
    l.set_successor(h(1), h(2));
    l
}

fn answer(l: &AggregatorLedger, requests: Vec<(Hash256, Hash256)>) -> (Vec<Hash256>, Vec<RequestKind>) {
    let mut agg = RequestAggregatorImpl::new();
    agg.add_votes(l, &requests);
    let answers = agg.answers.clone();
    let result = agg.get_result();
    assert!(result.remaining_normal.is_empty());
    (result.remaining_final, answers)
}

#[test]
fn unknown_block_and_root_are_answered_unknown() {
    let (finals, kinds) = answer(&ledger(), vec![(h(9), h(8))]);
    assert!(finals.is_empty());
    assert_eq!(kinds, vec![RequestKind::Unknown]);
}

#[test]
fn confirmed_block_gets_a_final_vote() {
    let (finals, kinds) = answer(&ledger(), vec![(h(1), h(50))]);
    assert_eq!(finals, vec![h(1)]);
    assert_eq!(kinds, vec![RequestKind::Final]);
}

#[test]
fn unconfirmed_block_gets_no_final_vote() {
    let (finals, kinds) = answer(&ledger(), vec![(h(2), h(1))]);
    assert!(finals.is_empty());
    assert_eq!(kinds, vec![RequestKind::NonFinal]);
}

#[test]
fn block_on_the_root_is_found_when_the_hash_is_unknown() {
    let mut l = ledger();
    let (finals, kinds) = answer(&l, vec![(h(77), h(1))]);
    assert!(finals.is_empty());
    assert_eq!(kinds, vec![RequestKind::NonFinal]);
    l.set_confirmed_height(h(100), 2);
    let (finals, kinds) = answer(&l, vec![(h(77), h(1))]);
    assert_eq!(finals, vec![h(2)]);
    assert_eq!(kinds, vec![RequestKind::Final]);
}

#[test]
fn zero_root_is_not_looked_up() {
    let mut l = ledger();
    l.set_successor(Hash256::zero(), h(1));
    let (finals, kinds) = answer(&l, vec![(h(77), Hash256::zero())]);
    assert!(finals.is_empty());
    assert_eq!(kinds, vec![RequestKind::Unknown]);
}

#[test]
fn blocks_with_final_votes_get_final_votes_again() {
    let mut l = ledger();
    l.set_final_votes(h(1), vec![h(2)]);
    let (finals, kinds) = answer(&l, vec![(h(77), h(1))]);
    assert_eq!(finals, vec![h(2)]);
    assert_eq!(kinds, vec![RequestKind::Final]);
}

#[test]
fn two_final_votes_on_a_root_are_both_voted_for() {
    let mut l = ledger();
    l.insert_block(h(3), h(100), 2);
    l.set_final_votes(h(1), vec![h(2), h(3)]);
    let (finals, kinds) = answer(&l, vec![(h(2), h(1))]);
    assert_eq!(finals, vec![h(2), h(3)]);
    assert_eq!(kinds, vec![RequestKind::Final]);
}

#[test]
fn final_votes_for_unknown_blocks_fall_back_to_the_ledger() {
    let mut l = ledger();
    l.set_final_votes(h(1), vec![h(55)]);
    // The requested block is found by hash; its confirmation decides.
    let (finals, kinds) = answer(&l, vec![(h(2), h(1))]);
    assert!(finals.is_empty());
    assert_eq!(kinds, vec![RequestKind::NonFinal]);
}

#[test]
fn requests_are_answered_in_order() {
    let (finals, kinds) = answer(&ledger(), vec![(h(1), h(9)), (h(9), h(9)), (h(2), h(1)), (h(1), h(1))]);
    assert_eq!(finals, vec![h(1), h(1)]);
    assert_eq!(kinds, vec![RequestKind::Final, RequestKind::Unknown, RequestKind::NonFinal, RequestKind::Final]);
}
