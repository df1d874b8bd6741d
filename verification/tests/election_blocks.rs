use rsnano_node::bootstrap_weights::RepWeights;
use rsnano_node::election::ElectionStatusType;
use rsnano_node::election_blocks::{activates_successors, balance_changes, cemented_status, confirmed_block_flags, should_try_confirm};
use rsnano_node::election::{Election, ElectionBehavior, ElectionBlock, ElectionState, VoteInfo};
use rsnano_node::election_blocks::{
    block_broadcast, broadcast_block_predicate, broadcast_vote_locked, cleanup_notices, confirm_req_due, confirm_req_sent,
    process_confirmed_step, publish, replace_by_weight, votes_with_weight, ConfirmedStep,
};
use rsnano_node::numbers::{Hash256, QualifiedRoot};
use rsnano_node::active_elections::{ActiveElectionsState, InsertOutcome};
use rsnano_node::election_blocks::{finish_election, start_election};

fn h(n: u128) -> Hash256 {
    Hash256::from_u128(n)
}

fn placeholder() -> Hash256 {
    Hash256::new(0xdead, 0xbeef)
}

fn election(block: u128) -> Election {
    let block = ElectionBlock { hash: h(block), qualified_root: QualifiedRoot::new(h(500), h(501)), height: 3 };
    Election::new(1, block, ElectionBehavior::Priority, placeholder(), 0)
}

#[test]
fn replace_drops_first_untallied_loser_when_few_are_tallied() {
    let mut e = election(1);
    e.data.last_blocks.push(h(2));
    e.data.last_blocks.push(h(3));
    e.data.last_tally = vec![(h(1), 0), (h(2), 5)];
    assert_eq!(replace_by_weight(&mut e.data, 0), None);
    assert_eq!(replace_by_weight(&mut e.data, 7), Some(h(3)));
    assert_eq!(e.data.last_blocks, vec![h(1), h(2)]);
}

#[test]
fn replace_spares_the_winner_among_many_tallied() {
    let mut e = election(10);
    for n in 1..10u128 {
        e.data.last_blocks.push(h(n));
    }
    // the winner holds the lowest tally; the new block must outweigh the second lowest
    e.data.last_tally = (1..10u128).map(|n| (h(n), n * 10)).collect();
    e.data.last_tally.push((h(10), 5));
    assert_eq!(replace_by_weight(&mut e.data, 8), None);
    assert_eq!(replace_by_weight(&mut e.data, 10), None);
    assert_eq!(replace_by_weight(&mut e.data, 11), Some(h(1)));
    assert!(!e.contains(&h(1)));
    assert!(e.contains(&h(10)));
}

#[test]
fn replace_drops_the_lowest_tally() {
    let mut e = election(10);
    for n in 1..10u128 {
        e.data.last_blocks.push(h(n));
    }
    e.data.last_tally = (1..=10u128).map(|n| (h(n), 10 + n * 5)).collect();
    // h(10) is the winner with 60; h(1) holds the lowest tally, 15
    assert_eq!(replace_by_weight(&mut e.data, 15), None);
    assert_eq!(replace_by_weight(&mut e.data, 16), Some(h(1)));
    assert!(!e.contains(&h(1)) && e.contains(&h(2)));
}

#[test]
fn replace_breaks_ties_by_the_lower_hash() {
    let mut e = election(10);
    for n in 1..10u128 {
        e.data.last_blocks.push(h(n));
    }
    e.data.last_tally = (1..=10u128).map(|n| (h(n), if n == 4 || n == 7 { 3 } else { 40 })).collect();
    assert_eq!(replace_by_weight(&mut e.data, 4), Some(h(4)));
}

#[test]
fn publish_adds_ignores_or_makes_room() {
    let mut e = election(1);
    let r = publish(&mut e.data, h(2), 0);
    assert!(!r.ignored && r.replaced.is_none() && !r.flood);
    assert!(e.contains(&h(2)));
    let r = publish(&mut e.data, h(1), 0);
    assert!(r.ignored && r.flood);
    let r = publish(&mut e.data, h(2), 0);
    assert!(r.ignored && !r.flood);
    for n in 3..=10u128 {
        publish(&mut e.data, h(n), 0);
    }
    assert_eq!(e.data.last_blocks.len(), 10);
    let r = publish(&mut e.data, h(11), 0);
    assert!(r.ignored && r.clear_filter);
    let r = publish(&mut e.data, h(11), 4);
    assert!(!r.ignored);
    assert_eq!(r.replaced, Some(h(2)));
    assert!(e.contains(&h(11)) && !e.contains(&h(2)));
    e.data.state = ElectionState::Confirmed;
    let r = publish(&mut e.data, h(12), 4);
    assert!(r.ignored && !e.contains(&h(12)));
}

#[test]
fn votes_are_listed_heaviest_first_in_vote_order() {
    let mut e = election(1);
    let mut w = RepWeights::new();
    w.insert(h(1001), 60);
    w.insert(h(1002), 50);
    w.insert(h(1003), 5);
    w.insert(h(1004), 60);
    for rep in [1001u128, 1003, 1002, 1004] {
        e.data.last_votes.push((h(rep), VoteInfo { time: 9, timestamp: 1, hash: h(1) }));
    }
    let votes = votes_with_weight(&e.data, &w, &placeholder());
    let reps: Vec<_> = votes.iter().map(|v| (v.representative, v.weight)).collect();
    assert_eq!(reps, vec![(h(1001), 60), (h(1004), 60), (h(1002), 50), (h(1003), 5)]);
}

#[test]
fn ending_election_announces_losers() {
    let mut e = election(1);
    publish(&mut e.data, h(2), 0);
    let n = cleanup_notices(&e.data);
    assert_eq!(n.stopped, vec![h(1), h(2)]);
    assert_eq!(n.clear_filters, vec![h(1), h(2)]);
    e.data.state = ElectionState::Confirmed;
    let n = cleanup_notices(&e.data);
    assert_eq!(n.stopped, vec![h(2)]);
    assert!(n.clear_filters.is_empty());
}

#[test]
fn broadcasting_and_requests_follow_their_intervals() {
    let mut e = election(1);
    // the winner was never broadcast
    assert!(broadcast_block_predicate(&e, 1000, 5000));
    block_broadcast(&mut e, 5000);
    assert!(broadcast_block_predicate(&e, 1000, 5999));
    assert!(!broadcast_block_predicate(&e, 1000, 6000));
    assert!(confirm_req_due(&e, false, 100));
    confirm_req_sent(&mut e, 100);
    assert_eq!(e.confirmation_request_count, 1);
    assert!(!confirm_req_due(&e, false, 5100));
    assert!(confirm_req_due(&e, false, 5101));
}

#[test]
fn votes_are_generated_after_the_interval() {
    let mut e = election(1);
    let w = RepWeights::new();
    assert_eq!(broadcast_vote_locked(&mut e.data, &w, 100, 500, true, 1000), Some((h(1), false)));
    assert_eq!(e.data.last_vote, Some(1000));
    assert_eq!(broadcast_vote_locked(&mut e.data, &w, 100, 500, true, 1200), None);
    assert_eq!(broadcast_vote_locked(&mut e.data, &w, 0, 500, true, 1500), Some((h(1), true)));
    assert_eq!(broadcast_vote_locked(&mut e.data, &w, 100, 500, false, 2000), None);
    assert_eq!(e.data.last_vote, Some(2000));
}

#[test]
fn confirmed_blocks_are_retried_then_given_up() {
    assert_eq!(process_confirmed_step(true, 0, 500, 100), ConfirmedStep::Cement);
    assert_eq!(process_confirmed_step(false, 0, 500, 100), ConfirmedStep::Retry(1));
    assert_eq!(process_confirmed_step(false, 19, 500, 100), ConfirmedStep::Retry(20));
    assert_eq!(process_confirmed_step(false, 20, 500, 100), ConfirmedStep::GiveUp);
}

#[test]
fn cemented_status_types() {
    let b = Hash256::new(0, 5);
    let root = Hash256::new(0, 6);
    let s = cemented_status(b, b, None);
    assert_eq!(s.election_status_type, ElectionStatusType::ActiveConfirmedQuorum);
    assert_eq!(s.winner, Some(b));
    assert_eq!(cemented_status(b, root, None).election_status_type, ElectionStatusType::InactiveConfirmationHeight);
    let mut with_election = cemented_status(b, b, None);
    with_election.tally = 77;
    let s = cemented_status(b, root, Some(with_election));
    assert_eq!(s.election_status_type, ElectionStatusType::ActiveConfirmationHeight);
    assert_eq!(s.tally, 77);
    assert!(activates_successors(10, 10, ElectionStatusType::ActiveConfirmedQuorum, false));
    assert!(activates_successors(11, 10, ElectionStatusType::ActiveConfirmationHeight, false));
    assert!(!activates_successors(9, 10, ElectionStatusType::ActiveConfirmedQuorum, false));
    assert!(!activates_successors(10, 10, ElectionStatusType::InactiveConfirmationHeight, false));
    assert!(!activates_successors(10, 10, ElectionStatusType::ActiveConfirmedQuorum, true));
}

#[test]
fn balance_changes_and_flags() {
    let a = Hash256::new(0, 1);
    let d = Hash256::new(0, 2);
    assert_eq!(balance_changes(a, false, None), vec![(a, false)]);
    assert_eq!(balance_changes(a, true, Some(d)), vec![(a, false), (d, true)]);
    assert_eq!(confirmed_block_flags(true, true, true, false), (true, false));
    assert_eq!(confirmed_block_flags(true, true, false, true), (false, true));
    assert_eq!(confirmed_block_flags(false, true, true, true), (false, false));
    assert_eq!(confirmed_block_flags(true, false, true, true), (false, false));
}

#[test]
fn cemented_winner_confirms_its_election_once() {
    let b = h(3);
    let mut election = election(3);
    assert!(should_try_confirm(&election.data, &b));
    assert!(!should_try_confirm(&election.data, &h(4)));
    election.data.state = ElectionState::Confirmed;
    assert!(!should_try_confirm(&election.data, &b));
}

#[test]
fn starting_and_finishing_an_election() {
    let mut active: ActiveElectionsState<Election> = ActiveElectionsState::new();
    let root = QualifiedRoot::new(h(500), h(501));
    let block = ElectionBlock { hash: h(1), qualified_root: root, height: 3 };
    let (outcome, started) = start_election(&mut active, 7, block, ElectionBehavior::Priority, placeholder(), false, 100);
    assert!(matches!(outcome, InsertOutcome::Inserted));
    assert_eq!(started, Some(h(1)));
    let e = active.election(&root).unwrap();
    assert_eq!((e.id, e.election_start, e.state()), (7, 100, ElectionState::Passive));
    let other = ElectionBlock { hash: h(2), qualified_root: root, height: 3 };
    let (outcome, started) = start_election(&mut active, 8, other, ElectionBehavior::Priority, placeholder(), false, 101);
    assert!(matches!(outcome, InsertOutcome::Existing(0)));
    assert_eq!(started, None);
    let fresh = ElectionBlock { hash: h(3), qualified_root: QualifiedRoot::new(h(600), h(601)), height: 1 };
    let (outcome, started) = start_election(&mut active, 9, fresh, ElectionBehavior::Hinted, placeholder(), true, 102);
    assert!(matches!(outcome, InsertOutcome::RecentlyConfirmed));
    assert_eq!(started, None);

    let (finished, notices) = finish_election(&mut active, &root).unwrap();
    assert_eq!(finished.id, 7);
    assert_eq!(notices.stopped, vec![h(1)]);
    assert_eq!(notices.clear_filters, vec![h(1)]);
    assert!(!active.active_root(&root));
    assert!(finish_election(&mut active, &root).is_none());
}
