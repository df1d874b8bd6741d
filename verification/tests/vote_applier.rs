use rsnano_node::bootstrap_weights::RepWeights;
use rsnano_node::election::{Election, ElectionBehavior, ElectionBlock, ElectionState, ElectionStatusType, VoteInfo};
use rsnano_node::numbers::{Hash256, QualifiedRoot};
use rsnano_node::recently_confirmed::RecentlyConfirmedCache;
use rsnano_node::vote::FINAL_TIMESTAMP;
use rsnano_node::vote_applier::{cooldown_time, have_quorum, tally_impl, OnlineWeights, VoteApplier};
use rsnano_node::vote_cache::VoteCode;

fn h(n: u128) -> Hash256 {
    Hash256::from_u128(n)
}

fn placeholder() -> Hash256 {
    Hash256::new(0xdead, 0xbeef)
}

fn election(block: u128, now: u64) -> Election {
    let block = ElectionBlock { hash: h(block), qualified_root: QualifiedRoot::new(h(500), h(501)), height: 3 };
    Election::new(7, block, ElectionBehavior::Priority, placeholder(), now)
}

fn weights() -> RepWeights {
    let mut w = RepWeights::new();
    w.insert(h(1001), 60);
    w.insert(h(1002), 50);
    w.insert(h(1003), 5);
    w
}

fn online() -> OnlineWeights {
    OnlineWeights { minimum_principal_weight: 10, online_stake: 1000, quorum_delta: 100 }
}

#[test]
fn new_election_holds_its_block_and_a_placeholder_vote() {
    let e = election(1, 100);
    assert_eq!(e.state(), ElectionState::Passive);
    assert_eq!(e.winner_hash(), Some(h(1)));
    assert!(e.contains(&h(1)));
    assert_eq!(e.vote_count(), 1);
    assert_eq!(e.data.last_votes[0], (placeholder(), VoteInfo { time: 100, timestamp: 0, hash: h(1) }));
    assert_eq!(e.root, h(500));
    assert_eq!(e.last_req_elapsed(200), 365 * 24 * 60 * 60 * 1000);
    assert_eq!(e.duration(250), 150);
    assert!(!e.failed());
}

#[test]
fn light_representatives_are_indeterminate() {
    let mut applier = VoteApplier::new(false, true);
    let mut e = election(1, 0);
    let mut rc = RecentlyConfirmedCache::new(10);
    let (code, outcome) = applier.vote(&mut e, &h(1003), 1, &h(1), false, &weights(), &online(), 1, &vec![], &mut rc, 10);
    assert_eq!(code, VoteCode::Indeterminate);
    assert!(outcome.is_none());
    assert_eq!(e.vote_count(), 1);
    // on the dev network any weight counts
    let mut dev = VoteApplier::new(true, true);
    let (code, _) = dev.vote(&mut e, &h(1003), 1, &h(1), false, &weights(), &online(), 1, &vec![], &mut rc, 10);
    assert_eq!(code, VoteCode::Vote);
    assert_eq!(e.vote_count(), 2);
}

#[test]
fn older_votes_are_replays_and_cooldown_holds_live_votes_back() {
    let mut applier = VoteApplier::new(false, true);
    let mut e = election(1, 0);
    let mut rc = RecentlyConfirmedCache::new(10);
    let w = weights();
    let (code, _) = applier.vote(&mut e, &h(1001), 5, &h(1), false, &w, &online(), 1, &vec![], &mut rc, 1000);
    assert_eq!(code, VoteCode::Vote);
    let (code, _) = applier.vote(&mut e, &h(1001), 4, &h(1), false, &w, &online(), 1, &vec![], &mut rc, 5000);
    assert_eq!(code, VoteCode::Replay);
    let (code, _) = applier.vote(&mut e, &h(1001), 5, &h(1), false, &w, &online(), 1, &vec![], &mut rc, 5000);
    assert_eq!(code, VoteCode::Replay);
    // weight 60 of 1000 online: one second of cooldown
    let (code, _) = applier.vote(&mut e, &h(1001), 6, &h(1), false, &w, &online(), 1, &vec![], &mut rc, 1500);
    assert_eq!(code, VoteCode::Ignored);
    let (code, _) = applier.vote(&mut e, &h(1001), 6, &h(1), true, &w, &online(), 1, &vec![], &mut rc, 1500);
    assert_eq!(code, VoteCode::Vote);
    let (code, _) = applier.vote(&mut e, &h(1001), 7, &h(1), false, &w, &online(), 1, &vec![], &mut rc, 2000);
    assert_eq!(code, VoteCode::Ignored);
    let (code, _) = applier.vote(&mut e, &h(1001), 7, &h(1), false, &w, &online(), 1, &vec![], &mut rc, 2500);
    assert_eq!(code, VoteCode::Vote);
    // a final vote skips the cooldown
    let (code, _) = applier.vote(&mut e, &h(1001), FINAL_TIMESTAMP, &h(1), false, &w, &online(), 1, &vec![], &mut rc, 2600);
    assert_eq!(code, VoteCode::Vote);
    assert_eq!(e.vote_count(), 2);
}

#[test]
fn final_votes_with_quorum_confirm_the_election() {
    let mut applier = VoteApplier::new(false, true);
    let mut e = election(1, 0);
    let mut rc = RecentlyConfirmedCache::new(10);
    let w = weights();
    let (code, outcome) = applier.vote(&mut e, &h(1001), FINAL_TIMESTAMP, &h(1), false, &w, &online(), 1, &vec![], &mut rc, 1000);
    assert_eq!(code, VoteCode::Vote);
    let outcome = outcome.unwrap();
    assert!(outcome.confirmed.is_none() && outcome.final_vote.is_none() && outcome.forced_block.is_none());
    assert!(!e.is_quorum);
    let (_, outcome) = applier.vote(&mut e, &h(1002), FINAL_TIMESTAMP, &h(1), false, &w, &online(), 1, &vec![], &mut rc, 1100);
    let outcome = outcome.unwrap();
    assert!(e.is_quorum);
    assert_eq!(outcome.final_vote, Some(h(1)));
    let status = outcome.confirmed.unwrap();
    assert_eq!(e.state(), ElectionState::Confirmed);
    assert_eq!(status.winner, Some(h(1)));
    assert_eq!(status.tally, 110);
    assert_eq!(status.final_tally, 110);
    assert_eq!(status.voter_count, 3);
    assert_eq!(status.block_count, 1);
    assert_eq!(status.election_end, 1100);
    assert_eq!(status.election_status_type, ElectionStatusType::Ongoing);
    assert_eq!(applier.election_winner_details_len(), 1);
    assert!(rc.hash_exists(&h(1)));
    // a confirmed election records further votes without counting them
    let mut dev = VoteApplier::new(true, true);
    let (code, outcome) = dev.vote(&mut e, &h(1003), 1, &h(1), true, &w, &online(), 1, &vec![], &mut rc, 1200);
    assert_eq!(code, VoteCode::Vote);
    assert!(outcome.is_none());
    assert_eq!(e.vote_count(), 4);
    assert_eq!(applier.remove_election_winner_details(&h(1)), Some(7));
    assert_eq!(applier.election_winner_details_len(), 0);
}

#[test]
fn a_block_with_enough_votes_becomes_the_winner() {
    let mut applier = VoteApplier::new(false, true);
    let mut e = election(1, 0);
    let mut rc = RecentlyConfirmedCache::new(10);
    let w = weights();
    e.data.last_blocks.push(h(2));
    let (_, outcome) = applier.vote(&mut e, &h(1001), 1, &h(2), false, &w, &online(), 1, &vec![], &mut rc, 1000);
    assert!(outcome.unwrap().forced_block.is_none());
    assert_eq!(e.winner_hash(), Some(h(1)));
    let (_, outcome) = applier.vote(&mut e, &h(1002), 1, &h(2), false, &w, &online(), 1, &vec![h(1002)], &mut rc, 1000);
    let outcome = outcome.unwrap();
    assert_eq!(outcome.forced_block, Some(h(2)));
    assert!(outcome.erase_history);
    // the final vote asked for goes to the winner the count started from
    assert_eq!(outcome.final_vote, Some(h(1)));
    assert!(outcome.confirmed.is_none());
    assert_eq!(e.winner_hash(), Some(h(2)));
    // the own representative's vote was removed
    assert_eq!(e.vote_count(), 2);
    assert_eq!(e.state(), ElectionState::Passive);
}

#[test]
fn tally_ranks_candidates_one_block_per_tally() {
    let mut e = election(1, 0);
    e.data.last_blocks.push(h(2));
    e.data.last_blocks.push(h(3));
    e.data.last_votes.push((h(1001), VoteInfo { time: 0, timestamp: 1, hash: h(2) }));
    e.data.last_votes.push((h(1002), VoteInfo { time: 0, timestamp: 1, hash: h(3) }));
    e.data.last_votes.push((h(1003), VoteInfo { time: 0, timestamp: 1, hash: h(9) }));
    let ranked = tally_impl(&mut e.data, &weights());
    assert_eq!(ranked, vec![(60, h(2)), (50, h(3)), (0, h(1))]);
    assert_eq!(e.data.last_tally, vec![(h(1), 0), (h(2), 60), (h(3), 50), (h(9), 5)]);
    assert!(have_quorum(&ranked, 10));
    assert!(!have_quorum(&ranked, 11));
    // equal tallies keep one block: the one counted last
    e.data.last_votes.push((h(1004), VoteInfo { time: 0, timestamp: 1, hash: h(1) }));
    let mut w = weights();
    w.insert(h(1004), 50);
    let ranked = tally_impl(&mut e.data, &w);
    assert_eq!(ranked, vec![(60, h(2)), (50, h(3))]);
}

#[test]
fn vote_pacing() {
    assert_eq!(cooldown_time(51, 1000), 1000);
    assert_eq!(cooldown_time(50, 1000), 5000);
    assert_eq!(cooldown_time(10, 1000), 15_000);
}
