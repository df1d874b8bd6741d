use rsnano_node::active_elections::{
    base_latency, confirm_req_time, limit, transition_time, vacancy, ActiveElectionsConfig, ActiveElectionsState,
    BehaviorCounts, InsertOutcome, request_loop_wait_ms,
};
use rsnano_node::election::{
    time_to_live, valid_change, ElectionBehavior, ElectionData, ElectionState, ElectionStatusType,
};
use rsnano_node::numbers::{Hash256, QualifiedRoot};

#[test]
fn state_changes_follow_the_life_cycle() {
    assert!(valid_change(ElectionState::Passive, ElectionState::Active));
    assert!(valid_change(ElectionState::Active, ElectionState::Confirmed));
    assert!(valid_change(ElectionState::Confirmed, ElectionState::ExpiredConfirmed));
    assert!(!valid_change(ElectionState::Active, ElectionState::Passive));
    assert!(!valid_change(ElectionState::Cancelled, ElectionState::Active));
    assert!(!valid_change(ElectionState::Confirmed, ElectionState::Cancelled));

    let mut data = ElectionData::new(Hash256::from_u128(1), Hash256::from_u128(99), 10);
    assert_eq!(data.state_change(ElectionState::Active, ElectionState::Confirmed, 20), Err(()));
    assert_eq!(data.state_start, 10);
    assert_eq!(data.state_change(ElectionState::Passive, ElectionState::Active, 20), Ok(()));
    assert_eq!(data.state, ElectionState::Active);
    assert_eq!(data.state_start, 20);
    assert!(!data.is_confirmed());
    assert_eq!(data.last_vote_elapsed(50), 365 * 24 * 60 * 60 * 1000);
    data.set_last_vote(30);
    assert_eq!(data.last_vote_elapsed(50), 20);
}

#[test]
fn time_to_live_by_behavior() {
    assert_eq!(time_to_live(ElectionBehavior::Priority), 300_000);
    assert_eq!(time_to_live(ElectionBehavior::Hinted), 30_000);
}

#[test]
fn limits_and_vacancy() {
    let config = ActiveElectionsConfig::default();
    assert_eq!(limit(&config, ElectionBehavior::Priority), 5000);
    assert_eq!(limit(&config, ElectionBehavior::Hinted), 1000);
    assert_eq!(limit(&config, ElectionBehavior::Optimistic), 500);
    assert_eq!(limit(&config, ElectionBehavior::Manual), usize::MAX);
    let mut counts = BehaviorCounts::new();
    counts.increment(ElectionBehavior::Hinted);
    assert_eq!(vacancy(&config, ElectionBehavior::Hinted, 10, &counts, 0), 999);
    assert_eq!(vacancy(&config, ElectionBehavior::Priority, 10, &counts, 0), 4990);
    assert_eq!(vacancy(&config, ElectionBehavior::Priority, 10, &counts, 16 * 1024 - 3), 3);
    assert_eq!(vacancy(&config, ElectionBehavior::Manual, 10, &counts, 0), 16 * 1024);
}

#[test]
fn latencies() {
    assert_eq!(base_latency(true), 25);
    assert_eq!(base_latency(false), 1000);
    assert_eq!(confirm_req_time(ElectionBehavior::Optimistic, false), 2000);
    assert_eq!(confirm_req_time(ElectionBehavior::Priority, true), 125);
}

#[test]
fn passive_election_turns_active_then_expires() {
    let mut data = ElectionData::new(Hash256::from_u128(1), Hash256::from_u128(99), 0);
    let r = transition_time(&mut data, ElectionBehavior::Hinted, 100, 100, true);
    assert!(!r.cleanup);
    assert_eq!(data.state, ElectionState::Passive);
    let r = transition_time(&mut data, ElectionBehavior::Hinted, 200, 200, true);
    assert!(!r.cleanup && !r.solicit);
    assert_eq!(data.state, ElectionState::Active);
    let r = transition_time(&mut data, ElectionBehavior::Hinted, 300, 300, true);
    assert!(r.solicit && !r.cleanup);
    let r = transition_time(&mut data, ElectionBehavior::Hinted, 30_001, 30_001, true);
    assert!(r.cleanup && r.expired);
    assert_eq!(data.state, ElectionState::ExpiredUnconfirmed);
    assert_eq!(data.status.election_status_type, ElectionStatusType::Stopped);
}

#[test]
fn confirmed_election_is_cleaned_up() {
    let mut data = ElectionData::new(Hash256::from_u128(1), Hash256::from_u128(99), 0);
    data.state_change(ElectionState::Passive, ElectionState::Confirmed, 1).unwrap();
    let r = transition_time(&mut data, ElectionBehavior::Priority, 1_000_000, 5, false);
    assert!(r.cleanup && r.broadcast_winner && !r.expired);
    assert_eq!(data.state, ElectionState::ExpiredConfirmed);
}

fn qroot(n: u128) -> QualifiedRoot {
    QualifiedRoot::new(Hash256::from_u128(n), Hash256::zero())
}

#[test]
fn container_counts_elections_by_behavior() {
    let mut state: ActiveElectionsState<u32> = ActiveElectionsState::new();
    assert!(matches!(state.insert(qroot(1), ElectionBehavior::Hinted, 1, false), InsertOutcome::Inserted));
    assert!(matches!(state.insert(qroot(1), ElectionBehavior::Hinted, 2, false), InsertOutcome::Existing(0)));
    assert!(matches!(state.insert(qroot(2), ElectionBehavior::Priority, 3, true), InsertOutcome::RecentlyConfirmed));
    assert!(matches!(state.insert(qroot(3), ElectionBehavior::Priority, 4, false), InsertOutcome::Inserted));
    assert_eq!(state.count_by_behavior(ElectionBehavior::Hinted), 1);
    assert_eq!(state.len(), 2);
    assert_eq!(state.election(&qroot(3)), Some(&4));
    let info = state.info(&ActiveElectionsConfig::default());
    assert_eq!((info.total, info.priority, info.hinted, info.max_queue), (2, 1, 1, 5000));
    assert_eq!(state.list_active(1), vec![qroot(1)]);
    assert!(state.erase(&qroot(1)).is_some());
    assert_eq!(state.count_by_behavior(ElectionBehavior::Hinted), 0);
    assert!(!state.active_root(&qroot(1)));
    state.stop();
    assert!(matches!(state.insert(qroot(9), ElectionBehavior::Manual, 5, false), InsertOutcome::Stopped));
}

#[test]
fn request_loop_waits_for_the_rest_of_the_interval_but_at_least_half() {
    // Started at 1000 with a 500 ms interval: 100 ms in, 400 ms remain.
    assert_eq!(request_loop_wait_ms(1000, 1100, 500), 400);
    // 400 ms in: only 100 ms remain, but the loop sleeps at least half an interval.
    assert_eq!(request_loop_wait_ms(1000, 1400, 500), 250);
    // Past the interval already.
    assert_eq!(request_loop_wait_ms(1000, 3000, 500), 250);
}
