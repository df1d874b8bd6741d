use rsnano_node::election::{ElectionStatus, ElectionStatusType};
use rsnano_node::numbers::Hash256;
use rsnano_node::recently_cemented::RecentlyCemented;

fn status(n: u128) -> ElectionStatus {
    ElectionStatus {
        winner: Some(Hash256::new(0, n)),
        tally: n,
        final_tally: 0,
        election_end: 0,
        election_duration: 0,
        confirmation_request_count: 0,
        block_count: 1,
        voter_count: 0,
        election_status_type: ElectionStatusType::ActiveConfirmedQuorum,
    }
}

#[test]
fn history_keeps_the_newest_statuses() {
    let mut history = RecentlyCemented::new(2);
    assert_eq!(history.count(), 0);
    history.insert(status(1));
    history.insert(status(2));
    assert_eq!(history.list(), vec![status(1), status(2)]);
    history.insert(status(3));
    assert_eq!(history.count(), 2);
    assert_eq!(history.list(), vec![status(2), status(3)]);
}

#[test]
fn history_of_size_zero_keeps_nothing() {
    let mut history = RecentlyCemented::new(0);
    history.insert(status(1));
    assert_eq!(history.count(), 0);
    assert!(history.list().is_empty());
}
