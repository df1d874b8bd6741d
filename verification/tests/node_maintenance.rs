use rsnano_node::node_maintenance::{needs_inactivity_cleanup, HardenedConstants, PeeredRep, ONE_WEEK_NS};
use rsnano_node::numbers::Hash256;

#[test]
fn cleanup_after_a_week_without_samples() {
    let now = 10 * ONE_WEEK_NS;
    assert!(!needs_inactivity_cleanup(None, now));
    assert!(needs_inactivity_cleanup(Some(now - ONE_WEEK_NS - 1), now));
    assert!(!needs_inactivity_cleanup(Some(now - ONE_WEEK_NS), now));
    assert!(!needs_inactivity_cleanup(Some(now), now));
    assert_eq!(ONE_WEEK_NS, 604_800_000_000_000);
}

#[test]
fn peered_rep_holds_its_values() {
    let rep = PeeredRep::new(Hash256::new(1, 2), 7, 99);
    assert_eq!(rep.account, Hash256::new(1, 2));
    assert_eq!(rep.channel_id, 7);
    assert_eq!(rep.last_request, 99);
}

#[test]
fn hardened_constants_use_one_value_for_account_and_key() {
    use_constants(HardenedConstants::generate());
}

fn use_constants(c: HardenedConstants) {
    assert_eq!(c.not_an_account, c.not_an_account_key);
    let other = HardenedConstants::generate();
    // Two draws of 256 bits agreeing would take astronomically long.
    assert_ne!(c.not_an_account, other.not_an_account);
}
