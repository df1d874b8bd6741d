use rsnano_node::numbers::Hash256;
use rsnano_node::wallet_representatives::WalletRepresentatives;

#[test]
fn account_below_minimum_is_no_representative() {
    let mut reps = WalletRepresentatives::new(100);
    assert!(!reps.check_rep(Hash256::from_u128(1), 99, 1000));
    assert_eq!(reps.voting_reps(), 0);
    assert!(!reps.exists_rep(&Hash256::from_u128(1)));
    assert!(!reps.have_half_rep());
}

#[test]
fn representatives_are_counted_once() {
    let mut reps = WalletRepresentatives::new(100);
    assert!(reps.check_rep(Hash256::from_u128(1), 100, 1000));
    assert!(!reps.check_rep(Hash256::from_u128(1), 500, 1000));
    assert!(reps.check_rep(Hash256::from_u128(2), 200, 1000));
    assert_eq!(reps.voting_reps(), 2);
    assert!(reps.exists_rep(&Hash256::from_u128(2)));
    assert!(!reps.have_half_rep());
}

#[test]
fn half_principal_weight_is_noticed_even_for_known_reps() {
    let mut reps = WalletRepresentatives::new(100);
    assert!(reps.check_rep(Hash256::from_u128(1), 100, 1000));
    assert!(!reps.check_rep(Hash256::from_u128(1), 1000, 1000));
    assert!(reps.have_half_rep());
    reps.clear();
    assert_eq!(reps.voting_reps(), 0);
    assert!(!reps.have_half_rep());
    assert!(!reps.exists_rep(&Hash256::from_u128(1)));
}
