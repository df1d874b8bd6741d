use rsnano_node::wallet_actions::WalletActionQueue;

#[test]
fn groups_come_out_lowest_amount_first() {
    let mut q = WalletActionQueue::new();
    q.queue_wallet_action(30, "c");
    q.queue_wallet_action(10, "a");
    q.queue_wallet_action(20, "b");
    assert_eq!(q.len(), 3);
    assert_eq!(q.pop_first(), Some((10, vec!["a"])));
    assert_eq!(q.pop_first(), Some((20, vec!["b"])));
    assert_eq!(q.pop_first(), Some((30, vec!["c"])));
    assert_eq!(q.pop_first(), None);
}

#[test]
fn actions_of_one_amount_stay_in_order() {
    let mut q = WalletActionQueue::new();
    q.queue_wallet_action(5, 1);
    q.queue_wallet_action(7, 9);
    q.queue_wallet_action(5, 2);
    q.queue_wallet_action(5, 3);
    assert_eq!(q.len(), 2);
    assert_eq!(q.pop_first(), Some((5, vec![1, 2, 3])));
    assert_eq!(q.pop_first(), Some((7, vec![9])));
}

#[test]
fn stop_drops_waiting_actions() {
    let mut q = WalletActionQueue::new();
    q.queue_wallet_action(1, ());
    assert!(!q.is_stopped_now());
    q.stop();
    assert!(q.is_stopped_now());
    assert_eq!(q.len(), 0);
    assert_eq!(q.pop_first(), None);
}
