use rsnano_node::database_scan::{AccountWalk, DatabaseScan, PendingWalk, BATCH_SIZE};
use rsnano_node::numbers::Hash256;

fn account(n: u128) -> Hash256 {
    Hash256::new(n, 7)
}

/// The ledger of the account scanner's test: genesis and four more accounts, in order.
fn five_accounts() -> Vec<Hash256> {
    vec![account(1), account(2), account(3), account(4), account(5)]
}

#[test]
fn account_database_scanner() {
    let keys = five_accounts();

    // Single batch
    {
        let mut scanner = AccountWalk::new();
        let accounts = scanner.next_batch(&keys, 256);
        assert_eq!(accounts.len(), keys.len());
        for key in &keys {
            assert!(accounts.contains(key));
        }
        assert_eq!(scanner.completed_rounds(), 1);
    }

    // Multi batch
    {
        let mut scanner = AccountWalk::new();
        let accounts1 = scanner.next_batch(&keys, 2);
        let accounts2 = scanner.next_batch(&keys, 2);
        let accounts3 = scanner.next_batch(&keys, 1);

        assert_eq!(accounts1.len(), 2);
        assert_eq!(accounts2.len(), 2);
        assert_eq!(accounts3.len(), 1);

        let mut accounts = accounts1;
        accounts.extend(accounts2);
        accounts.extend(accounts3);
        for key in &keys {
            assert!(accounts.contains(key));
        }
        assert_eq!(scanner.completed_rounds(), 1);
    }
}

/// Receivable entries of the scanner test: one account with one, one with 21, and two
/// more with one each, in key order.
fn receivable_entries() -> Vec<(Hash256, Hash256)> {
    let mut keys = vec![(account(10), Hash256::new(0, 1))];
    for n in 0..21 {
        keys.push((account(20), Hash256::new(0, 100 + n)));
    }
    keys.push((account(30), Hash256::new(0, 2)));
    keys.push((account(40), Hash256::new(0, 3)));
    keys
}

#[test]
fn pending_database_scanner() {
    let keys = receivable_entries();
    let receivers = vec![account(10), account(20), account(30), account(40)];

    // Single batch
    {
        let mut scanner = PendingWalk::new();
        let accounts = scanner.next_batch(&keys, 256);
        assert_eq!(accounts.len(), 4);
        for key in &receivers {
            assert!(accounts.contains(key));
        }
        assert_eq!(scanner.completed_rounds(), 1);
    }

    // Multi batch
    {
        let mut scanner = PendingWalk::new();
        let accounts1 = scanner.next_batch(&keys, 2);
        let accounts2 = scanner.next_batch(&keys, 1);
        let accounts3 = scanner.next_batch(&keys, 1);

        assert_eq!(accounts1.len(), 2);
        assert_eq!(accounts2.len(), 1);
        assert_eq!(accounts3.len(), 1);

        let mut accounts = accounts1;
        accounts.extend(accounts2);
        accounts.extend(accounts3);
        for key in &receivers {
            assert!(accounts.contains(key));
        }
        assert_eq!(scanner.completed_rounds(), 1);
    }
}

#[test]
fn receivable_walk_goes_round_after_a_busy_highest_account() {
    let top = Hash256::new(u128::MAX, u128::MAX);
    let mut keys = vec![(account(1), Hash256::zero()), (account(2), Hash256::zero())];
    for n in 0..11 {
        keys.push((top, Hash256::new(0, n)));
    }
    let mut walk = PendingWalk::new();
    assert_eq!(walk.next_batch(&keys, 5), vec![account(1), account(2), top, account(1), account(2)]);
    assert_eq!(walk.completed_rounds(), 0);
    assert_eq!(walk.next_batch(&keys, 2), vec![top, account(1)]);
    // With ten entries or fewer the walk ends after the highest account.
    keys.pop();
    let mut walk = PendingWalk::new();
    assert_eq!(walk.next_batch(&keys, 5), vec![account(1), account(2), top]);
    assert_eq!(walk.completed_rounds(), 1);
}

#[test]
fn walks_with_an_empty_batch_make_no_progress() {
    let keys = five_accounts();
    let mut walk = AccountWalk::new();
    assert!(walk.next_batch(&keys, 0).is_empty());
    assert_eq!(walk.completed_rounds(), 0);
    assert_eq!(walk.next_batch(&keys, 1), vec![account(1)]);
    let mut pending = PendingWalk::new();
    assert!(pending.next_batch(&receivable_entries(), 0).is_empty());
    assert_eq!(pending.completed_rounds(), 0);
}

#[test]
fn walk_batches_continue_in_order_and_start_over() {
    let keys = five_accounts();
    let mut walk = AccountWalk::new();
    assert!(!walk.warmed_up());
    assert_eq!(walk.next_batch(&keys, 2), vec![account(1), account(2)]);
    assert_eq!(walk.completed_rounds(), 0);
    assert_eq!(walk.next_batch(&keys, 2), vec![account(3), account(4)]);
    assert_eq!(walk.next_batch(&keys, 2), vec![account(5)]);
    assert!(walk.warmed_up());
    // The next round starts at the first account again.
    assert_eq!(walk.next_batch(&keys, 2), vec![account(1), account(2)]);
    assert_eq!(walk.completed_rounds(), 1);
}

#[test]
fn walk_batch_that_ends_exactly_at_the_last_account_completes_the_round() {
    let keys = vec![account(1), account(2)];
    let mut walk = AccountWalk::new();
    assert_eq!(walk.next_batch(&keys, 2), keys);
    assert_eq!(walk.completed_rounds(), 1);
}

#[test]
fn walk_continues_after_the_highest_low_half() {
    let keys = vec![Hash256::new(1, u128::MAX), Hash256::new(2, 0), Hash256::new(2, 5)];
    let mut walk = AccountWalk::new();
    assert_eq!(walk.next_batch(&keys, 1), vec![Hash256::new(1, u128::MAX)]);
    assert_eq!(walk.next_batch(&keys, 1), vec![Hash256::new(2, 0)]);
    assert_eq!(walk.next_batch(&keys, 5), vec![Hash256::new(2, 5)]);
    assert_eq!(walk.completed_rounds(), 1);
}

#[test]
fn walk_over_empty_ledger_completes_a_round_each_time() {
    let mut walk = AccountWalk::new();
    assert!(walk.next_batch(&Vec::new(), 4).is_empty());
    assert!(walk.next_batch(&Vec::new(), 4).is_empty());
    assert_eq!(walk.completed_rounds(), 2);
}

#[test]
fn scan_hands_out_accounts_the_filter_accepts() {
    let accounts = vec![account(1), account(2), account(3)];
    let pending = vec![(account(2), Hash256::zero()), (account(9), Hash256::zero()), (account(9), Hash256::new(0, 1))];
    let mut scan = DatabaseScan::new();
    assert!(!scan.warmed_up());

    // The queue is filled with both batches: 1, 2, 3, 2, 9.
    assert_eq!(scan.next(&|_a: Hash256| true, &accounts, &pending), account(1));
    // Accounts turned down leave the queue.
    assert_eq!(scan.next(&|a: Hash256| a.hi == 3, &accounts, &pending), account(3));
    assert_eq!(scan.next(&|_a: Hash256| true, &accounts, &pending), account(2));
    assert_eq!(scan.next(&|_a: Hash256| true, &accounts, &pending), account(9));
    // Both walks completed their round when the queue was filled.
    assert!(scan.warmed_up());
}

#[test]
fn scan_returns_zero_when_nothing_is_accepted() {
    let accounts = vec![account(1), account(2)];
    let pending = vec![(account(5), Hash256::zero())];
    let mut scan = DatabaseScan::new();
    assert_eq!(scan.next(&|_a: Hash256| false, &accounts, &pending), Hash256::zero());
    // The queue was emptied, so the next call refills it from the start of a new round.
    assert_eq!(scan.next(&|_a: Hash256| true, &accounts, &pending), account(1));
}

#[test]
fn scan_refills_with_at_most_a_batch_from_each_walk() {
    let accounts: Vec<Hash256> = (0..(BATCH_SIZE as u128 + 3)).map(account).collect();
    let pending: Vec<(Hash256, Hash256)> = Vec::new();
    let mut scan = DatabaseScan::new();
    let mut seen = Vec::new();
    for _ in 0..BATCH_SIZE {
        seen.push(scan.next(&|_a: Hash256| true, &accounts, &pending));
    }
    assert_eq!(seen, accounts[..BATCH_SIZE].to_vec());
    // The account walk has not completed its round yet; the receivable walk has.
    assert!(!scan.warmed_up());
    assert_eq!(scan.next(&|_a: Hash256| true, &accounts, &pending), account(BATCH_SIZE as u128));
    for _ in 0..2 {
        scan.next(&|_a: Hash256| true, &accounts, &pending);
    }
    assert!(scan.warmed_up());
}
