//! Scanning the ledger for accounts to bootstrap: the accounts with blocks and the
//! accounts with receivable blocks, each walked in account order in batches, over and
//! over.

use vstd::prelude::*;
use crate::numbers::{Account, BlockHash, Hash256};

verus! {

/// The number of accounts each walk hands out per refill.
pub const BATCH_SIZE: usize = 512;

pub open spec fn ascending(s: Seq<Account>) -> bool {
    forall|i: int, j: int| 0 <= i < j < s.len() ==> s[i].spec_lt(s[j])
}

/// The account after `a`, or zero after the highest.
pub open spec fn inc_or_zero(a: Account) -> Account {
    if a.lo < u128::MAX {
        Hash256 { hi: a.hi, lo: (a.lo + 1) as u128 }
    } else if a.hi < u128::MAX {
        Hash256 { hi: (a.hi + 1) as u128, lo: 0 }
    } else {
        Hash256 { hi: 0, lo: 0 }
    }
}

pub(crate) fn inc(a: &Account) -> (r: Account)
    ensures
        r == inc_or_zero(*a),
{
    if a.lo < u128::MAX {
        Hash256 { hi: a.hi, lo: a.lo + 1 }
    } else if a.hi < u128::MAX {
        Hash256 { hi: a.hi + 1, lo: 0 }
    } else {
        Hash256::zero()
    }
}

/// `p` is the first position at or after `next`.
pub open spec fn is_from(s: Seq<Account>, next: Account, p: int) -> bool {
    &&& 0 <= p <= s.len()
    &&& forall|i: int| 0 <= i < p ==> (#[trigger] s[i]).spec_lt(next)
    &&& (p == s.len() || !s[p].spec_lt(next))
}

pub open spec fn from_position(s: Seq<Account>, next: Account) -> int {
    choose|p: int| is_from(s, next, p)
}

/// The accounts at or after `next`, in order.
pub open spec fn accounts_from(s: Seq<Account>, next: Account) -> Seq<Account> {
    s.skip(from_position(s, next))
}

/// The batch a walk hands out from `next`: up to `batch_size` accounts at or after it.
pub open spec fn walk_batch(s: Seq<Account>, next: Account, batch_size: nat) -> Seq<Account> {
    let rest = accounts_from(s, next);
    if rest.len() > batch_size { rest.take(batch_size as int) } else { rest }
}

/// Where a walk continues after handing out a batch from `next`.
pub open spec fn next_after(s: Seq<Account>, next: Account, batch_size: nat) -> Account {
    let rest = accounts_from(s, next);
    if rest.len() > batch_size {
        if batch_size > 0 { inc_or_zero(rest[batch_size - 1]) } else { next }
    } else {
        Hash256 { hi: 0, lo: 0 }
    }
}

/// Whether handing out a batch from `next` completes a round.
pub open spec fn completes_round(s: Seq<Account>, next: Account, batch_size: nat) -> bool {
    accounts_from(s, next).len() <= batch_size
}

/// The first position at or after `i` whose account is not below `next`.
spec fn first_not_below(s: Seq<Account>, next: Account, i: int) -> int
    decreases s.len() - i,
{
    if i >= s.len() || i < 0 {
        s.len() as int
    } else if s[i].spec_lt(next) {
        first_not_below(s, next, i + 1)
    } else {
        i
    }
}

proof fn lemma_first_not_below(s: Seq<Account>, next: Account, i: int)
    requires
        0 <= i <= s.len(),
        forall|j: int| 0 <= j < i ==> (#[trigger] s[j]).spec_lt(next),
    ensures
        is_from(s, next, first_not_below(s, next, i)),
    decreases s.len() - i,
{
    if i < s.len() && s[i].spec_lt(next) {
        lemma_first_not_below(s, next, i + 1);
    }
}

/// Only one position is the first at or after a given account.
pub proof fn lemma_is_from_unique(s: Seq<Account>, next: Account, p: int, q: int)
    requires
        is_from(s, next, p),
        is_from(s, next, q),
    ensures
        p == q,
{
    if q < p {
        assert(s[q].spec_lt(next));
    }
    if p < q {
        assert(s[p].spec_lt(next));
    }
}

/// The position the accounts at or after `next` start from is well defined.
pub proof fn lemma_from_position(s: Seq<Account>, next: Account)
    ensures
        is_from(s, next, from_position(s, next)),
{
    lemma_first_not_below(s, next, 0);
}

/// A round starts at the first account: every account is at or after zero.
pub proof fn lemma_round_starts_at_first_account(s: Seq<Account>)
    ensures
        accounts_from(s, Hash256 { hi: 0, lo: 0 }) == s,
{
    let zero = Hash256 { hi: 0, lo: 0 };
    assert(is_from(s, zero, 0));
    lemma_from_position(s, zero);
    lemma_is_from_unique(s, zero, 0, from_position(s, zero));
    assert(s.skip(0) =~= s);
}

/// A walk over ordered accounts skips and repeats nothing: when a batch does not
/// complete the round, the batch followed by the accounts from where the walk continues
/// are exactly the accounts from where the batch started.
pub proof fn lemma_walk_continues_after_batch(s: Seq<Account>, next: Account, batch_size: nat)
    requires
        ascending(s),
        batch_size > 0,
        !completes_round(s, next, batch_size),
    ensures
        walk_batch(s, next, batch_size) + accounts_from(s, next_after(s, next, batch_size))
            == accounts_from(s, next),
{
    lemma_from_position(s, next);
    let p = from_position(s, next);
    let b = batch_size as int;
    let x = s[p + b - 1];
    let y = s[p + b];
    assert(x.spec_lt(y));
    let n2 = inc_or_zero(x);
    assert(accounts_from(s, next)[b - 1] == x);
    assert(next_after(s, next, batch_size) == n2);
    assert forall|i: int| 0 <= i < p + b implies (#[trigger] s[i]).spec_lt(n2) by {
        if i < p + b - 1 {
            assert(s[i].spec_lt(x));
        }
    }
    assert(is_from(s, n2, p + b));
    lemma_from_position(s, n2);
    lemma_is_from_unique(s, n2, p + b, from_position(s, n2));
    assert(s.skip(p).take(b) + s.skip(p + b) =~= s.skip(p));
}

/// A walk over an ordered list of accounts: each batch continues where the last one
/// stopped; a batch that reaches the end completes a round and the next starts over.
pub struct AccountWalk {
    next: Account,
    completed: usize,
}

impl AccountWalk {
    pub closed spec fn next_account(&self) -> Account { self.next }
    pub closed spec fn completed(&self) -> nat { self.completed as nat }

    pub fn new() -> (r: Self)
        ensures
            r.next_account() == (Hash256 { hi: 0, lo: 0 }),
            r.completed() == 0,
    {
        AccountWalk { next: Hash256::zero(), completed: 0 }
    }

    /// How many rounds were completed.
    pub fn completed_rounds(&self) -> (r: usize)
        ensures
            r == self.completed(),
    {
        self.completed
    }

    /// Whether a round was completed.
    pub fn warmed_up(&self) -> (r: bool)
        ensures
            r == (self.completed() > 0),
    {
        self.completed > 0
    }

    /// The next batch of up to `batch_size` accounts of the ordered list. When more are
    /// left, the walk continues after the last one handed out; otherwise the round is
    /// complete and the walk starts over.
    pub fn next_batch(&mut self, accounts: &Vec<Account>, batch_size: usize) -> (r: Vec<Account>)
        requires
            ascending(accounts@),
            old(self).completed() < usize::MAX,
        ensures
            r@ == walk_batch(accounts@, old(self).next_account(), batch_size as nat),
            ({
                let rest = accounts_from(accounts@, old(self).next_account());
                if rest.len() > batch_size {
                    &&& r@ == rest.take(batch_size as int)
                    &&& final(self).next_account() == (if batch_size > 0 {
                        inc_or_zero(rest[batch_size - 1])
                    } else {
                        old(self).next_account()
                    })
                    &&& final(self).completed() == old(self).completed()
                } else {
                    &&& r@ == rest
                    &&& final(self).next_account() == (Hash256 { hi: 0, lo: 0 })
                    &&& final(self).completed() == old(self).completed() + 1
                }
            }),
    {
        let ghost s = accounts@;
        let mut p: usize = 0;
        while p < accounts.len() && accounts[p].less_than(&self.next)
            invariant
                s == accounts@,
                p <= s.len(),
                forall|i: int| 0 <= i < p ==> (#[trigger] s[i]).spec_lt(old(self).next),
                self.next == old(self).next,
            decreases s.len() - p,
        {
            p = p + 1;
        }
        proof {
            let q = from_position(s, self.next);
            assert(is_from(s, self.next, p as int));
            assert(is_from(s, self.next, q));
            if q < p { assert(s[q].spec_lt(self.next)); }
            if p < q { assert(s[p as int].spec_lt(self.next)); }
        }
        let ghost rest = s.skip(p as int);
        let mut result: Vec<Account> = Vec::new();
        let mut i: usize = p;
        while i < accounts.len() && result.len() < batch_size
            invariant
                s == accounts@,
                rest == s.skip(p as int),
                p <= i <= s.len(),
                result@ == s.subrange(p as int, i as int),
                result@.len() <= batch_size,
            decreases s.len() - i,
        {
            result.push(accounts[i]);
            i = i + 1;
        }
        if i < accounts.len() {
            assert(result@ =~= rest.take(batch_size as int));
            if i > p {
                self.next = inc(&accounts[i - 1]);
            }
        } else {
            assert(result@ =~= rest);
            self.next = Hash256::zero();
            self.completed = self.completed + 1;
        }
        result
    }
}

/// A receivable entry: the receiving account and the hash of the send block.
pub type PendingKey = (Account, BlockHash);

/// Receivable entries are ordered by account, then by send block hash.
pub open spec fn key_lt(a: PendingKey, b: PendingKey) -> bool {
    a.0.spec_lt(b.0) || (a.0 == b.0 && a.1.spec_lt(b.1))
}

pub open spec fn keys_ascending(k: Seq<PendingKey>) -> bool {
    forall|i: int, j: int| 0 <= i < j < k.len() ==> key_lt(k[i], k[j])
}

/// The receiving accounts of the entries, each once, in order.
pub open spec fn receiving_accounts(k: Seq<PendingKey>) -> Seq<Account>
    decreases k.len(),
{
    if k.len() == 0 {
        Seq::empty()
    } else {
        let prev = receiving_accounts(k.drop_last());
        if prev.len() > 0 && prev.last() == k.last().0 { prev } else { prev.push(k.last().0) }
    }
}

pub open spec fn is_max_account(a: Account) -> bool {
    a.hi == u128::MAX && a.lo == u128::MAX
}

/// How many entries the highest possible account receives.
pub open spec fn max_account_entries(k: Seq<PendingKey>) -> nat
    decreases k.len(),
{
    if k.len() == 0 {
        0
    } else {
        max_account_entries(k.drop_last()) + if is_max_account(k.last().0) { 1nat } else { 0nat }
    }
}

/// The receivable walk steps over an account's entries a few at a time and looks the next
/// account up afresh when more are left; after the highest possible account that lookup
/// starts over at the first entry. So with more entries for that account than the steps
/// taken, the walk goes round and round.
pub open spec fn wraps(k: Seq<PendingKey>) -> bool {
    max_account_entries(k) > PENDING_SEQUENTIAL_ATTEMPTS
}

/// Entries of one account stepped over before looking the next account up.
pub const PENDING_SEQUENTIAL_ATTEMPTS: usize = 10;

/// Position `j` steps round the list of length `len` from `p`.
pub open spec fn round_position(len: int, p: int, j: nat) -> int
    decreases j,
{
    if j == 0 {
        p
    } else {
        let prev = round_position(len, p, (j - 1) as nat);
        if prev + 1 == len { 0 } else { prev + 1 }
    }
}

/// `n` accounts going round the list from position `p`.
pub open spec fn round_batch(d: Seq<Account>, p: int, n: nat) -> Seq<Account> {
    Seq::new(n, |j: int| d[round_position(d.len() as int, p, j as nat)])
}

/// The batch the receivable walk hands out from `next`.
pub open spec fn pending_batch(k: Seq<PendingKey>, next: Account, batch_size: nat) -> Seq<Account> {
    let d = receiving_accounts(k);
    if wraps(k) { round_batch(d, from_position(d, next), batch_size) } else { walk_batch(d, next, batch_size) }
}

/// Where the receivable walk continues after a batch from `next`.
pub open spec fn pending_next_after(k: Seq<PendingKey>, next: Account, batch_size: nat) -> Account {
    if wraps(k) {
        if batch_size > 0 { inc_or_zero(pending_batch(k, next, batch_size).last()) } else { next }
    } else {
        next_after(receiving_accounts(k), next, batch_size)
    }
}

/// Whether a batch of the receivable walk completes a round.
pub open spec fn pending_completes_round(k: Seq<PendingKey>, next: Account, batch_size: nat) -> bool {
    !wraps(k) && completes_round(receiving_accounts(k), next, batch_size)
}

/// The receivable walk hands out each receiving account once per round: the receiving
/// accounts are in account order, without repeats, and are exactly the accounts of the
/// entries.
pub proof fn lemma_receiving_accounts(k: Seq<PendingKey>)
    requires
        keys_ascending(k),
    ensures
        ascending(receiving_accounts(k)),
        k.len() > 0 ==> receiving_accounts(k).len() > 0 && receiving_accounts(k).last() == k.last().0,
        forall|i: int| 0 <= i < k.len() ==> receiving_accounts(k).contains(#[trigger] k[i].0),
        forall|i: int| 0 <= i < receiving_accounts(k).len()
            ==> exists|j: int| 0 <= j < k.len() && k[j].0 == #[trigger] receiving_accounts(k)[i],
    decreases k.len(),
{
    if k.len() > 0 {
        let d = k.drop_last();
        assert(keys_ascending(d));
        lemma_receiving_accounts(d);
        let prev = receiving_accounts(d);
        let l = k.last();
        let r = receiving_accounts(k);
        if d.len() > 0 {
            assert(key_lt(d.last(), l));
        }
        assert forall|i: int| 0 <= i < k.len() implies r.contains(#[trigger] k[i].0) by {
            if i < k.len() - 1 {
                assert(d[i] == k[i]);
                assert(prev.contains(d[i].0));
                let t = choose|t: int| 0 <= t < prev.len() && prev[t] == d[i].0;
                assert(r[t] == prev[t]);
            } else {
                assert(r[r.len() - 1] == l.0);
            }
        }
        assert forall|i: int| 0 <= i < r.len() implies exists|j: int| 0 <= j < k.len() && k[j].0 == #[trigger] r[i] by {
            if i < prev.len() {
                assert(r[i] == prev[i]);
                let j = choose|j: int| 0 <= j < d.len() && d[j].0 == prev[i];
                assert(k[j] == d[j]);
            } else {
                assert(k[k.len() - 1].0 == r[i]);
            }
        }
        if !(prev.len() > 0 && prev.last() == l.0) {
            assert forall|i: int, j: int| 0 <= i < j < r.len() implies r[i].spec_lt(r[j]) by {
                if j == prev.len() && i < prev.len() - 1 {
                    assert(prev[i].spec_lt(prev[prev.len() - 1]));
                }
            }
        }
    }
}

/// The receivable walk: each batch hands out receiving accounts, each once, from where
/// the last batch stopped.
pub struct PendingWalk {
    walk: AccountWalk,
}

impl PendingWalk {
    pub closed spec fn next_account(&self) -> Account { self.walk.next_account() }
    pub closed spec fn completed(&self) -> nat { self.walk.completed() }

    pub fn new() -> (r: Self)
        ensures
            r.next_account() == (Hash256 { hi: 0, lo: 0 }),
            r.completed() == 0,
    {
        PendingWalk { walk: AccountWalk::new() }
    }

    /// How many rounds were completed.
    pub fn completed_rounds(&self) -> (r: usize)
        ensures
            r == self.completed(),
    {
        self.walk.completed_rounds()
    }

    /// Whether a round was completed.
    pub fn warmed_up(&self) -> (r: bool)
        ensures
            r == (self.completed() > 0),
    {
        self.walk.warmed_up()
    }

    /// The next batch of up to `batch_size` receiving accounts of the receivable entries
    /// (ordered by account, then by send block hash).
    pub fn next_batch(&mut self, keys: &Vec<PendingKey>, batch_size: usize) -> (r: Vec<Account>)
        requires
            keys_ascending(keys@),
            old(self).completed() < usize::MAX,
        ensures
            r@ == pending_batch(keys@, old(self).next_account(), batch_size as nat),
            final(self).next_account() == pending_next_after(keys@, old(self).next_account(), batch_size as nat),
            final(self).completed() == old(self).completed()
                + if pending_completes_round(keys@, old(self).next_account(), batch_size as nat) { 1nat } else { 0nat },
    {
        let ghost k = keys@;
        let mut d: Vec<Account> = Vec::new();
        let mut max_entries: usize = 0;
        let mut i: usize = 0;
        while i < keys.len()
            invariant
                k == keys@,
                keys_ascending(k),
                i <= k.len(),
                d@ == receiving_accounts(k.take(i as int)),
                max_entries == max_account_entries(k.take(i as int)),
                max_entries <= i,
            decreases k.len() - i,
        {
            let a = keys[i].0;
            proof {
                assert(k.take(i + 1).drop_last() =~= k.take(i as int));
                assert(keys_ascending(k.take(i as int)));
                lemma_receiving_accounts(k.take(i as int));
            }
            if d.len() == 0 || !d[d.len() - 1].equals(&a) {
                d.push(a);
            }
            if a.hi == u128::MAX && a.lo == u128::MAX {
                max_entries = max_entries + 1;
            }
            i = i + 1;
        }
        proof {
            assert(k.take(k.len() as int) =~= k);
            lemma_receiving_accounts(k);
        }
        if max_entries <= PENDING_SEQUENTIAL_ATTEMPTS {
            return self.walk.next_batch(&d, batch_size);
        }
        // The highest account is among the receiving accounts, so the walk starts inside
        // the list and goes round it.
        let ghost dd = d@;
        proof {
            lemma_max_entry_exists(k);
            let j = choose|j: int| 0 <= j < k.len() && is_max_account(k[j].0);
            assert(dd.contains(k[j].0));
        }
        let next = self.walk.next;
        let mut p: usize = 0;
        while p < d.len() && d[p].less_than(&next)
            invariant
                dd == d@,
                p <= dd.len(),
                forall|t: int| 0 <= t < p ==> (#[trigger] dd[t]).spec_lt(next),
            decreases dd.len() - p,
        {
            p = p + 1;
        }
        proof {
            assert(is_from(dd, next, p as int));
            lemma_from_position(dd, next);
            lemma_is_from_unique(dd, next, p as int, from_position(dd, next));
            if p == dd.len() {
                let t = choose|t: int| 0 <= t < dd.len() && is_max_account(dd[t]);
                assert(dd[t].spec_lt(next));
            }
        }
        let mut result: Vec<Account> = Vec::new();
        let mut idx: usize = p;
        let mut j: usize = 0;
        while j < batch_size
            invariant
                dd == d@,
                p < dd.len(),
                j <= batch_size,
                0 <= idx < dd.len(),
                idx == round_position(dd.len() as int, p as int, j as nat),
                result@ == round_batch(dd, p as int, j as nat),
            decreases batch_size - j,
        {
            result.push(d[idx]);
            assert(result@ =~= round_batch(dd, p as int, (j + 1) as nat));
            idx = if idx == d.len() - 1 { 0 } else { idx + 1 };
            j = j + 1;
        }
        if batch_size > 0 {
            self.walk.next = inc(&result[batch_size - 1]);
        }
        result
    }
}

proof fn lemma_max_entry_exists(k: Seq<PendingKey>)
    requires
        max_account_entries(k) > 0,
    ensures
        exists|j: int| 0 <= j < k.len() && is_max_account(k[j].0),
    decreases k.len(),
{
    if k.len() > 0 && !is_max_account(k.last().0) {
        lemma_max_entry_exists(k.drop_last());
        let j = choose|j: int| 0 <= j < k.len() - 1 && is_max_account(k.drop_last()[j].0);
        assert(k[j] == k.drop_last()[j]);
    } else if k.len() > 0 {
        assert(is_max_account(k[k.len() - 1].0));
    }
}

/// The scan: a queue of accounts refilled from both walks.
pub struct DatabaseScan {
    queue: Vec<Account>,
    accounts_iterator: AccountWalk,
    pending_iterator: PendingWalk,
}

impl DatabaseScan {
    /// Accounts waiting to be handed out, oldest first.
    pub closed spec fn queue(&self) -> Seq<Account> { self.queue@ }
    pub closed spec fn accounts_walk(&self) -> AccountWalk { self.accounts_iterator }
    pub closed spec fn pending_walk(&self) -> PendingWalk { self.pending_iterator }

    pub fn new() -> (r: Self)
        ensures
            r.queue().len() == 0,
            r.accounts_walk().completed() == 0,
            r.pending_walk().completed() == 0,
    {
        DatabaseScan { queue: Vec::new(), accounts_iterator: AccountWalk::new(), pending_iterator: PendingWalk::new() }
    }

    /// Both walks completed a round.
    pub fn warmed_up(&self) -> (r: bool)
        ensures
            r == (self.accounts_walk().completed() > 0 && self.pending_walk().completed() > 0),
    {
        self.accounts_iterator.warmed_up() && self.pending_iterator.warmed_up()
    }

    /// Refills the queue with the next batch of each walk: `accounts` lists the accounts
    /// with blocks in order, `pending` the receivable entries in key order.
    pub fn fill(&mut self, accounts: &Vec<Account>, pending: &Vec<PendingKey>)
        requires
            ascending(accounts@),
            keys_ascending(pending@),
            old(self).accounts_walk().completed() < usize::MAX,
            old(self).pending_walk().completed() < usize::MAX,
        ensures
            final(self).queue() == old(self).queue()
                + walk_batch(accounts@, old(self).accounts_walk().next_account(), BATCH_SIZE as nat)
                + pending_batch(pending@, old(self).pending_walk().next_account(), BATCH_SIZE as nat),
            final(self).accounts_walk().next_account() == next_after(accounts@, old(self).accounts_walk().next_account(), BATCH_SIZE as nat),
            final(self).accounts_walk().completed() == old(self).accounts_walk().completed()
                + if completes_round(accounts@, old(self).accounts_walk().next_account(), BATCH_SIZE as nat) { 1nat } else { 0nat },
            final(self).pending_walk().next_account() == pending_next_after(pending@, old(self).pending_walk().next_account(), BATCH_SIZE as nat),
            final(self).pending_walk().completed() == old(self).pending_walk().completed()
                + if pending_completes_round(pending@, old(self).pending_walk().next_account(), BATCH_SIZE as nat) { 1nat } else { 0nat },
    {
        let set1 = self.accounts_iterator.next_batch(accounts, BATCH_SIZE);
        let set2 = self.pending_iterator.next_batch(pending, BATCH_SIZE);
        let ghost q0 = self.queue@;
        let ghost ai = self.accounts_iterator;
        let ghost pi = self.pending_iterator;
        let mut i: usize = 0;
        while i < set1.len()
            invariant
                self.accounts_iterator == ai,
                self.pending_iterator == pi,
                self.queue@ == q0 + set1@.take(i as int),
                i <= set1@.len(),
            decreases set1@.len() - i,
        {
            self.queue.push(set1[i]);
            assert(set1@.take(i + 1) =~= set1@.take(i as int).push(set1@[i as int]));
            assert(q0 + set1@.take(i + 1) =~= (q0 + set1@.take(i as int)).push(set1@[i as int]));
            i = i + 1;
        }
        assert(set1@.take(set1@.len() as int) =~= set1@);
        let ghost q1 = self.queue@;
        let mut j: usize = 0;
        while j < set2.len()
            invariant
                self.accounts_iterator == ai,
                self.pending_iterator == pi,
                self.queue@ == q1 + set2@.take(j as int),
                j <= set2@.len(),
            decreases set2@.len() - j,
        {
            self.queue.push(set2[j]);
            assert(set2@.take(j + 1) =~= set2@.take(j as int).push(set2@[j as int]));
            assert(q1 + set2@.take(j + 1) =~= (q1 + set2@.take(j as int)).push(set2@[j as int]));
            j = j + 1;
        }
        assert(set2@.take(set2@.len() as int) =~= set2@);
        assert(self.queue@ == q0 + set1@ + set2@);
    }
}

/// The filter turned down the first `k` queued accounts.
pub open spec fn turned_down<F: Fn(Account) -> bool>(filter: F, q: Seq<Account>, k: int) -> bool {
    forall|j: int| 0 <= j < k ==> #[trigger] filter.ensures((q[j],), false)
}

/// The scan stopped at position `k` of the queue `q`: the filter turned down every
/// account before it and accepted the one at `k` (which is returned, the queue keeping
/// what follows), or `k` is the end (zero is returned, the queue is empty).
pub open spec fn scan_outcome<F: Fn(Account) -> bool>(filter: F, q: Seq<Account>, k: int, r: Account, after: Seq<Account>) -> bool {
    &&& 0 <= k <= q.len()
    &&& turned_down(filter, q, k)
    &&& if k < q.len() {
        filter.ensures((q[k],), true) && r == q[k] && after == q.skip(k + 1)
    } else {
        r == (Hash256 { hi: 0, lo: 0 }) && after.len() == 0
    }
}

/// The queue a scan goes through: the one it holds, or, when that is empty, the next
/// batch of each walk.
pub open spec fn scanned_queue(queue: Seq<Account>, accounts: Seq<Account>, pending: Seq<PendingKey>,
    accounts_next: Account, pending_next: Account) -> Seq<Account> {
    if queue.len() == 0 {
        walk_batch(accounts, accounts_next, BATCH_SIZE as nat)
            + pending_batch(pending, pending_next, BATCH_SIZE as nat)
    } else {
        queue
    }
}

impl DatabaseScan {
    /// The next queued account the filter accepts, refilling the queue first when it is
    /// empty; the accounts turned down on the way leave the queue. Zero when none is
    /// accepted.
    pub fn next<F: Fn(Account) -> bool>(&mut self, filter: &F, accounts: &Vec<Account>, pending: &Vec<PendingKey>) -> (r: Account)
        requires
            forall|a: Account| #[trigger] filter.requires((a,)),
            ascending(accounts@),
            keys_ascending(pending@),
            old(self).accounts_walk().completed() < usize::MAX,
            old(self).pending_walk().completed() < usize::MAX,
        ensures
            exists|k: int| #[trigger] scan_outcome(
                *filter,
                scanned_queue(old(self).queue(), accounts@, pending@,
                    old(self).accounts_walk().next_account(), old(self).pending_walk().next_account()),
                k,
                r,
                final(self).queue(),
            ),
            old(self).queue().len() > 0 ==> final(self).accounts_walk() == old(self).accounts_walk()
                && final(self).pending_walk() == old(self).pending_walk(),
            old(self).queue().len() == 0 ==> {
                &&& final(self).accounts_walk().next_account()
                    == next_after(accounts@, old(self).accounts_walk().next_account(), BATCH_SIZE as nat)
                &&& final(self).accounts_walk().completed() == old(self).accounts_walk().completed()
                    + if completes_round(accounts@, old(self).accounts_walk().next_account(), BATCH_SIZE as nat) { 1nat } else { 0nat }
                &&& final(self).pending_walk().next_account()
                    == pending_next_after(pending@, old(self).pending_walk().next_account(), BATCH_SIZE as nat)
                &&& final(self).pending_walk().completed() == old(self).pending_walk().completed()
                    + if pending_completes_round(pending@, old(self).pending_walk().next_account(), BATCH_SIZE as nat) { 1nat } else { 0nat }
            },
    {
        if self.queue.len() == 0 {
            self.fill(accounts, pending);
            assert(self.queue@ =~= walk_batch(accounts@, old(self).accounts_walk().next_account(), BATCH_SIZE as nat)
                + pending_batch(pending@, old(self).pending_walk().next_account(), BATCH_SIZE as nat));
        }
        let ghost q = self.queue@;
        let ghost walks = (self.accounts_iterator, self.pending_iterator);
        let mut k: usize = 0;
        while k < self.queue.len()
            invariant
                q == self.queue@,
                walks == (self.accounts_iterator, self.pending_iterator),
                old(self).queue().len() > 0 ==> walks == (old(self).accounts_iterator, old(self).pending_iterator),
                old(self).queue().len() == 0 ==> {
                    &&& walks.0.next == next_after(accounts@, old(self).accounts_iterator.next, BATCH_SIZE as nat)
                    &&& walks.0.completed == old(self).accounts_iterator.completed
                        + if completes_round(accounts@, old(self).accounts_iterator.next, BATCH_SIZE as nat) { 1nat } else { 0nat }
                    &&& walks.1.next_account() == pending_next_after(pending@, old(self).pending_iterator.next_account(), BATCH_SIZE as nat)
                    &&& walks.1.completed() == old(self).pending_iterator.completed()
                        + if pending_completes_round(pending@, old(self).pending_iterator.next_account(), BATCH_SIZE as nat) { 1nat } else { 0nat }
                },
                q == scanned_queue(old(self).queue(), accounts@, pending@,
                    old(self).accounts_walk().next_account(), old(self).pending_walk().next_account()),
                k <= q.len(),
                turned_down(*filter, q, k as int),
                forall|a: Account| #[trigger] filter.requires((a,)),
            decreases q.len() - k,
        {
            let a = self.queue[k];
            let accepted = filter(a);
            if accepted {
                let mut rest: Vec<Account> = Vec::new();
                let mut j: usize = k + 1;
                while j < self.queue.len()
                    invariant
                        q == self.queue@,
                        walks == (self.accounts_iterator, self.pending_iterator),
                        k < j <= q.len(),
                        rest@ == q.subrange(k + 1, j as int),
                    decreases q.len() - j,
                {
                    rest.push(self.queue[j]);
                    j = j + 1;
                }
                assert(rest@ =~= q.skip(k + 1));
                self.queue = rest;
                assert(scan_outcome(*filter, q, k as int, a, self.queue()));
                return a;
            }
            k = k + 1;
        }
        self.queue = Vec::new();
        let z = Hash256::zero();
        assert(scan_outcome(*filter, q, q.len() as int, z, self.queue()));
        z
    }
}

} // verus!
