//! Backlog population: walking the ledger's accounts in chunks and picking those with
//! unconfirmed blocks for activation. The walk is paced by the caller; each chunk is
//! decided here.

use vstd::prelude::*;
use crate::config::BacklogPopulationConfig;
use crate::database_scan::{
    accounts_from, ascending, from_position, inc, inc_or_zero, is_from, lemma_from_position,
    lemma_is_from_unique, lemma_walk_continues_after_batch, next_after, walk_batch,
};
use crate::numbers::{Account, Hash256};

verus! {

/// What the walk reads of one account of the ledger.
#[derive(Clone, Copy, Debug, PartialEq, Eq)]
pub struct BacklogAccount {
    pub account: Account,
    /// Number of blocks of the account.
    pub block_count: u64,
    /// Height up to which its blocks are confirmed (zero when none is).
    pub confirmed_height: u64,
}

/// The accounts of a list of ledger entries, in the same order.
pub open spec fn account_keys(s: Seq<BacklogAccount>) -> Seq<Account> {
    s.map_values(|e: BacklogAccount| e.account)
}

/// An account has a backlog when some of its blocks are not confirmed.
pub open spec fn has_backlog(e: BacklogAccount) -> bool {
    e.confirmed_height < e.block_count
}

/// The accounts with a backlog among `s`, in order.
pub open spec fn backlogged(s: Seq<BacklogAccount>) -> Seq<Account>
    decreases s.len(),
{
    if s.len() == 0 {
        Seq::empty()
    } else {
        let prev = backlogged(s.drop_last());
        if has_backlog(s.last()) { prev.push(s.last().account) } else { prev }
    }
}

/// The entries a chunk goes through: up to `chunk_size` of those at or after `next`.
pub open spec fn chunk_entries(s: Seq<BacklogAccount>, next: Account, chunk_size: nat) -> Seq<BacklogAccount> {
    let rest = s.skip(from_position(account_keys(s), next));
    if rest.len() > chunk_size { rest.take(chunk_size as int) } else { rest }
}

/// Where the walk goes on after a chunk: after the last account it went through, or
/// where it was when it went through none.
pub open spec fn chunk_next(s: Seq<BacklogAccount>, next: Account, chunk_size: nat) -> Account {
    let entries = chunk_entries(s, next, chunk_size);
    if entries.len() > 0 { inc_or_zero(entries.last().account) } else { next }
}

/// The walk is done when it wrapped around to zero or no account is left after it.
pub open spec fn walk_done(s: Seq<BacklogAccount>, next: Account) -> bool {
    next.is_zero_spec() || accounts_from(account_keys(s), next).len() == 0
}

/// The outcome of one chunk of the walk.
pub struct BacklogChunk {
    /// The accounts to activate, in order.
    pub activate: Vec<Account>,
    /// How many accounts the chunk went through.
    pub scanned: usize,
    /// Where the next chunk starts.
    pub next: Account,
    /// Whether the walk is over.
    pub done: bool,
}

/// Accounts per chunk: the accounts per second divided by the chunks per second.
pub fn chunk_size(config: &BacklogPopulationConfig) -> (r: u32)
    requires
        config.frequency > 0,
    ensures
        r == config.batch_size / config.frequency,
{
    config.batch_size / config.frequency
}

/// The pause after each chunk, in milliseconds.
pub fn chunk_interval_ms(config: &BacklogPopulationConfig) -> (r: u64)
    requires
        config.frequency > 0,
    ensures
        r == 1000int / (config.frequency as int),
{
    1000 / (config.frequency as u64)
}

/// Whether the population thread runs a walk: when triggered by hand, or when ongoing
/// population is enabled.
pub fn should_populate(triggered: bool, config: &BacklogPopulationConfig) -> (r: bool)
    ensures
        r == (triggered || config.enabled),
{
    triggered || config.enabled
}

/// Whether an account is activated: some of its blocks are not confirmed.
pub fn needs_activation(entry: &BacklogAccount) -> (r: bool)
    ensures
        r == has_backlog(*entry),
{
    entry.confirmed_height < entry.block_count
}

/// The first position of the ledger entries whose account is at or after `next`.
fn position_from(accounts: &Vec<BacklogAccount>, next: &Account) -> (r: usize)
    ensures
        r == from_position(account_keys(accounts@), *next),
        r <= accounts@.len(),
{
    let ghost keys = account_keys(accounts@);
    let mut p: usize = 0;
    while p < accounts.len() && accounts[p].account.less_than(next)
        invariant
            keys == account_keys(accounts@),
            p <= accounts@.len(),
            forall|i: int| 0 <= i < p ==> (#[trigger] keys[i]).spec_lt(*next),
        decreases accounts@.len() - p,
    {
        p = p + 1;
    }
    proof {
        assert(is_from(keys, *next, p as int));
        lemma_from_position(keys, *next);
        lemma_is_from_unique(keys, *next, p as int, from_position(keys, *next));
    }
    p
}

/// One chunk of the backlog walk over the ledger's accounts (in account order): goes
/// through up to `chunk_size` accounts at or after `next`, picks those with unconfirmed
/// blocks, and says where the walk goes on and whether it is over.
pub fn backlog_chunk(accounts: &Vec<BacklogAccount>, next: Account, chunk_size: u32) -> (r: BacklogChunk)
    requires
        ascending(account_keys(accounts@)),
    ensures
        r.activate@ == backlogged(chunk_entries(accounts@, next, chunk_size as nat)),
        r.scanned == chunk_entries(accounts@, next, chunk_size as nat).len(),
        r.next == chunk_next(accounts@, next, chunk_size as nat),
        r.done == walk_done(accounts@, r.next),
{
    let ghost s = accounts@;
    let p = position_from(accounts, &next);
    let ghost rest = s.skip(p as int);
    let mut activate: Vec<Account> = Vec::new();
    let mut new_next = next;
    let mut count: u32 = 0;
    let mut i: usize = p;
    assert(s.subrange(p as int, p as int).len() == 0);
    while i < accounts.len() && count < chunk_size
        invariant
            s == accounts@,
            rest == s.skip(p as int),
            p <= i <= s.len(),
            count == i - p,
            count <= chunk_size,
            activate@ == backlogged(s.subrange(p as int, i as int)),
            new_next == (if i > p { inc_or_zero(s[i - 1].account) } else { next }),
        decreases s.len() - i,
    {
        let e = accounts[i];
        proof {
            assert(s.subrange(p as int, i + 1).drop_last() =~= s.subrange(p as int, i as int));
        }
        if needs_activation(&e) {
            activate.push(e.account);
        }
        new_next = inc(&e.account);
        count = count + 1;
        i = i + 1;
    }
    proof {
        let entries = chunk_entries(s, next, chunk_size as nat);
        assert(entries =~= s.subrange(p as int, i as int));
    }
    let done = if new_next.is_zero() {
        true
    } else {
        let q = position_from(accounts, &new_next);
        q == accounts.len()
    };
    BacklogChunk { activate, scanned: i - p, next: new_next, done }
}

/// Chunk by chunk the walk goes through every account once: when accounts are left after
/// a chunk, the chunk followed by the entries from where the walk goes on are exactly the
/// entries from where the chunk started.
pub proof fn lemma_chunks_continue(s: Seq<BacklogAccount>, next: Account, chunk_size: nat)
    requires
        ascending(account_keys(s)),
        chunk_size > 0,
        s.skip(from_position(account_keys(s), next)).len() > chunk_size,
    ensures
        chunk_entries(s, next, chunk_size)
            + s.skip(from_position(account_keys(s), chunk_next(s, next, chunk_size)))
            == s.skip(from_position(account_keys(s), next)),
{
    let keys = account_keys(s);
    lemma_from_position(keys, next);
    let p = from_position(keys, next);
    let c = chunk_size as int;
    assert(keys.skip(p).len() > chunk_size);
    lemma_walk_continues_after_batch(keys, next, chunk_size);
    let n2 = chunk_next(s, next, chunk_size);
    assert(chunk_entries(s, next, chunk_size).last() == s[p + c - 1]);
    assert(n2 == next_after(keys, next, chunk_size));
    lemma_from_position(keys, n2);
    let p2 = from_position(keys, n2);
    assert(walk_batch(keys, next, chunk_size).len() == c);
    assert(p2 == p + c);
    assert(s.skip(p).take(c) + s.skip(p + c) =~= s.skip(p));
}

/// A chunk that goes through the last remaining account finishes the walk.
pub proof fn lemma_last_chunk_finishes_walk(s: Seq<BacklogAccount>, next: Account, chunk_size: nat)
    requires
        ascending(account_keys(s)),
        0 < s.skip(from_position(account_keys(s), next)).len() <= chunk_size,
    ensures
        walk_done(s, chunk_next(s, next, chunk_size)),
{
    let keys = account_keys(s);
    lemma_from_position(keys, next);
    let p = from_position(keys, next);
    let last = keys[s.len() - 1];
    let n2 = chunk_next(s, next, chunk_size);
    assert(chunk_entries(s, next, chunk_size).last() == s[s.len() - 1]);
    assert(n2 == inc_or_zero(last));
    if !n2.is_zero_spec() {
        assert forall|i: int| 0 <= i < keys.len() implies (#[trigger] keys[i]).spec_lt(n2) by {
            if i < keys.len() - 1 {
                assert(keys[i].spec_lt(last));
            }
        }
        assert(is_from(keys, n2, keys.len() as int));
        lemma_from_position(keys, n2);
        lemma_is_from_unique(keys, n2, keys.len() as int, from_position(keys, n2));
    }
}

} // verus!
