//! A bounded cache of how far earlier pulls of a chain got, so that a retried pull
//! resumes from the newest head instead of the one it started from.
//!
//! The cache keeps two indexes: the pulls by key, and a time index ordered by when each
//! pull was cached. An overflow evicts through the time index. Refreshing a cached pull
//! takes it out of the time index without putting it back, and a later refresh or
//! removal of such a pull looks for a time slot that may be gone; those calls are
//! excluded by the `requires` of `add` and `remove`.

use vstd::prelude::*;
use crate::numbers::{BlockHash, HashOrAccount};
use crate::clock::{instant_now, millis_since};
use std::time::Instant;

verus! {

/// Pulls that processed at most this many blocks are not cached.
pub const MIN_PROCESSED_TO_CACHE: u64 = 500;

/// The capacity of a cache made by `PullsCache::new`.
pub const DEFAULT_MAX_CACHE_SIZE: usize = 10_000;

/// A request to pull a chain: from `head` back to `end`.
#[derive(Clone, Copy, Debug, PartialEq, Eq, Structural)]
pub struct PullInfo {
    pub account_or_head: HashOrAccount,
    pub head: BlockHash,
    pub head_original: BlockHash,
    pub end: BlockHash,
    pub count: u32,
    pub attempts: u32,
    pub processed: u64,
    pub retry_limit: u32,
    pub bootstrap_id: u64,
}

/// What identifies a pull in the cache: where it started and the head it started from.
#[derive(Clone, Copy, Debug, PartialEq, Eq, Structural)]
pub struct PullKey {
    pub account_or_head: HashOrAccount,
    pub head_original: BlockHash,
}

impl PullKey {
    pub fn of(pull: &PullInfo) -> (r: Self)
        ensures
            r == key_of(*pull),
    {
        PullKey { account_or_head: pull.account_or_head, head_original: pull.head_original }
    }

    pub fn equals(&self, other: &Self) -> (r: bool)
        ensures
            r == (*self == *other),
    {
        self.account_or_head.equals(&other.account_or_head) && self.head_original.equals(&other.head_original)
    }
}

/// A cached pull: when it was cached and the head it had reached.
#[derive(Clone, Copy, Debug, PartialEq, Eq, Structural)]
pub struct CachedPull {
    pub key: PullKey,
    pub time: u64,
    pub new_head: BlockHash,
}

pub open spec fn key_of(pull: PullInfo) -> PullKey {
    PullKey { account_or_head: pull.account_or_head, head_original: pull.head_original }
}

/// The cache as plain values: the cached pulls, and the time index as (time, key)
/// pairs ordered by time, pulls cached at the same time in the order they came.
pub struct PullsModel {
    pub pulls: Seq<CachedPull>,
    pub slots: Seq<(u64, PullKey)>,
}

pub open spec fn has_pull(p: Seq<CachedPull>, k: PullKey) -> bool {
    exists|i: int| 0 <= i < p.len() && p[i].key == k
}

pub open spec fn pull_position(p: Seq<CachedPull>, k: PullKey) -> int {
    choose|i: int| 0 <= i < p.len() && p[i].key == k
}

/// Some cached pull has its time slot at `time`.
pub open spec fn has_slot(t: Seq<(u64, PullKey)>, time: u64) -> bool {
    exists|i: int| 0 <= i < t.len() && t[i].0 == time
}

pub open spec fn slotted(t: Seq<(u64, PullKey)>, k: PullKey) -> bool {
    exists|i: int| 0 <= i < t.len() && t[i].1 == k
}

pub open spec fn slot_position(t: Seq<(u64, PullKey)>, k: PullKey) -> int {
    choose|i: int| 0 <= i < t.len() && t[i].1 == k
}

/// `j` is the last of the slots that share the oldest time.
pub open spec fn is_oldest_last(t: Seq<(u64, PullKey)>, j: int) -> bool {
    &&& 0 <= j < t.len()
    &&& t[j].0 == t[0].0
    &&& (j + 1 == t.len() || t[j + 1].0 != t[0].0)
}

/// The slot an overflow evicts.
pub open spec fn oldest_last(t: Seq<(u64, PullKey)>) -> int {
    choose|j: int| is_oldest_last(t, j)
}

/// `p` is where a slot made at `time` goes: after every slot made no later.
pub open spec fn is_slot_insert_position(t: Seq<(u64, PullKey)>, time: u64, p: int) -> bool {
    &&& 0 <= p <= t.len()
    &&& forall|i: int| 0 <= i < p ==> (#[trigger] t[i]).0 <= time
    &&& forall|i: int| p <= i < t.len() ==> (#[trigger] t[i]).0 > time
}

pub open spec fn slot_insert_position(t: Seq<(u64, PullKey)>, time: u64) -> int {
    choose|p: int| is_slot_insert_position(t, time, p)
}

/// The slot stands for a cached pull with the same key and time.
pub open spec fn slot_backed(p: Seq<CachedPull>, e: (u64, PullKey)) -> bool {
    exists|j: int| 0 <= j < p.len() && p[j].key == e.1 && p[j].time == e.0
}

pub open spec fn model_wf(m: PullsModel, max: nat) -> bool {
    &&& forall|i: int, j: int| 0 <= i < j < m.pulls.len() ==> m.pulls[i].key != m.pulls[j].key
    &&& forall|i: int, j: int| 0 <= i < j < m.slots.len() ==> m.slots[i].1 != m.slots[j].1
    &&& forall|i: int, j: int| 0 <= i < j < m.slots.len() ==> m.slots[i].0 <= m.slots[j].0
    &&& forall|i: int| 0 <= i < m.slots.len() ==> slot_backed(m.pulls, #[trigger] m.slots[i])
    &&& m.pulls.len() <= max
}

/// Evicting the last of the oldest slots and its pull.
pub open spec fn model_evict(m: PullsModel) -> PullsModel {
    let j = oldest_last(m.slots);
    let k = m.slots[j].1;
    PullsModel { pulls: m.pulls.remove(pull_position(m.pulls, k)), slots: m.slots.remove(j) }
}

/// Caching the pull at `now`: a cached pull with the same key is refreshed and leaves the
/// time index; a new one is appended and gets a slot.
pub open spec fn model_upsert(m: PullsModel, pull: PullInfo, now: u64) -> PullsModel {
    let k = key_of(pull);
    let c = CachedPull { key: k, time: now, new_head: pull.head };
    if has_pull(m.pulls, k) {
        PullsModel {
            pulls: m.pulls.update(pull_position(m.pulls, k), c),
            slots: if slotted(m.slots, k) { m.slots.remove(slot_position(m.slots, k)) } else { m.slots },
        }
    } else {
        PullsModel { pulls: m.pulls.push(c), slots: m.slots.insert(slot_insert_position(m.slots, now), (now, k)) }
    }
}

/// The state before the upsert of `add`: one eviction when the cache is full.
pub open spec fn model_cleaned(m: PullsModel, max: nat) -> PullsModel {
    if m.pulls.len() >= max { model_evict(m) } else { m }
}

pub open spec fn model_after_add(m: PullsModel, max: nat, pull: PullInfo, now: u64) -> PullsModel {
    if pull.processed <= MIN_PROCESSED_TO_CACHE {
        m
    } else {
        model_upsert(model_cleaned(m, max), pull, now)
    }
}

/// The inputs on which adding aborts: a full cache with an empty time index, or a
/// refresh of a pull whose time slot is gone.
pub open spec fn add_aborts(m: PullsModel, max: nat, pull: PullInfo) -> bool {
    let k = key_of(pull);
    let c = model_cleaned(m, max);
    &&& pull.processed > MIN_PROCESSED_TO_CACHE
    &&& ((m.pulls.len() >= max && m.slots.len() == 0)
        || (has_pull(c.pulls, k) && !has_slot(c.slots, c.pulls[pull_position(c.pulls, k)].time)))
}

pub open spec fn model_remove(m: PullsModel, k: PullKey) -> PullsModel {
    if has_pull(m.pulls, k) {
        PullsModel {
            pulls: m.pulls.remove(pull_position(m.pulls, k)),
            slots: if slotted(m.slots, k) { m.slots.remove(slot_position(m.slots, k)) } else { m.slots },
        }
    } else {
        m
    }
}

/// The inputs on which removing aborts: the pull is cached but its time slot is gone.
pub open spec fn remove_aborts(m: PullsModel, k: PullKey) -> bool {
    has_pull(m.pulls, k) && !has_slot(m.slots, m.pulls[pull_position(m.pulls, k)].time)
}

proof fn lemma_pull_position(p: Seq<CachedPull>, k: PullKey, i: int)
    requires
        forall|a: int, b: int| 0 <= a < b < p.len() ==> p[a].key != p[b].key,
        0 <= i < p.len(),
        p[i].key == k,
    ensures
        has_pull(p, k),
        pull_position(p, k) == i,
{
    let q = pull_position(p, k);
    if q != i {
        if q < i { assert(p[q].key != p[i].key); } else { assert(p[i].key != p[q].key); }
    }
}

proof fn lemma_slot_position(t: Seq<(u64, PullKey)>, k: PullKey, i: int)
    requires
        forall|a: int, b: int| 0 <= a < b < t.len() ==> t[a].1 != t[b].1,
        0 <= i < t.len(),
        t[i].1 == k,
    ensures
        slotted(t, k),
        slot_position(t, k) == i,
{
    let q = slot_position(t, k);
    if q != i {
        if q < i { assert(t[q].1 != t[i].1); } else { assert(t[i].1 != t[q].1); }
    }
}

/// A slot's pull is the cached pull with its key, and has its time.
proof fn lemma_slot_pull(m: PullsModel, max: nat, i: int)
    requires
        model_wf(m, max),
        0 <= i < m.slots.len(),
    ensures
        has_pull(m.pulls, m.slots[i].1),
        m.pulls[pull_position(m.pulls, m.slots[i].1)].time == m.slots[i].0,
{
    assert(slot_backed(m.pulls, m.slots[i]));
    let j = choose|j: int| 0 <= j < m.pulls.len() && m.pulls[j].key == m.slots[i].1 && m.pulls[j].time == m.slots[i].0;
    lemma_pull_position(m.pulls, m.slots[i].1, j);
}

proof fn lemma_oldest_last(t: Seq<(u64, PullKey)>, j: int)
    requires
        forall|a: int, b: int| 0 <= a < b < t.len() ==> t[a].0 <= t[b].0,
        is_oldest_last(t, j),
    ensures
        oldest_last(t) == j,
{
    let q = oldest_last(t);
    assert(is_oldest_last(t, q));
    if q < j {
        assert(t[0].0 <= t[q + 1].0 && t[q + 1].0 <= t[j].0);
    } else if j < q {
        assert(t[0].0 <= t[j + 1].0 && t[j + 1].0 <= t[q].0);
    }
}

proof fn lemma_insert_position(t: Seq<(u64, PullKey)>, time: u64, p: int)
    requires
        is_slot_insert_position(t, time, p),
    ensures
        slot_insert_position(t, time) == p,
{
    let q = slot_insert_position(t, time);
    assert(is_slot_insert_position(t, time, q));
    if q < p {
        assert(t[q].0 <= time);
    } else if p < q {
        assert(t[p].0 <= time);
    }
}

proof fn lemma_evict_wf(m: PullsModel, max: nat)
    requires
        model_wf(m, max),
        m.slots.len() > 0,
        is_oldest_last(m.slots, oldest_last(m.slots)),
    ensures
        model_wf(model_evict(m), max),
        model_evict(m).pulls.len() + 1 == m.pulls.len(),
{
    let j = oldest_last(m.slots);
    let k = m.slots[j].1;
    lemma_slot_pull(m, max, j);
    let q = pull_position(m.pulls, k);
    let r = model_evict(m);
    assert forall|a: int, b: int| 0 <= a < b < r.pulls.len() implies r.pulls[a].key != r.pulls[b].key by {
        let a2 = if a < q { a } else { a + 1 };
        let b2 = if b < q { b } else { b + 1 };
        assert(r.pulls[a] == m.pulls[a2] && r.pulls[b] == m.pulls[b2]);
    }
    assert forall|a: int, b: int| 0 <= a < b < r.slots.len() implies r.slots[a].1 != r.slots[b].1 && r.slots[a].0 <= r.slots[b].0 by {
        let a2 = if a < j { a } else { a + 1 };
        let b2 = if b < j { b } else { b + 1 };
        assert(r.slots[a] == m.slots[a2] && r.slots[b] == m.slots[b2]);
    }
    assert forall|i: int| 0 <= i < r.slots.len() implies slot_backed(r.pulls, #[trigger] r.slots[i]) by {
        let i2 = if i < j { i } else { i + 1 };
        assert(r.slots[i] == m.slots[i2]);
        assert(m.slots[i2].1 != k) by {
            if i2 < j { assert(m.slots[i2].1 != m.slots[j].1); } else { assert(m.slots[j].1 != m.slots[i2].1); }
        }
        assert(slot_backed(m.pulls, m.slots[i2]));
        let w = choose|w: int| 0 <= w < m.pulls.len() && m.pulls[w].key == m.slots[i2].1 && m.pulls[w].time == m.slots[i2].0;
        assert(w != q);
        let w2 = if w < q { w } else { w - 1 };
        assert(r.pulls[w2] == m.pulls[w]);
    }
}

proof fn lemma_upsert_wf(m: PullsModel, max: nat, pull: PullInfo, now: u64)
    requires
        model_wf(m, max),
        has_pull(m.pulls, key_of(pull)) || m.pulls.len() < max,
        !has_pull(m.pulls, key_of(pull)) ==> is_slot_insert_position(m.slots, now, slot_insert_position(m.slots, now)),
    ensures
        model_wf(model_upsert(m, pull, now), max),
        has_pull(model_upsert(m, pull, now).pulls, key_of(pull)),
        model_upsert(m, pull, now).pulls[pull_position(model_upsert(m, pull, now).pulls, key_of(pull))].new_head == pull.head,
{
    let k = key_of(pull);
    let c = CachedPull { key: k, time: now, new_head: pull.head };
    let r = model_upsert(m, pull, now);
    if has_pull(m.pulls, k) {
        let q = pull_position(m.pulls, k);
        assert forall|a: int, b: int| 0 <= a < b < r.pulls.len() implies r.pulls[a].key != r.pulls[b].key by {
            assert(m.pulls[q].key == k);
        }
        lemma_pull_position(r.pulls, k, q);
        let t2 = r.slots;
        if slotted(m.slots, k) {
            let s = slot_position(m.slots, k);
            assert forall|a: int, b: int| 0 <= a < b < t2.len() implies t2[a].1 != t2[b].1 && t2[a].0 <= t2[b].0 by {
                let a2 = if a < s { a } else { a + 1 };
                let b2 = if b < s { b } else { b + 1 };
                assert(t2[a] == m.slots[a2] && t2[b] == m.slots[b2]);
            }
            assert forall|i: int| 0 <= i < t2.len() implies slot_backed(r.pulls, #[trigger] t2[i]) by {
                let i2 = if i < s { i } else { i + 1 };
                assert(t2[i] == m.slots[i2]);
                assert(m.slots[i2].1 != k) by {
                    if i2 < s { assert(m.slots[i2].1 != m.slots[s].1); } else { assert(m.slots[s].1 != m.slots[i2].1); }
                }
                assert(slot_backed(m.pulls, m.slots[i2]));
                let w = choose|w: int| 0 <= w < m.pulls.len() && m.pulls[w].key == m.slots[i2].1 && m.pulls[w].time == m.slots[i2].0;
                assert(r.pulls[w] == m.pulls[w]);
            }
        } else {
            assert forall|i: int| 0 <= i < t2.len() implies slot_backed(r.pulls, #[trigger] t2[i]) by {
                assert(t2[i].1 != k);
                assert(slot_backed(m.pulls, m.slots[i]));
                let w = choose|w: int| 0 <= w < m.pulls.len() && m.pulls[w].key == m.slots[i].1 && m.pulls[w].time == m.slots[i].0;
                assert(r.pulls[w] == m.pulls[w]);
            }
        }
    } else {
        let n = m.pulls.len() as int;
        let p = slot_insert_position(m.slots, now);
        assert forall|a: int, b: int| 0 <= a < b < r.pulls.len() implies r.pulls[a].key != r.pulls[b].key by {
            if b == n {
                assert(r.pulls[a] == m.pulls[a]);
            }
        }
        lemma_pull_position(r.pulls, k, n);
        let t2 = r.slots;
        assert(!slotted(m.slots, k)) by {
            if slotted(m.slots, k) {
                let s = choose|s: int| 0 <= s < m.slots.len() && m.slots[s].1 == k;
                assert(slot_backed(m.pulls, m.slots[s]));
            }
        }
        assert forall|a: int, b: int| 0 <= a < b < t2.len() implies t2[a].1 != t2[b].1 && t2[a].0 <= t2[b].0 by {
            let a2 = if a < p { a } else { a - 1 };
            let b2 = if b < p { b } else { b - 1 };
            if a == p {
                assert(t2[b] == m.slots[b2]);
                assert(m.slots[b2].1 != k);
            } else if b == p {
                assert(t2[a] == m.slots[a2]);
                assert(m.slots[a2].1 != k);
            } else {
                assert(t2[a] == m.slots[a2] && t2[b] == m.slots[b2]);
            }
        }
        assert forall|i: int| 0 <= i < t2.len() implies slot_backed(r.pulls, #[trigger] t2[i]) by {
            if i == p {
                assert(r.pulls[n] == c);
            } else {
                let i2 = if i < p { i } else { i - 1 };
                assert(t2[i] == m.slots[i2]);
                assert(slot_backed(m.pulls, m.slots[i2]));
                let w = choose|w: int| 0 <= w < m.pulls.len() && m.pulls[w].key == m.slots[i2].1 && m.pulls[w].time == m.slots[i2].0;
                assert(r.pulls[w] == m.pulls[w]);
            }
        }
    }
}

proof fn lemma_remove_wf(m: PullsModel, max: nat, k: PullKey)
    requires
        model_wf(m, max),
    ensures
        model_wf(model_remove(m, k), max),
        !has_pull(model_remove(m, k).pulls, k),
{
    let r = model_remove(m, k);
    if has_pull(m.pulls, k) {
        let q = pull_position(m.pulls, k);
        assert forall|a: int, b: int| 0 <= a < b < r.pulls.len() implies r.pulls[a].key != r.pulls[b].key by {
            let a2 = if a < q { a } else { a + 1 };
            let b2 = if b < q { b } else { b + 1 };
            assert(r.pulls[a] == m.pulls[a2] && r.pulls[b] == m.pulls[b2]);
        }
        assert(!has_pull(r.pulls, k)) by {
            if has_pull(r.pulls, k) {
                let a = choose|a: int| 0 <= a < r.pulls.len() && r.pulls[a].key == k;
                let a2 = if a < q { a } else { a + 1 };
                assert(r.pulls[a] == m.pulls[a2]);
                if a2 < q { assert(m.pulls[a2].key != m.pulls[q].key); } else { assert(m.pulls[q].key != m.pulls[a2].key); }
            }
        }
        let t2 = r.slots;
        if slotted(m.slots, k) {
            let s = slot_position(m.slots, k);
            assert forall|a: int, b: int| 0 <= a < b < t2.len() implies t2[a].1 != t2[b].1 && t2[a].0 <= t2[b].0 by {
                let a2 = if a < s { a } else { a + 1 };
                let b2 = if b < s { b } else { b + 1 };
                assert(t2[a] == m.slots[a2] && t2[b] == m.slots[b2]);
            }
            assert forall|i: int| 0 <= i < t2.len() implies slot_backed(r.pulls, #[trigger] t2[i]) by {
                let i2 = if i < s { i } else { i + 1 };
                assert(t2[i] == m.slots[i2]);
                assert(m.slots[i2].1 != k) by {
                    if i2 < s { assert(m.slots[i2].1 != m.slots[s].1); } else { assert(m.slots[s].1 != m.slots[i2].1); }
                }
                assert(slot_backed(m.pulls, m.slots[i2]));
                let w = choose|w: int| 0 <= w < m.pulls.len() && m.pulls[w].key == m.slots[i2].1 && m.pulls[w].time == m.slots[i2].0;
                let w2 = if w < q { w } else { w - 1 };
                assert(r.pulls[w2] == m.pulls[w]);
            }
        } else {
            assert forall|i: int| 0 <= i < t2.len() implies slot_backed(r.pulls, #[trigger] t2[i]) by {
                assert(t2[i].1 != k);
                assert(slot_backed(m.pulls, m.slots[i]));
                let w = choose|w: int| 0 <= w < m.pulls.len() && m.pulls[w].key == m.slots[i].1 && m.pulls[w].time == m.slots[i].0;
                let w2 = if w < q { w } else { w - 1 };
                assert(r.pulls[w2] == m.pulls[w]);
            }
        }
    }
}

proof fn lemma_oldest_last_exists(t: Seq<(u64, PullKey)>, j: int)
    requires
        0 <= j < t.len(),
        t[j].0 == t[0].0,
    ensures
        is_oldest_last(t, oldest_last(t)),
    decreases t.len() - j,
{
    if j + 1 == t.len() || t[j + 1].0 != t[0].0 {
        assert(is_oldest_last(t, j));
    } else {
        lemma_oldest_last_exists(t, j + 1);
    }
}

proof fn lemma_insert_position_exists(t: Seq<(u64, PullKey)>, time: u64, p: int)
    requires
        forall|a: int, b: int| 0 <= a < b < t.len() ==> t[a].0 <= t[b].0,
        0 <= p <= t.len(),
        forall|i: int| 0 <= i < p ==> (#[trigger] t[i]).0 <= time,
    ensures
        is_slot_insert_position(t, time, slot_insert_position(t, time)),
    decreases t.len() - p,
{
    if p == t.len() {
        assert(is_slot_insert_position(t, time, p));
    } else if t[p].0 > time {
        assert forall|i: int| p <= i < t.len() implies (#[trigger] t[i]).0 > time by {
            if i > p { assert(t[p].0 <= t[i].0); }
        }
        assert(is_slot_insert_position(t, time, p));
    } else {
        lemma_insert_position_exists(t, time, p + 1);
    }
}

/// Adding a pull that processed enough blocks caches it: the cache stays within its
/// capacity, and the pull is then found with the head it reached.
pub proof fn lemma_add_caches_pull(m: PullsModel, max: nat, pull: PullInfo, now: u64)
    requires
        model_wf(m, max),
        pull.processed > MIN_PROCESSED_TO_CACHE,
        !add_aborts(m, max, pull),
    ensures
        model_wf(model_after_add(m, max, pull, now), max),
        model_after_add(m, max, pull, now).pulls.len() <= max,
        has_pull(model_after_add(m, max, pull, now).pulls, key_of(pull)),
        model_after_add(m, max, pull, now).pulls[pull_position(model_after_add(m, max, pull, now).pulls, key_of(pull))].new_head
            == pull.head,
{
    let c = model_cleaned(m, max);
    if m.pulls.len() >= max {
        lemma_oldest_last_exists(m.slots, 0);
        lemma_evict_wf(m, max);
    }
    assert(model_wf(c, max));
    if !has_pull(c.pulls, key_of(pull)) {
        lemma_insert_position_exists(c.slots, now, 0);
    }
    lemma_upsert_wf(c, max, pull, now);
}

/// Adding a pull that processed too few blocks changes nothing.
pub proof fn lemma_small_pulls_are_ignored(m: PullsModel, max: nat, pull: PullInfo, now: u64)
    requires
        pull.processed <= MIN_PROCESSED_TO_CACHE,
    ensures
        model_after_add(m, max, pull, now) == m,
{
}

/// Removing a pull drops it and keeps every other cached pull.
pub proof fn lemma_remove_drops_only_that_pull(m: PullsModel, max: nat, k: PullKey, other: PullKey)
    requires
        model_wf(m, max),
        other != k,
    ensures
        model_wf(model_remove(m, k), max),
        !has_pull(model_remove(m, k).pulls, k),
        has_pull(model_remove(m, k).pulls, other) == has_pull(m.pulls, other),
{
    lemma_remove_wf(m, max, k);
    let r = model_remove(m, k);
    if has_pull(m.pulls, k) {
        let q = pull_position(m.pulls, k);
        if has_pull(m.pulls, other) {
            let w = choose|w: int| 0 <= w < m.pulls.len() && m.pulls[w].key == other;
            assert(w != q);
            let w2 = if w < q { w } else { w - 1 };
            assert(r.pulls[w2] == m.pulls[w]);
        }
        if has_pull(r.pulls, other) {
            let w = choose|w: int| 0 <= w < r.pulls.len() && r.pulls[w].key == other;
            let w2 = if w < q { w } else { w + 1 };
            assert(r.pulls[w] == m.pulls[w2]);
        }
    }
}

/// A bounded cache of pulls that got far, keyed by where they started.
pub struct PullsCache {
    max_cache_size: usize,
    entries: Vec<CachedPull>,
    by_time: Vec<(u64, PullKey)>,
    /// Times are counted in milliseconds from this reading of the monotonic clock.
    epoch: Instant,
}

impl PullsCache {
    pub closed spec fn model(&self) -> PullsModel {
        PullsModel { pulls: self.entries@, slots: self.by_time@ }
    }

    pub closed spec fn max_size(&self) -> nat {
        self.max_cache_size as nat
    }

    pub open spec fn wf(&self) -> bool {
        model_wf(self.model(), self.max_size())
    }

    /// An empty cache for up to `DEFAULT_MAX_CACHE_SIZE` pulls.
    pub fn new() -> (r: Self)
        ensures
            r.wf(),
            r.model().pulls.len() == 0,
            r.model().slots.len() == 0,
            r.max_size() == DEFAULT_MAX_CACHE_SIZE,
    {
        Self::with_max_cache_size(DEFAULT_MAX_CACHE_SIZE)
    }

    /// An empty cache for up to `max_cache_size` pulls.
    pub fn with_max_cache_size(max_cache_size: usize) -> (r: Self)
        ensures
            r.wf(),
            r.model().pulls.len() == 0,
            r.model().slots.len() == 0,
            r.max_size() == max_cache_size,
    {
        PullsCache { max_cache_size, entries: Vec::new(), by_time: Vec::new(), epoch: instant_now() }
    }

    /// The number of cached pulls.
    pub fn size(&self) -> (r: usize)
        ensures
            r == self.model().pulls.len(),
    {
        self.entries.len()
    }

    fn find_pull(&self, k: &PullKey) -> (r: Option<usize>)
        requires
            self.wf(),
        ensures
            match r {
                Some(i) => i < self.model().pulls.len() && self.model().pulls[i as int].key == *k
                    && has_pull(self.model().pulls, *k) && pull_position(self.model().pulls, *k) == i,
                None => !has_pull(self.model().pulls, *k),
            },
    {
        let mut i: usize = 0;
        while i < self.entries.len()
            invariant
                self.wf(),
                i <= self.entries@.len(),
                forall|j: int| 0 <= j < i ==> (#[trigger] self.entries@[j]).key != *k,
            decreases self.entries@.len() - i,
        {
            if self.entries[i].key.equals(k) {
                proof { lemma_pull_position(self.entries@, *k, i as int); }
                return Some(i);
            }
            i = i + 1;
        }
        None
    }

    fn find_slot(&self, k: &PullKey) -> (r: Option<usize>)
        requires
            self.wf(),
        ensures
            match r {
                Some(i) => i < self.model().slots.len() && self.model().slots[i as int].1 == *k
                    && slotted(self.model().slots, *k) && slot_position(self.model().slots, *k) == i,
                None => !slotted(self.model().slots, *k),
            },
    {
        let mut i: usize = 0;
        while i < self.by_time.len()
            invariant
                self.wf(),
                i <= self.by_time@.len(),
                forall|j: int| 0 <= j < i ==> (#[trigger] self.by_time@[j]).1 != *k,
            decreases self.by_time@.len() - i,
        {
            if self.by_time[i].1.equals(k) {
                proof {
                    let m = self.model();
                    assert(m.slots == self.by_time@);
                    lemma_slot_position(m.slots, *k, i as int);
                }
                return Some(i);
            }
            i = i + 1;
        }
        None
    }

    fn slot_exists(&self, time: u64) -> (r: bool)
        ensures
            r == has_slot(self.model().slots, time),
    {
        let mut i: usize = 0;
        while i < self.by_time.len()
            invariant
                i <= self.by_time@.len(),
                forall|j: int| 0 <= j < i ==> (#[trigger] self.by_time@[j]).0 != time,
            decreases self.by_time@.len() - i,
        {
            if self.by_time[i].0 == time {
                return true;
            }
            i = i + 1;
        }
        false
    }

    fn oldest_last_index(&self) -> (r: usize)
        requires
            self.wf(),
            self.model().slots.len() > 0,
        ensures
            is_oldest_last(self.model().slots, r as int),
            oldest_last(self.model().slots) == r,
    {
        let t0 = self.by_time[0].0;
        let n = self.by_time.len();
        let mut j: usize = 0;
        while j + 1 < n && self.by_time[j + 1].0 == t0
            invariant
                n == self.by_time@.len(),
                j < n,
                self.by_time@[j as int].0 == t0,
                t0 == self.by_time@[0].0,
            decreases self.by_time@.len() - j,
        {
            j = j + 1;
        }
        proof {
            let m = self.model();
            assert(m.slots == self.by_time@);
            lemma_oldest_last(m.slots, j as int);
        }
        j
    }

    fn insert_position(&self, time: u64) -> (r: usize)
        requires
            self.wf(),
        ensures
            is_slot_insert_position(self.model().slots, time, r as int),
            slot_insert_position(self.model().slots, time) == r,
    {
        let mut p: usize = 0;
        while p < self.by_time.len() && self.by_time[p].0 <= time
            invariant
                p <= self.by_time@.len(),
                forall|i: int| 0 <= i < p ==> (#[trigger] self.by_time@[i]).0 <= time,
            decreases self.by_time@.len() - p,
        {
            p = p + 1;
        }
        proof {
            let m = self.model();
            let t = self.by_time@;
            assert(m.slots == t);
            assert forall|i: int| p <= i < t.len() implies (#[trigger] t[i]).0 > time by {
                assert(t[p as int].0 > time);
                if i > p { assert(t[p as int].0 <= t[i].0); }
            }
            lemma_insert_position(t, time, p as int);
        }
        p
    }

    /// Whether a pull with the same start is cached.
    pub fn contains(&self, pull: &PullInfo) -> (r: bool)
        requires
            self.wf(),
        ensures
            r == has_pull(self.model().pulls, key_of(*pull)),
    {
        self.find_pull(&PullKey::of(pull)).is_some()
    }

    /// Lets the pull resume from the head its cached counterpart reached.
    pub fn update_pull(&self, pull: &mut PullInfo)
        requires
            self.wf(),
        ensures
            has_pull(self.model().pulls, key_of(*old(pull))) ==> *final(pull) == (PullInfo {
                head: self.model().pulls[pull_position(self.model().pulls, key_of(*old(pull)))].new_head,
                ..*old(pull)
            }),
            !has_pull(self.model().pulls, key_of(*old(pull))) ==> *final(pull) == *old(pull),
    {
        let k = PullKey::of(pull);
        match self.find_pull(&k) {
            Some(i) => {
                pull.head = self.entries[i].new_head;
            },
            None => {},
        }
    }

    fn evict_oldest(&mut self)
        requires
            old(self).wf(),
            old(self).model().slots.len() > 0,
        ensures
            final(self).wf(),
            final(self).model() == model_evict(old(self).model()),
            final(self).max_size() == old(self).max_size(),
            final(self).model().pulls.len() + 1 == old(self).model().pulls.len(),
    {
        let j = self.oldest_last_index();
        let k = self.by_time[j].1;
        proof {
            lemma_slot_pull(self.model(), self.max_size(), j as int);
            lemma_evict_wf(self.model(), self.max_size());
        }
        match self.find_pull(&k) {
            Some(q) => {
                self.by_time.remove(j);
                self.entries.remove(q);
            },
            None => {},
        }
    }

    /// Caches the pull as made at time `now`, if it processed more than
    /// `MIN_PROCESSED_TO_CACHE` blocks. A full cache first evicts the last of its oldest
    /// pulls.
    pub fn add_at(&mut self, pull: &PullInfo, now: u64)
        requires
            old(self).wf(),
            !add_aborts(old(self).model(), old(self).max_size(), *pull),
        ensures
            final(self).wf(),
            final(self).max_size() == old(self).max_size(),
            final(self).model() == model_after_add(old(self).model(), old(self).max_size(), *pull, now),
    {
        if pull.processed <= MIN_PROCESSED_TO_CACHE {
            return;
        }
        let ghost m0 = self.model();
        if self.entries.len() >= self.max_cache_size {
            self.evict_oldest();
        }
        assert(self.model() == model_cleaned(m0, self.max_size()));
        let k = PullKey::of(pull);
        let c = CachedPull { key: k, time: now, new_head: pull.head };
        match self.find_pull(&k) {
            Some(q) => {
                let old_time = self.entries[q].time;
                let present = self.slot_exists(old_time);
                assert(present);
                proof { lemma_upsert_wf(self.model(), self.max_size(), *pull, now); }
                let slot = self.find_slot(&k);
                self.entries.set(q, c);
                match slot {
                    Some(s) => {
                        self.by_time.remove(s);
                    },
                    None => {},
                }
            },
            None => {
                let p = self.insert_position(now);
                proof { lemma_upsert_wf(self.model(), self.max_size(), *pull, now); }
                self.entries.push(c);
                self.by_time.insert(p, (now, k));
            },
        }
    }

    /// Caches the pull as made now, on the monotonic clock.
    pub fn add(&mut self, pull: &PullInfo)
        requires
            old(self).wf(),
            !add_aborts(old(self).model(), old(self).max_size(), *pull),
        ensures
            final(self).wf(),
            final(self).max_size() == old(self).max_size(),
            exists|now: u64| final(self).model() == model_after_add(old(self).model(), old(self).max_size(), *pull, now),
    {
        let now = millis_since(&self.epoch);
        self.add_at(pull, now);
    }

    /// Drops the cached pull with the same start, if there is one.
    pub fn remove(&mut self, pull: &PullInfo)
        requires
            old(self).wf(),
            !remove_aborts(old(self).model(), key_of(*pull)),
        ensures
            final(self).wf(),
            final(self).max_size() == old(self).max_size(),
            final(self).model() == model_remove(old(self).model(), key_of(*pull)),
    {
        let k = PullKey::of(pull);
        proof { lemma_remove_wf(self.model(), self.max_size(), k); }
        match self.find_pull(&k) {
            Some(q) => {
                let time = self.entries[q].time;
                let present = self.slot_exists(time);
                assert(present);
                let slot = self.find_slot(&k);
                self.entries.remove(q);
                match slot {
                    Some(s) => {
                        self.by_time.remove(s);
                    },
                    None => {},
                }
            },
            None => {},
        }
    }
}

} // verus!
