//! Decisions of the election schedulers: priority buckets and activation targets,
//! hinting thresholds, cooldowns and dependency walks, and the manual queue.

use vstd::prelude::*;
use crate::numbers::{Account, BlockHash};
use crate::election::ElectionBehavior;
use crate::vote_cache::TopEntry;

verus! {

/// The regions of balances covered by the priority buckets: `(begin, end, count)` splits
/// `[begin, end)` into `count` buckets of equal width.
pub open spec fn bucket_regions() -> Seq<(u128, u128, u128)> {
    seq![
        (0u128, 0x80000000000000000000u128, 1u128),
        (0x80000000000000000000u128, 0x10000000000000000000000u128, 1u128),
        (0x10000000000000000000000u128, 0x100000000000000000000000u128, 2u128),
        (0x100000000000000000000000u128, 0x1000000000000000000000000u128, 4u128),
        (0x1000000000000000000000000u128, 0x10000000000000000000000000u128, 8u128),
        (0x10000000000000000000000000u128, 0x100000000000000000000000000u128, 16u128),
        (0x100000000000000000000000000u128, 0x1000000000000000000000000000u128, 16u128),
        (0x1000000000000000000000000000u128, 0x10000000000000000000000000000u128, 8u128),
        (0x10000000000000000000000000000u128, 0x100000000000000000000000000000u128, 4u128),
        (0x100000000000000000000000000000u128, 0x1000000000000000000000000000000u128, 2u128),
        (0x1000000000000000000000000000000u128, 0x80000000000000000000000000000000u128, 1u128)
    ]
}

/// The minimum balances of the buckets of one region.
pub open spec fn region_minimums(begin: u128, end: u128, count: u128) -> Seq<u128> {
    Seq::new(count as nat, |i: int| (begin + i * ((end - begin) as int / count as int)) as u128)
}

/// The minimum balances of all buckets, region by region.
pub open spec fn bucket_minimums_from(regions: Seq<(u128, u128, u128)>) -> Seq<u128>
    decreases regions.len(),
{
    if regions.len() == 0 {
        Seq::empty()
    } else {
        bucket_minimums_from(regions.drop_last()) + region_minimums(regions.last().0, regions.last().1, regions.last().2)
    }
}

/// Appends the minimum balances of the buckets splitting `[begin, end)` into `count` buckets.
fn build_region(buckets: &mut Vec<u128>, begin: u128, end: u128, count: u128)
    requires
        begin < end,
        0 < count <= 16,
    ensures
        final(buckets)@ == old(buckets)@ + region_minimums(begin, end, count),
{
    let width = (end - begin) / count;
    let ghost start = buckets@;
    let mut i: u128 = 0;
    while i < count
        invariant
            i <= count <= 16,
            begin < end,
            width == (end - begin) as int / count as int,
            buckets@ =~= start + region_minimums(begin, end, count).take(i as int),
        decreases count - i,
    {
        assert(i * width <= count * width) by (nonlinear_arith)
            requires i <= count, width >= 0;
        assert(count * width <= end - begin) by (nonlinear_arith)
            requires width == (end - begin) as int / count as int, count > 0, end > begin;
        buckets.push(begin + i * width);
        i = i + 1;
    }
}

/// The minimum balances of the priority buckets, in increasing order: finer buckets where
/// most balances lie.
pub fn create_buckets() -> (r: Vec<u128>)
    ensures
        r@ == bucket_minimums_from(bucket_regions()),
{
    let mut buckets: Vec<u128> = Vec::new();
    let ghost regions = bucket_regions();
    build_region(&mut buckets, 0, 0x80000000000000000000u128, 1);
    build_region(&mut buckets, 0x80000000000000000000u128, 0x10000000000000000000000u128, 1);
    build_region(&mut buckets, 0x10000000000000000000000u128, 0x100000000000000000000000u128, 2);
    build_region(&mut buckets, 0x100000000000000000000000u128, 0x1000000000000000000000000u128, 4);
    build_region(&mut buckets, 0x1000000000000000000000000u128, 0x10000000000000000000000000u128, 8);
    build_region(&mut buckets, 0x10000000000000000000000000u128, 0x100000000000000000000000000u128, 16);
    build_region(&mut buckets, 0x100000000000000000000000000u128, 0x1000000000000000000000000000u128, 16);
    build_region(&mut buckets, 0x1000000000000000000000000000u128, 0x10000000000000000000000000000u128, 8);
    build_region(&mut buckets, 0x10000000000000000000000000000u128, 0x100000000000000000000000000000u128, 4);
    build_region(&mut buckets, 0x100000000000000000000000000000u128, 0x1000000000000000000000000000000u128, 2);
    build_region(&mut buckets, 0x1000000000000000000000000000000u128, 0x80000000000000000000000000000000u128, 1);
    proof {
        reveal_with_fuel(bucket_minimums_from, 12);
        assert(regions.take(0) =~= Seq::<(u128, u128, u128)>::empty());
    }
    assert(buckets@ =~= bucket_minimums_from(regions)) by {
        reveal_with_fuel(bucket_minimums_from, 12);
        assert(regions.drop_last().drop_last().drop_last().drop_last().drop_last().drop_last().drop_last()
            .drop_last().drop_last().drop_last().drop_last() =~= Seq::<(u128, u128, u128)>::empty());
    }
    buckets
}

/// The bucket a priority goes to: the last bucket in the run, starting after the first,
/// of buckets whose minimum balance the priority reaches; the first bucket otherwise.
pub open spec fn is_bucket_for(minimums: Seq<u128>, priority: u128, i: int) -> bool {
    &&& 0 <= i < minimums.len()
    &&& forall|k: int| 1 <= k <= i ==> minimums[k] <= priority
    &&& (i + 1 == minimums.len() || minimums[i + 1] > priority)
}

/// Finds the bucket for a priority (a balance): a bucket accepts priorities at or above
/// its minimum balance.
pub fn find_bucket(minimums: &Vec<u128>, priority: u128) -> (r: usize)
    requires
        minimums@.len() > 0,
    ensures
        is_bucket_for(minimums@, priority, r as int),
{
    let mut result: usize = 0;
    let mut i: usize = 1;
    while i < minimums.len()
        invariant
            1 <= i <= minimums@.len(),
            result == i - 1,
            forall|k: int| 1 <= k <= result ==> minimums@[k] <= priority,
        decreases minimums@.len() - i,
    {
        if minimums[i] <= priority {
            result = i;
        } else {
            return result;
        }
        i = i + 1;
    }
    result
}

/// The tally a block needs in the vote cache to be hinted: a percentage of the online weight.
pub open spec fn spec_tally_threshold(online_weight: u128, percent: u32) -> int {
    (online_weight / 100) * percent
}

pub fn tally_threshold(online_weight: u128, percent: u32) -> (r: u128)
    requires
        spec_tally_threshold(online_weight, percent) <= u128::MAX,
    ensures
        r == spec_tally_threshold(online_weight, percent),
{
    (online_weight / 100) * (percent as u128)
}

/// Whether the hinted scheduler should be woken: there is room for at least the
/// vacancy threshold percentage of its limit.
pub fn should_notify_hinted(vacancy: i64, limit: usize, vacancy_threshold_percent: u32) -> (r: bool)
    requires
        limit * vacancy_threshold_percent <= usize::MAX,
        limit * vacancy_threshold_percent / 100 <= i64::MAX,
    ensures
        r == (vacancy >= limit * vacancy_threshold_percent / 100),
{
    vacancy >= (limit * (vacancy_threshold_percent as usize) / 100) as i64
}

/// Block hashes recently handed to the hinted scheduler, with the time (in milliseconds)
/// until which they are held back.
pub struct OrderedCooldowns {
    by_hash: Vec<(BlockHash, u64)>,
}

pub open spec fn has_cooldown(s: Seq<(BlockHash, u64)>, hash: BlockHash) -> bool {
    exists|i: int| 0 <= i < s.len() && s[i].0 == hash
}

pub open spec fn cooldown_position(s: Seq<(BlockHash, u64)>, hash: BlockHash) -> int {
    choose|i: int| 0 <= i < s.len() && s[i].0 == hash
}

impl OrderedCooldowns {
    pub closed spec fn entries(&self) -> Seq<(BlockHash, u64)> {
        self.by_hash@
    }

    pub closed spec fn wf(&self) -> bool {
        forall|i: int, j: int| 0 <= i < j < self.by_hash@.len() ==> self.by_hash@[i].0 != self.by_hash@[j].0
    }

    pub fn new() -> (r: Self)
        ensures
            r.wf(),
            r.entries().len() == 0,
    {
        OrderedCooldowns { by_hash: Vec::new() }
    }

    pub fn len(&self) -> (r: usize)
        ensures
            r == self.entries().len(),
    {
        self.by_hash.len()
    }

    fn position(&self, hash: &BlockHash) -> (r: Option<usize>)
        requires
            self.wf(),
        ensures
            match r {
                Some(i) => i < self.entries().len() && self.entries()[i as int].0 == *hash
                    && cooldown_position(self.entries(), *hash) == i,
                None => !has_cooldown(self.entries(), *hash),
            },
    {
        let mut i: usize = 0;
        while i < self.by_hash.len()
            invariant
                i <= self.by_hash@.len(),
                self.wf(),
                forall|j: int| 0 <= j < i ==> (#[trigger] self.by_hash@[j]).0 != *hash,
            decreases self.by_hash@.len() - i,
        {
            if self.by_hash[i].0.equals(hash) {
                assert(has_cooldown(self.by_hash@, *hash));
                let ghost k = cooldown_position(self.by_hash@, *hash);
                assert(k == i as int) by {
                    if k != i as int && k > i as int {
                        assert(self.by_hash@[i as int].0 != self.by_hash@[k].0);
                    }
                }
                return Some(i);
            }
            i = i + 1;
        }
        None
    }

    /// The time until which the hash is held back.
    pub fn get(&self, hash: &BlockHash) -> (r: Option<u64>)
        requires
            self.wf(),
        ensures
            match r {
                Some(t) => has_cooldown(self.entries(), *hash) && t == self.entries()[cooldown_position(self.entries(), *hash)].1,
                None => !has_cooldown(self.entries(), *hash),
            },
    {
        match self.position(hash) {
            Some(i) => Some(self.by_hash[i].1),
            None => None,
        }
    }

    /// Holds the hash back until `timeout`, replacing an earlier timeout.
    pub fn insert(&mut self, hash: BlockHash, timeout: u64)
        requires
            old(self).wf(),
        ensures
            final(self).wf(),
            has_cooldown(old(self).entries(), hash) ==> final(self).entries()
                == old(self).entries().update(cooldown_position(old(self).entries(), hash), (hash, timeout)),
            !has_cooldown(old(self).entries(), hash) ==> final(self).entries() == old(self).entries().push((hash, timeout)),
    {
        let ghost before = self.by_hash@;
        match self.position(&hash) {
            Some(i) => {
                self.by_hash.set(i, (hash, timeout));
                assert forall|a: int, b: int| 0 <= a < b < self.by_hash@.len() implies self.by_hash@[a].0 != self.by_hash@[b].0 by {
                    if a == i { assert(before[i as int].0 == hash); }
                    if b == i { assert(before[i as int].0 == hash); }
                }
            },
            None => {
                self.by_hash.push((hash, timeout));
                assert forall|a: int, b: int| 0 <= a < b < self.by_hash@.len() implies self.by_hash@[a].0 != self.by_hash@[b].0 by {
                    if b == before.len() { assert(self.by_hash@[a] == before[a]); }
                }
            },
        }
    }

    /// Stops holding the hash back.
    pub fn remove(&mut self, hash: &BlockHash)
        requires
            old(self).wf(),
        ensures
            final(self).wf(),
            has_cooldown(old(self).entries(), *hash) ==> final(self).entries()
                == old(self).entries().remove(cooldown_position(old(self).entries(), *hash)),
            !has_cooldown(old(self).entries(), *hash) ==> final(self).entries() == old(self).entries(),
    {
        let ghost before = self.by_hash@;
        match self.position(hash) {
            Some(i) => {
                self.by_hash.remove(i);
                assert forall|a: int, b: int| 0 <= a < b < self.by_hash@.len() implies self.by_hash@[a].0 != self.by_hash@[b].0 by {
                    let a2 = if a < i { a } else { a + 1 };
                    let b2 = if b < i { b } else { b + 1 };
                    assert(self.by_hash@[a] == before[a2] && self.by_hash@[b] == before[b2]);
                }
            },
            None => {},
        }
    }

    /// Whether the hash is still held back at time `now`. If not, it is held back from
    /// now on for `block_cooldown` milliseconds.
    pub fn cooldown(&mut self, hash: BlockHash, now: u64, block_cooldown: u64) -> (r: bool)
        requires
            old(self).wf(),
            now + block_cooldown <= u64::MAX,
        ensures
            final(self).wf(),
            r == (has_cooldown(old(self).entries(), hash) && old(self).entries()[cooldown_position(old(self).entries(), hash)].1 > now),
            r ==> final(self).entries() == old(self).entries(),
            !r ==> has_cooldown(final(self).entries(), hash)
                && final(self).entries()[cooldown_position(final(self).entries(), hash)].1 == now + block_cooldown,
            !r ==> forall|h: BlockHash| h != hash ==> (has_cooldown(final(self).entries(), h) == has_cooldown(old(self).entries(), h)),
    {
        if let Some(timeout) = self.get(&hash) {
            if timeout > now {
                return true;
            }
            self.remove(&hash);
        }
        let ghost mid = self.by_hash@;
        self.insert(hash, now + block_cooldown);
        proof {
            let e = self.by_hash@;
            assert(e == mid.push((hash, (now + block_cooldown) as u64)));
            assert(e[mid.len() as int].0 == hash);
            let p = cooldown_position(e, hash);
            assert(p == mid.len() as int) by {
                if p != mid.len() as int {
                    assert(e[p].0 != e[mid.len() as int].0);
                }
            }
            let o = old(self).entries();
            assert forall|h: BlockHash| h != hash implies (has_cooldown(e, h) == has_cooldown(o, h)) by {
                if has_cooldown(o, h) {
                    let k = choose|k: int| 0 <= k < o.len() && o[k].0 == h;
                    if has_cooldown(o, hash) {
                        let q = cooldown_position(o, hash);
                        let k2 = if k < q { k } else { k - 1 };
                        assert(k != q);
                        assert(mid[k2] == o[k]);
                        assert(e[k2] == mid[k2]);
                    } else {
                        assert(e[k] == o[k]);
                    }
                }
                if has_cooldown(e, h) {
                    let k = choose|k: int| 0 <= k < e.len() && e[k].0 == h;
                    assert(k < mid.len());
                    if has_cooldown(o, hash) {
                        let q = cooldown_position(o, hash);
                        let k2 = if k < q { k } else { k + 1 };
                        assert(mid[k] == o[k2]);
                    } else {
                        assert(mid[k] == o[k]);
                    }
                }
            }
        }
        false
    }
}

/// The most blocks one hinted activation examines.
pub const HINTED_MAX_ITERATIONS: usize = 64;

/// What the ledger says of a block that a hinted activation examines.
pub enum HintedLookup {
    /// The ledger lacks the block.
    Missing,
    /// The block is confirmed, or on its way to being cemented.
    Confirmed,
    /// The block is unconfirmed; `dependents` are the blocks it depends on, listed when
    /// some of them are unconfirmed.
    Unconfirmed { dependents_confirmed: bool, dependents: Vec<BlockHash> },
}

/// What to do with an examined block.
#[derive(Clone, Copy, Debug, PartialEq, Eq)]
pub enum HintedAction {
    /// Nothing: the block is missing, or its unconfirmed dependents go first.
    Skip,
    /// The block is confirmed already: drop it from the vote cache.
    EraseFromVoteCache(BlockHash),
    /// Start a hinted election for the block.
    Insert(BlockHash),
}

/// A depth-first walk from a block with many cached votes down to the unconfirmed blocks
/// it depends on, starting hinted elections where the dependencies allow. Each call of
/// `next` gives a block to look up in the ledger; `handle` takes the answer.
pub struct HintedActivation {
    stack: Vec<BlockHash>,
    visited: Vec<BlockHash>,
    iterations: usize,
    check_dependents: bool,
    done: bool,
}

impl HintedActivation {
    /// Blocks waiting to be examined; the last is examined next.
    pub closed spec fn pending(&self) -> Seq<BlockHash> {
        self.stack@
    }

    /// The dependents queued so far, each once.
    pub closed spec fn visited(&self) -> Seq<BlockHash> {
        self.visited@
    }

    pub closed spec fn iterations(&self) -> nat {
        self.iterations as nat
    }

    pub closed spec fn checks_dependents(&self) -> bool {
        self.check_dependents
    }

    pub closed spec fn is_done(&self) -> bool {
        self.done
    }

    pub closed spec fn wf(&self) -> bool {
        &&& self.iterations <= HINTED_MAX_ITERATIONS
        &&& forall|i: int, j: int| 0 <= i < j < self.visited@.len() ==> self.visited@[i] != self.visited@[j]
    }

    /// A walk from `hash`. Dependents are only followed when `check_dependents` is set:
    /// a block whose cached final votes reach the quorum is started right away.
    pub fn new(hash: BlockHash, check_dependents: bool) -> (r: Self)
        ensures
            r.wf(),
            r.pending() == seq![hash],
            r.visited().len() == 0,
            r.iterations() == 0,
            r.checks_dependents() == check_dependents,
            !r.is_done(),
    {
        let mut stack = Vec::new();
        stack.push(hash);
        HintedActivation { stack, visited: Vec::new(), iterations: 0, check_dependents, done: false }
    }

    /// The next block to examine, or `None` once the stack is empty or
    /// `HINTED_MAX_ITERATIONS` blocks were examined.
    pub fn next(&mut self) -> (r: Option<BlockHash>)
        requires
            old(self).wf(),
        ensures
            final(self).wf(),
            final(self).visited() == old(self).visited(),
            final(self).checks_dependents() == old(self).checks_dependents(),
            old(self).is_done() || old(self).pending().len() == 0 ==> r is None && final(self).pending() == old(self).pending()
                && final(self).iterations() == old(self).iterations() && final(self).is_done() == old(self).is_done(),
            !old(self).is_done() && old(self).pending().len() > 0 ==> final(self).pending() == old(self).pending().drop_last(),
            !old(self).is_done() && old(self).pending().len() > 0 && old(self).iterations() >= HINTED_MAX_ITERATIONS
                ==> r is None && final(self).is_done() && final(self).iterations() == old(self).iterations(),
            !old(self).is_done() && old(self).pending().len() > 0 && old(self).iterations() < HINTED_MAX_ITERATIONS
                ==> r == Some(old(self).pending().last()) && final(self).iterations() == old(self).iterations() + 1
                    && !final(self).is_done(),
    {
        if self.done {
            return None;
        }
        match self.stack.pop() {
            Some(hash) => {
                if self.iterations >= HINTED_MAX_ITERATIONS {
                    self.done = true;
                    return None;
                }
                self.iterations = self.iterations + 1;
                Some(hash)
            },
            None => None,
        }
    }

    fn is_visited(&self, hash: &BlockHash) -> (r: bool)
        ensures
            r == self.visited().contains(*hash),
    {
        let mut i: usize = 0;
        while i < self.visited.len()
            invariant
                i <= self.visited@.len(),
                forall|j: int| 0 <= j < i ==> self.visited@[j] != *hash,
            decreases self.visited@.len() - i,
        {
            if self.visited[i].equals(hash) {
                assert(self.visited@[i as int] == *hash);
                return true;
            }
            i = i + 1;
        }
        false
    }

    /// Takes the ledger's answer for the block `next` gave. A confirmed block leaves the
    /// vote cache; an unconfirmed one with unconfirmed dependents (when those are checked)
    /// queues each nonzero dependent not queued before; any other unconfirmed block gets a
    /// hinted election.
    pub fn handle(&mut self, hash: BlockHash, lookup: HintedLookup) -> (r: HintedAction)
        requires
            old(self).wf(),
        ensures
            final(self).wf(),
            final(self).iterations() == old(self).iterations(),
            final(self).checks_dependents() == old(self).checks_dependents(),
            final(self).is_done() == old(self).is_done(),
            match lookup {
                HintedLookup::Missing => r == HintedAction::Skip && final(self).pending() == old(self).pending()
                    && final(self).visited() == old(self).visited(),
                HintedLookup::Confirmed => r == HintedAction::EraseFromVoteCache(hash)
                    && final(self).pending() == old(self).pending() && final(self).visited() == old(self).visited(),
                HintedLookup::Unconfirmed { dependents_confirmed, dependents } =>
                    if old(self).checks_dependents() && !dependents_confirmed {
                        r == HintedAction::Skip
                            && final(self).pending() == old(self).pending() + queued(old(self).visited(), dependents@)
                            && final(self).visited() == old(self).visited() + queued(old(self).visited(), dependents@)
                    } else {
                        r == HintedAction::Insert(hash) && final(self).pending() == old(self).pending()
                            && final(self).visited() == old(self).visited()
                    },
            },
    {
        match lookup {
            HintedLookup::Missing => HintedAction::Skip,
            HintedLookup::Confirmed => HintedAction::EraseFromVoteCache(hash),
            HintedLookup::Unconfirmed { dependents_confirmed, dependents } => {
                if self.check_dependents && !dependents_confirmed {
                    let ghost stack0 = self.stack@;
                    let ghost visited0 = self.visited@;
                    let mut i: usize = 0;
                    while i < dependents.len()
                        invariant
                            i <= dependents@.len(),
                            self.iterations <= HINTED_MAX_ITERATIONS,
                            forall|a: int, b: int| 0 <= a < b < self.visited@.len() ==> self.visited@[a] != self.visited@[b],
                            self.stack@ == stack0 + queued(visited0, dependents@.take(i as int)),
                            self.visited@ == visited0 + queued(visited0, dependents@.take(i as int)),
                            self.check_dependents == old(self).check_dependents,
                            self.done == old(self).done,
                            self.iterations == old(self).iterations,
                        decreases dependents@.len() - i,
                    {
                        let d = dependents[i];
                        proof {
                            assert(dependents@.take(i + 1).drop_last() =~= dependents@.take(i as int));
                            assert(dependents@.take(i + 1).last() == d);
                        }
                        if !d.is_zero() && !self.is_visited(&d) {
                            let ghost before = self.visited@;
                            self.visited.push(d);
                            self.stack.push(d);
                            proof {
                                let after = self.visited@;
                                assert forall|a: int, b: int| 0 <= a < b < after.len() implies after[a] != after[b] by {
                                    assert(after[a] == before[a]);
                                    if b < before.len() { assert(after[b] == before[b]); } else { assert(before.contains(before[a])); }
                                }
                            }
                        }
                        i = i + 1;
                    }
                    proof {
                        assert(dependents@.take(dependents@.len() as int) =~= dependents@);
                    }
                    HintedAction::Skip
                } else {
                    HintedAction::Insert(hash)
                }
            },
        }
    }
}

/// The dependents queued from `deps`, in order: each nonzero one not yet visited,
/// counting those queued before it.
pub open spec fn queued(visited: Seq<BlockHash>, deps: Seq<BlockHash>) -> Seq<BlockHash>
    decreases deps.len(),
{
    if deps.len() == 0 {
        Seq::empty()
    } else {
        let prev = queued(visited, deps.drop_last());
        let d = deps.last();
        if (d.hi == 0 && d.lo == 0) || (visited + prev).contains(d) { prev } else { prev.push(d) }
    }
}

/// A hinted walk queues a dependent at most once: the queued blocks are distinct,
/// nonzero and were not visited before.
pub proof fn lemma_dependents_queued_once(visited: Seq<BlockHash>, deps: Seq<BlockHash>)
    ensures
        forall|i: int, j: int| 0 <= i < j < queued(visited, deps).len() ==> queued(visited, deps)[i] != queued(visited, deps)[j],
        forall|i: int| 0 <= i < queued(visited, deps).len() ==> !visited.contains(#[trigger] queued(visited, deps)[i]),
        forall|i: int| 0 <= i < queued(visited, deps).len() ==> !(#[trigger] queued(visited, deps)[i]).is_zero_spec(),
    decreases deps.len(),
{
    if deps.len() > 0 {
        let prev = queued(visited, deps.drop_last());
        lemma_dependents_queued_once(visited, deps.drop_last());
        let d = deps.last();
        let q = queued(visited, deps);
        if !((d.hi == 0 && d.lo == 0) || (visited + prev).contains(d)) {
            assert forall|i: int, j: int| 0 <= i < j < q.len() implies q[i] != q[j] by {
                if j == prev.len() {
                    assert(q[i] == prev[i]);
                    assert((visited + prev)[visited.len() + i] == prev[i]);
                }
            }
            assert forall|i: int| 0 <= i < q.len() implies !visited.contains(#[trigger] q[i]) by {
                if i == prev.len() {
                    if visited.contains(d) {
                        let k = choose|k: int| 0 <= k < visited.len() && visited[k] == d;
                        assert((visited + prev)[k] == d);
                    }
                }
            }
        }
    }
}

/// What the hinted scheduler does with a block the vote cache ranks high: nothing while
/// the block cools down (`None`; otherwise the cooldown starts anew), else activate it,
/// checking its dependents first unless its final tally already reaches
/// `minimum_final_tally`.
pub fn hinted_candidate(
    cooldowns: &mut OrderedCooldowns,
    entry: &TopEntry,
    minimum_final_tally: u128,
    now: u64,
    block_cooldown: u64,
) -> (r: Option<bool>)
    requires
        old(cooldowns).wf(),
        now + block_cooldown <= u64::MAX,
    ensures
        final(cooldowns).wf(),
        ({
            let cooling = has_cooldown(old(cooldowns).entries(), entry.hash)
                && old(cooldowns).entries()[cooldown_position(old(cooldowns).entries(), entry.hash)].1 > now;
            &&& cooling ==> r is None && final(cooldowns).entries() == old(cooldowns).entries()
            &&& !cooling ==> r == Some(entry.final_tally < minimum_final_tally)
                && has_cooldown(final(cooldowns).entries(), entry.hash)
                && final(cooldowns).entries()[cooldown_position(final(cooldowns).entries(), entry.hash)].1 == now + block_cooldown
        }),
{
    if cooldowns.cooldown(entry.hash, now, block_cooldown) {
        None
    } else {
        Some(entry.final_tally < minimum_final_tally)
    }
}

/// The block of an account that the priority scheduler would start an election for: the
/// account's first block when nothing is confirmed, else the successor of the confirmed
/// frontier. `None` when the account is unknown or fully confirmed.
pub fn activation_target(
    account_known: bool,
    block_count: u64,
    confirmed_height: u64,
    open_block: BlockHash,
    frontier_successor: Option<BlockHash>,
) -> (r: Option<BlockHash>)
    requires
        account_known && confirmed_height < block_count && confirmed_height != 0 ==> frontier_successor is Some,
    ensures
        r == (if account_known && confirmed_height < block_count {
            if confirmed_height == 0 { Some(open_block) } else { frontier_successor }
        } else {
            None
        }),
{
    if account_known && confirmed_height < block_count {
        if confirmed_height == 0 { Some(open_block) } else { frontier_successor }
    } else {
        None
    }
}

/// The priority of a block: the larger of its balance and the balance before it (zero
/// when that is unknown).
pub fn balance_priority(balance: u128, previous_balance: Option<u128>) -> (r: u128)
    ensures
        r == (match previous_balance {
            Some(p) => if p > balance { p } else { balance },
            None => balance,
        }),
{
    let previous = match previous_balance { Some(p) => p, None => 0 };
    if previous > balance { previous } else { balance }
}

/// The accounts to activate after a block is cemented: its own account, and the
/// destination of a send when that is another, nonzero account.
pub fn successor_accounts(account: Account, is_send: bool, destination: Option<Account>) -> (r: Vec<Account>)
    ensures
        r@ == (match destination {
            Some(d) => if is_send && !d.is_zero_spec() && d != account { seq![account, d] } else { seq![account] },
            None => seq![account],
        }),
{
    let mut r = Vec::new();
    r.push(account);
    match destination {
        Some(d) => {
            if is_send && !d.is_zero() && !d.equals(&account) {
                r.push(d);
            }
        },
        None => {},
    }
    r
}

/// The queue of blocks to start manual elections for: first in, first out.
pub struct ManualQueue<B> {
    queue: Vec<(B, Option<u128>, ElectionBehavior)>,
    stopped: bool,
}

impl<B> ManualQueue<B> {
    pub closed spec fn entries(&self) -> Seq<(B, Option<u128>, ElectionBehavior)> {
        self.queue@
    }

    pub closed spec fn is_stopped(&self) -> bool {
        self.stopped
    }

    pub fn new() -> (r: Self)
        ensures
            r.entries().len() == 0,
            !r.is_stopped(),
    {
        ManualQueue { queue: Vec::new(), stopped: false }
    }

    pub fn stop(&mut self)
        ensures
            final(self).is_stopped(),
            final(self).entries() == old(self).entries(),
    {
        self.stopped = true;
    }

    /// Queues a block (with the balance before it, if known) for a manual election.
    pub fn push(&mut self, block: B, previous_balance: Option<u128>)
        ensures
            final(self).entries() == old(self).entries().push((block, previous_balance, ElectionBehavior::Manual)),
            final(self).is_stopped() == old(self).is_stopped(),
    {
        self.queue.push((block, previous_balance, ElectionBehavior::Manual));
    }

    /// Whether a block waits.
    pub fn predicate(&self) -> (r: bool)
        ensures
            r == (self.entries().len() > 0),
    {
        self.queue.len() > 0
    }

    pub fn len(&self) -> (r: usize)
        ensures
            r == self.entries().len(),
    {
        self.queue.len()
    }

    /// The oldest waiting block, unless the queue is stopped or empty.
    pub fn next(&mut self) -> (r: Option<(B, Option<u128>, ElectionBehavior)>)
        ensures
            old(self).is_stopped() || old(self).entries().len() == 0 ==> r is None && final(self).entries() == old(self).entries(),
            !old(self).is_stopped() && old(self).entries().len() > 0 ==> r == Some(old(self).entries()[0])
                && final(self).entries() == old(self).entries().drop_first(),
            final(self).is_stopped() == old(self).is_stopped(),
    {
        if self.stopped || self.queue.len() == 0 {
            return None;
        }
        let first = self.queue.remove(0);
        assert(self.queue@ =~= old(self).entries().drop_first());
        Some(first)
    }
}

} // verus!
