//! Lazy bootstrap: started from a block hash known to be confirmed, it traces the chain
//! of blocks obtained down to a connection with the ledger, queueing pulls for the blocks
//! it learns of.

use vstd::prelude::*;
use std::hash::{BuildHasher, BuildHasherDefault, DefaultHasher};
use crate::numbers::{BlockHash, Hash256, HashOrAccount};
use crate::election::spec_elapsed;
use crate::pulls_cache::PullInfo;

verus! {

/// A 64-bit digest of a block hash, by std's default hasher.
pub uninterp spec fn spec_u64_hash(hash: BlockHash) -> u64;

/// Hashes the block hash with `BuildHasher::hash_one` on std's `DefaultHasher` (built by
/// `BuildHasherDefault`), whose keys are fixed. The digest is named, not stated: it is the
/// same for equal hashes.
#[verifier::external_body]
pub(crate) fn u64_hash(hash: &BlockHash) -> (r: u64)
    ensures
        r == spec_u64_hash(*hash),
{
    BuildHasherDefault::<DefaultHasher>::default().hash_one(hash)
}

/// What the ledger knows of blocks, as plain values: each block that exists (or was
/// pruned), with its balance when the ledger can tell it, and the epoch links.
pub struct LedgerView {
    blocks: Vec<(BlockHash, Option<u128>)>,
    epoch_links: Vec<Hash256>,
}

pub open spec fn has_block(s: Seq<(BlockHash, Option<u128>)>, h: BlockHash) -> bool {
    exists|i: int| 0 <= i < s.len() && s[i].0 == h
}

pub open spec fn block_position(s: Seq<(BlockHash, Option<u128>)>, h: BlockHash) -> int {
    choose|i: int| 0 <= i < s.len() && s[i].0 == h
}

impl LedgerView {
    pub closed spec fn blocks(&self) -> Seq<(BlockHash, Option<u128>)> {
        self.blocks@
    }

    pub closed spec fn epoch_links(&self) -> Seq<Hash256> {
        self.epoch_links@
    }

    pub closed spec fn wf(&self) -> bool {
        forall|i: int, j: int| 0 <= i < j < self.blocks@.len() ==> self.blocks@[i].0 != self.blocks@[j].0
    }

    /// Whether the block exists or was pruned.
    pub open spec fn spec_exists(&self, h: BlockHash) -> bool {
        has_block(self.blocks(), h)
    }

    /// The block's balance, when the block exists and it is known.
    pub open spec fn spec_balance(&self, h: BlockHash) -> Option<u128> {
        if has_block(self.blocks(), h) { self.blocks()[block_position(self.blocks(), h)].1 } else { None }
    }

    pub fn new() -> (r: Self)
        ensures
            r.wf(),
            r.blocks().len() == 0,
            r.epoch_links().len() == 0,
    {
        LedgerView { blocks: Vec::new(), epoch_links: Vec::new() }
    }

    fn find(&self, h: &BlockHash) -> (r: Option<usize>)
        requires
            self.wf(),
        ensures
            match r {
                Some(i) => i < self.blocks().len() && self.blocks()[i as int].0 == *h && has_block(self.blocks(), *h)
                    && block_position(self.blocks(), *h) == i,
                None => !has_block(self.blocks(), *h),
            },
    {
        let mut i: usize = 0;
        while i < self.blocks.len()
            invariant
                self.wf(),
                i <= self.blocks@.len(),
                forall|j: int| 0 <= j < i ==> (#[trigger] self.blocks@[j]).0 != *h,
            decreases self.blocks@.len() - i,
        {
            if self.blocks[i].0.equals(h) {
                proof {
                    let s = self.blocks@;
                    let q = block_position(s, *h);
                    if q != i as int {
                        if q < i { assert(s[q].0 != s[i as int].0); } else { assert(s[i as int].0 != s[q].0); }
                    }
                }
                return Some(i);
            }
            i = i + 1;
        }
        None
    }

    /// Records a block (with its balance, or `None` for a pruned one); a block recorded
    /// before is recorded anew.
    pub fn insert_block(&mut self, h: BlockHash, balance: Option<u128>)
        requires
            old(self).wf(),
        ensures
            final(self).wf(),
            final(self).spec_exists(h),
            final(self).spec_balance(h) == balance,
            forall|x: BlockHash| x != h ==> final(self).spec_exists(x) == old(self).spec_exists(x)
                && final(self).spec_balance(x) == old(self).spec_balance(x),
            final(self).epoch_links() == old(self).epoch_links(),
    {
        let ghost before = self.blocks@;
        match self.find(&h) {
            Some(i) => {
                self.blocks.set(i, (h, balance));
            },
            None => {
                self.blocks.push((h, balance));
            },
        }
        proof {
            let after = self.blocks@;
            assert forall|a: int, b: int| 0 <= a < b < after.len() implies after[a].0 != after[b].0 by {
                if a < before.len() && b < before.len() {
                    assert(after[a].0 == before[a].0 && after[b].0 == before[b].0);
                } else {
                    assert(after[a] == before[a]);
                    assert(!has_block(before, h));
                }
            }
            let k = if has_block(before, h) { block_position(before, h) } else { before.len() as int };
            assert(after[k].0 == h);
            let q = block_position(after, h);
            if q != k {
                if q < k { assert(after[q].0 != after[k].0); } else { assert(after[k].0 != after[q].0); }
            }
            assert forall|x: BlockHash| x != h implies has_block(after, x) == has_block(before, x)
                && (has_block(after, x) ==> after[block_position(after, x)].1 == before[block_position(before, x)].1) by {
                if has_block(before, x) {
                    let w = block_position(before, x);
                    assert(after[w] == before[w]);
                    let w2 = block_position(after, x);
                    if w2 != w {
                        if w2 < w { assert(after[w2].0 != after[w].0); } else { assert(after[w].0 != after[w2].0); }
                    }
                }
                if has_block(after, x) {
                    let w = choose|w: int| 0 <= w < after.len() && after[w].0 == x;
                    assert(w != k);
                    assert(after[w] == before[w]);
                }
            }
        }
    }

    /// Records an epoch link.
    pub fn add_epoch_link(&mut self, link: Hash256)
        ensures
            final(self).epoch_links() == old(self).epoch_links().push(link),
            final(self).blocks() == old(self).blocks(),
            final(self).wf() == old(self).wf(),
    {
        self.epoch_links.push(link);
    }

    pub fn block_exists_or_pruned(&self, h: &BlockHash) -> (r: bool)
        requires
            self.wf(),
        ensures
            r == self.spec_exists(*h),
    {
        self.find(h).is_some()
    }

    pub fn block_balance(&self, h: &BlockHash) -> (r: Option<u128>)
        requires
            self.wf(),
        ensures
            r == self.spec_balance(*h),
    {
        match self.find(h) {
            Some(i) => self.blocks[i].1,
            None => None,
        }
    }

    pub fn is_epoch_link(&self, link: &Hash256) -> (r: bool)
        ensures
            r == self.epoch_links().contains(*link),
    {
        let mut i: usize = 0;
        while i < self.epoch_links.len()
            invariant
                i <= self.epoch_links@.len(),
                forall|j: int| 0 <= j < i ==> self.epoch_links@[j] != *link,
            decreases self.epoch_links@.len() - i,
        {
            if self.epoch_links[i].equals(link) {
                assert(self.epoch_links@[i as int] == *link);
                return true;
            }
            i = i + 1;
        }
        false
    }
}

pub open spec fn distinct<T>(s: Seq<T>) -> bool {
    forall|i: int, j: int| 0 <= i < j < s.len() ==> s[i] != s[j]
}

pub open spec fn has_key<V>(s: Seq<(BlockHash, V)>, k: BlockHash) -> bool {
    exists|i: int| 0 <= i < s.len() && s[i].0 == k
}

pub open spec fn key_position<V>(s: Seq<(BlockHash, V)>, k: BlockHash) -> int {
    choose|i: int| 0 <= i < s.len() && s[i].0 == k
}

pub open spec fn keys_distinct<V>(s: Seq<(BlockHash, V)>) -> bool {
    forall|i: int, j: int| 0 <= i < j < s.len() ==> s[i].0 != s[j].0
}

/// The entries after setting `k` to `v`: an entry for `k` is replaced in place, else added.
pub open spec fn map_insert<V>(s: Seq<(BlockHash, V)>, k: BlockHash, v: V) -> Seq<(BlockHash, V)> {
    if has_key(s, k) { s.update(key_position(s, k), (k, v)) } else { s.push((k, v)) }
}

/// The entries without the one for `k`.
pub open spec fn map_remove<V>(s: Seq<(BlockHash, V)>, k: BlockHash) -> Seq<(BlockHash, V)> {
    if has_key(s, k) { s.remove(key_position(s, k)) } else { s }
}

pub(crate) proof fn lemma_key_position<V>(s: Seq<(BlockHash, V)>, k: BlockHash, i: int)
    requires
        keys_distinct(s),
        0 <= i < s.len(),
        s[i].0 == k,
    ensures
        has_key(s, k),
        key_position(s, k) == i,
{
    let q = key_position(s, k);
    if q != i {
        if q < i { assert(s[q].0 != s[i].0); } else { assert(s[i].0 != s[q].0); }
    }
}

pub(crate) fn find_key<V>(s: &Vec<(BlockHash, V)>, k: &BlockHash) -> (r: Option<usize>)
    requires
        keys_distinct(s@),
    ensures
        match r {
            Some(i) => i < s@.len() && s@[i as int].0 == *k && has_key(s@, *k) && key_position(s@, *k) == i,
            None => !has_key(s@, *k),
        },
{
    let mut i: usize = 0;
    while i < s.len()
        invariant
            keys_distinct(s@),
            i <= s@.len(),
            forall|j: int| 0 <= j < i ==> (#[trigger] s@[j]).0 != *k,
        decreases s@.len() - i,
    {
        if s[i].0.equals(k) {
            proof { lemma_key_position(s@, *k, i as int); }
            return Some(i);
        }
        i = i + 1;
    }
    None
}

pub(crate) fn map_insert_exec<V>(s: &mut Vec<(BlockHash, V)>, k: BlockHash, v: V)
    requires
        keys_distinct(old(s)@),
    ensures
        keys_distinct(final(s)@),
        final(s)@ == map_insert(old(s)@, k, v),
{
    let ghost before = s@;
    match find_key(s, &k) {
        Some(i) => { s.set(i, (k, v)); },
        None => { s.push((k, v)); },
    }
    proof {
        let after = s@;
        assert forall|a: int, b: int| 0 <= a < b < after.len() implies after[a].0 != after[b].0 by {
            if a < before.len() && b < before.len() {
                assert(after[a].0 == before[a].0 && after[b].0 == before[b].0);
            } else {
                assert(after[a] == before[a]);
                assert(!has_key(before, k));
            }
        }
    }
}

fn map_remove_exec<V>(s: &mut Vec<(BlockHash, V)>, k: &BlockHash)
    requires
        keys_distinct(old(s)@),
    ensures
        keys_distinct(final(s)@),
        final(s)@ == map_remove(old(s)@, *k),
{
    let ghost before = s@;
    match find_key(s, k) {
        Some(i) => {
            s.remove(i);
            proof {
                let after = s@;
                assert forall|a: int, b: int| 0 <= a < b < after.len() implies after[a].0 != after[b].0 by {
                    let a2 = if a < i { a } else { a + 1 };
                    let b2 = if b < i { b } else { b + 1 };
                    assert(after[a] == before[a2] && after[b] == before[b2]);
                }
            }
        },
        None => {},
    }
}

fn hash_set_contains(s: &Vec<BlockHash>, h: &BlockHash) -> (r: bool)
    ensures
        r == s@.contains(*h),
{
    let mut i: usize = 0;
    while i < s.len()
        invariant
            i <= s@.len(),
            forall|j: int| 0 <= j < i ==> s@[j] != *h,
        decreases s@.len() - i,
    {
        if s[i].equals(h) {
            assert(s@[i as int] == *h);
            return true;
        }
        i = i + 1;
    }
    false
}

fn digest_position(s: &Vec<u64>, d: u64) -> (r: Option<usize>)
    ensures
        match r {
            Some(i) => i < s@.len() && s@[i as int] == d,
            None => !s@.contains(d),
        },
{
    let mut i: usize = 0;
    while i < s.len()
        invariant
            i <= s@.len(),
            forall|j: int| 0 <= j < i ==> s@[j] != d,
        decreases s@.len() - i,
    {
        if s[i] == d {
            return Some(i);
        }
        i = i + 1;
    }
    None
}

/// A state block waiting for the balance of its previous block, which tells whether it
/// is a send (then its link is pulled).
#[derive(Clone, Copy, Debug, PartialEq, Eq)]
pub struct LazyStateBacklogItem {
    pub link: HashOrAccount,
    pub balance: u128,
    pub retry_limit: u32,
}

/// The kind of a pulled block, as far as lazy bootstrap tells them apart.
#[derive(Clone, Copy, Debug, PartialEq, Eq, Structural)]
pub enum LazyBlockKind {
    State,
    LegacySend,
    LegacyOther,
}

/// The parts of a pulled block that lazy bootstrap reads.
#[derive(Clone, Copy, Debug, PartialEq, Eq)]
pub struct LazyBlock {
    pub hash: BlockHash,
    pub kind: LazyBlockKind,
    pub previous: BlockHash,
    /// The balance of a state or legacy send block.
    pub balance: u128,
    /// The link of a state block.
    pub link: Hash256,
    /// A legacy open or receive block names its source.
    pub has_source: bool,
    /// The source of a legacy open or receive block, the link of a state block.
    pub source_or_link: BlockHash,
}

/// The balance a block shows: state and legacy send blocks carry one.
pub open spec fn shown_balance(b: LazyBlock) -> Option<u128> {
    match b.kind {
        LazyBlockKind::State | LazyBlockKind::LegacySend => Some(b.balance),
        LazyBlockKind::LegacyOther => None,
    }
}

/// The state of a lazy bootstrap session (times in milliseconds).
pub struct LazyData {
    lazy_blocks: Vec<u64>,
    lazy_start_time: u64,
    lazy_blocks_count: usize,
    lazy_pulls: Vec<(HashOrAccount, u32)>,
    lazy_undefined_links: Vec<BlockHash>,
    lazy_state_backlog: Vec<(BlockHash, LazyStateBacklogItem)>,
    lazy_keys: Vec<BlockHash>,
    lazy_balances: Vec<(BlockHash, u128)>,
    disable_legacy_bootstrap: bool,
    lazy_retry_limit: u32,
}

/// Whether the lazy session's loop stops waiting and flushes its pulls: when the attempt
/// stopped, no pull is running, fewer pulls than `scale_target` run while pulls wait, or
/// the session expired.
pub fn flush_due(stopped: bool, pulling: u32, scale_target: u32, pulls_waiting: bool, expired: bool) -> (r: bool)
    ensures
        r == (stopped || pulling == 0 || (pulling < scale_target && pulls_waiting) || expired),
{
    stopped || pulling == 0 || (pulling < scale_target && pulls_waiting) || expired
}

/// Whether the backlog is cleaned up after this many flushes: every hundredth.
pub fn backlog_cleanup_due(iterations: u32) -> (r: bool)
    ensures
        r == (iterations % 100 == 0),
{
    iterations % 100 == 0
}

/// The sizes of a lazy session's sets, and one of its start blocks not found yet.
#[derive(Clone, Copy, Debug, PartialEq, Eq)]
pub struct LazyInfo {
    pub lazy_blocks: usize,
    pub lazy_state_backlog: usize,
    pub lazy_balances: usize,
    pub lazy_undefined_links: usize,
    pub lazy_pulls: usize,
    pub lazy_keys: usize,
    pub lazy_key_1: Option<BlockHash>,
}

/// The longest a lazy session runs: a week without legacy bootstrap, else half an hour.
pub open spec fn max_lazy_time_ms(disable_legacy_bootstrap: bool) -> u64 {
    if disable_legacy_bootstrap { 604_800_000u64 } else { 1_800_000u64 }
}

impl LazyData {
    /// Digests of the blocks processed, each once.
    pub closed spec fn processed_digests(&self) -> Seq<u64> { self.lazy_blocks@ }
    pub closed spec fn start_time(&self) -> u64 { self.lazy_start_time }
    pub closed spec fn blocks_count(&self) -> nat { self.lazy_blocks_count as nat }
    /// Pulls to make, oldest first.
    pub closed spec fn pulls(&self) -> Seq<(HashOrAccount, u32)> { self.lazy_pulls@ }
    pub closed spec fn undefined_links(&self) -> Seq<BlockHash> { self.lazy_undefined_links@ }
    /// State blocks by the hash of the previous block whose balance they wait for.
    pub closed spec fn backlog(&self) -> Seq<(BlockHash, LazyStateBacklogItem)> { self.lazy_state_backlog@ }
    /// The start blocks not yet found in the ledger.
    pub closed spec fn keys(&self) -> Seq<BlockHash> { self.lazy_keys@ }
    /// Balances of the first block of pulls, by block hash.
    pub closed spec fn balances(&self) -> Seq<(BlockHash, u128)> { self.lazy_balances@ }
    pub closed spec fn disable_legacy(&self) -> bool { self.disable_legacy_bootstrap }
    pub closed spec fn retry_limit(&self) -> u32 { self.lazy_retry_limit }

    /// Every set is held without repeats, and the count is the number of processed blocks.
    pub closed spec fn wf(&self) -> bool {
        &&& distinct(self.lazy_blocks@)
        &&& self.lazy_blocks_count == self.lazy_blocks@.len()
        &&& distinct(self.lazy_undefined_links@)
        &&& keys_distinct(self.lazy_state_backlog@)
        &&& distinct(self.lazy_keys@)
        &&& keys_distinct(self.lazy_balances@)
    }

    /// Whether the block was processed (by digest).
    pub open spec fn processed(&self, h: BlockHash) -> bool {
        self.processed_digests().contains(spec_u64_hash(h))
    }

    /// The pulls after queueing `h` unless it was processed.
    pub open spec fn pulls_after_add(&self, pulls: Seq<(HashOrAccount, u32)>, h: HashOrAccount, retry_limit: u32) -> Seq<(HashOrAccount, u32)> {
        if self.processed(h) { pulls } else { pulls.push((h, retry_limit)) }
    }

    /// Only the pulls changed.
    pub open spec fn same_but_pulls(&self, other: &Self) -> bool {
        &&& self.processed_digests() == other.processed_digests()
        &&& self.start_time() == other.start_time()
        &&& self.blocks_count() == other.blocks_count()
        &&& self.undefined_links() == other.undefined_links()
        &&& self.backlog() == other.backlog()
        &&& self.keys() == other.keys()
        &&& self.balances() == other.balances()
        &&& self.disable_legacy() == other.disable_legacy()
        &&& self.retry_limit() == other.retry_limit()
    }

    pub fn new(now: u64, disable_legacy_bootstrap: bool, lazy_retry_limit: u32) -> (r: Self)
        ensures
            r.wf(),
            r.processed_digests().len() == 0,
            r.pulls().len() == 0,
            r.undefined_links().len() == 0,
            r.backlog().len() == 0,
            r.keys().len() == 0,
            r.balances().len() == 0,
            r.start_time() == now,
            r.disable_legacy() == disable_legacy_bootstrap,
            r.retry_limit() == lazy_retry_limit,
    {
        LazyData {
            lazy_blocks: Vec::new(),
            lazy_start_time: now,
            lazy_blocks_count: 0,
            lazy_pulls: Vec::new(),
            lazy_undefined_links: Vec::new(),
            lazy_state_backlog: Vec::new(),
            lazy_keys: Vec::new(),
            lazy_balances: Vec::new(),
            disable_legacy_bootstrap,
            lazy_retry_limit,
        }
    }

    /// Restarts the session clock.
    pub fn set_start_time(&mut self, now: u64)
        ensures
            final(self).start_time() == now,
            final(self).processed_digests() == old(self).processed_digests(),
            final(self).blocks_count() == old(self).blocks_count(),
            final(self).pulls() == old(self).pulls(),
            final(self).undefined_links() == old(self).undefined_links(),
            final(self).backlog() == old(self).backlog(),
            final(self).keys() == old(self).keys(),
            final(self).balances() == old(self).balances(),
            final(self).disable_legacy() == old(self).disable_legacy(),
            final(self).retry_limit() == old(self).retry_limit(),
            final(self).wf() == old(self).wf(),
    {
        self.lazy_start_time = now;
    }

    /// The number of processed blocks.
    pub fn lazy_blocks_count(&self) -> (r: usize)
        requires
            self.wf(),
        ensures
            r == self.processed_digests().len(),
    {
        self.lazy_blocks_count
    }

    /// What a lazy session reports of itself.
    pub fn get_information(&self) -> (r: LazyInfo)
        ensures
            r.lazy_blocks == self.processed_digests().len(),
            r.lazy_state_backlog == self.backlog().len(),
            r.lazy_balances == self.balances().len(),
            r.lazy_undefined_links == self.undefined_links().len(),
            r.lazy_pulls == self.pulls().len(),
            r.lazy_keys == self.keys().len(),
            r.lazy_key_1 == (if self.keys().len() > 0 { Some(self.keys()[0]) } else { None::<BlockHash> }),
    {
        LazyInfo {
            lazy_blocks: self.lazy_blocks.len(),
            lazy_state_backlog: self.lazy_state_backlog.len(),
            lazy_balances: self.lazy_balances.len(),
            lazy_undefined_links: self.lazy_undefined_links.len(),
            lazy_pulls: self.lazy_pulls.len(),
            lazy_keys: self.lazy_keys.len(),
            lazy_key_1: if self.lazy_keys.len() > 0 { Some(self.lazy_keys[0]) } else { None },
        }
    }

    pub fn lazy_pulls_len(&self) -> (r: usize)
        ensures
            r == self.pulls().len(),
    {
        self.lazy_pulls.len()
    }

    pub fn lazy_blocks_processed(&self, hash: &BlockHash) -> (r: bool)
        ensures
            r == self.processed(*hash),
    {
        self.digest_processed(u64_hash(hash))
    }

    /// Whether a block with this digest was processed.
    pub fn digest_processed(&self, digest: u64) -> (r: bool)
        ensures
            r == self.processed_digests().contains(digest),
    {
        digest_position(&self.lazy_blocks, digest).is_some()
    }

    /// Marks the block processed.
    pub fn lazy_blocks_insert(&mut self, hash: &BlockHash)
        requires
            old(self).wf(),
        ensures
            final(self).wf(),
            final(self).processed_digests() == (if old(self).processed(*hash) { old(self).processed_digests() }
                else { old(self).processed_digests().push(spec_u64_hash(*hash)) }),
            final(self).pulls() == old(self).pulls(),
            final(self).undefined_links() == old(self).undefined_links(),
            final(self).backlog() == old(self).backlog(),
            final(self).keys() == old(self).keys(),
            final(self).balances() == old(self).balances(),
            final(self).start_time() == old(self).start_time(),
            final(self).disable_legacy() == old(self).disable_legacy(),
            final(self).retry_limit() == old(self).retry_limit(),
    {
        self.insert_digest(u64_hash(hash));
    }

    /// Records a block with this digest as processed.
    pub fn insert_digest(&mut self, digest: u64)
        requires
            old(self).wf(),
        ensures
            final(self).wf(),
            final(self).processed_digests() == (if old(self).processed_digests().contains(digest) { old(self).processed_digests() }
                else { old(self).processed_digests().push(digest) }),
            final(self).pulls() == old(self).pulls(),
            final(self).undefined_links() == old(self).undefined_links(),
            final(self).backlog() == old(self).backlog(),
            final(self).keys() == old(self).keys(),
            final(self).balances() == old(self).balances(),
            final(self).start_time() == old(self).start_time(),
            final(self).disable_legacy() == old(self).disable_legacy(),
            final(self).retry_limit() == old(self).retry_limit(),
    {
        let d = digest;
        if digest_position(&self.lazy_blocks, d).is_none() {
            let ghost before = self.lazy_blocks@;
            self.lazy_blocks.push(d);
            proof {
                let after = self.lazy_blocks@;
                assert forall|a: int, b: int| 0 <= a < b < after.len() implies after[a] != after[b] by {
                    assert(after[a] == before[a]);
                    if b < before.len() { assert(after[b] == before[b]); } else { assert(before.contains(before[a])); }
                }
            }
            self.lazy_blocks_count = self.lazy_blocks.len();
        }
    }

    /// Marks the block unprocessed.
    pub fn lazy_block_erase(&mut self, hash: &BlockHash)
        requires
            old(self).wf(),
        ensures
            final(self).wf(),
            !final(self).processed(*hash),
            final(self).processed_digests().to_set() == old(self).processed_digests().to_set().remove(spec_u64_hash(*hash)),
            final(self).pulls() == old(self).pulls(),
            final(self).undefined_links() == old(self).undefined_links(),
            final(self).backlog() == old(self).backlog(),
            final(self).keys() == old(self).keys(),
            final(self).balances() == old(self).balances(),
            final(self).start_time() == old(self).start_time(),
            final(self).disable_legacy() == old(self).disable_legacy(),
            final(self).retry_limit() == old(self).retry_limit(),
    {
        self.erase_digest(u64_hash(hash));
    }

    /// Records a block with this digest as unprocessed.
    pub fn erase_digest(&mut self, digest: u64)
        requires
            old(self).wf(),
        ensures
            final(self).wf(),
            !final(self).processed_digests().contains(digest),
            final(self).processed_digests().to_set() == old(self).processed_digests().to_set().remove(digest),
            final(self).pulls() == old(self).pulls(),
            final(self).undefined_links() == old(self).undefined_links(),
            final(self).backlog() == old(self).backlog(),
            final(self).keys() == old(self).keys(),
            final(self).balances() == old(self).balances(),
            final(self).start_time() == old(self).start_time(),
            final(self).disable_legacy() == old(self).disable_legacy(),
            final(self).retry_limit() == old(self).retry_limit(),
    {
        let d = digest;
        let ghost before = self.lazy_blocks@;
        match digest_position(&self.lazy_blocks, d) {
            Some(i) => {
                self.lazy_blocks.remove(i);
                proof {
                    let after = self.lazy_blocks@;
                    assert forall|a: int, b: int| 0 <= a < b < after.len() implies after[a] != after[b] by {
                        let a2 = if a < i { a } else { a + 1 };
                        let b2 = if b < i { b } else { b + 1 };
                        assert(after[a] == before[a2] && after[b] == before[b2]);
                    }
                    assert(!after.contains(d)) by {
                        if after.contains(d) {
                            let k = choose|k: int| 0 <= k < after.len() && after[k] == d;
                            let k2 = if k < i { k } else { k + 1 };
                            assert(after[k] == before[k2]);
                            if k2 < i { assert(before[k2] != before[i as int]); } else { assert(before[i as int] != before[k2]); }
                        }
                    }
                    assert forall|x: u64| #[trigger] after.to_set().contains(x) == before.to_set().remove(d).contains(x) by {
                        if after.contains(x) {
                            let k = choose|k: int| 0 <= k < after.len() && after[k] == x;
                            let k2 = if k < i { k } else { k + 1 };
                            assert(after[k] == before[k2]);
                        }
                        if before.contains(x) && x != d {
                            let k = choose|k: int| 0 <= k < before.len() && before[k] == x;
                            assert(k != i);
                            let k2 = if k < i { k } else { k - 1 };
                            assert(after[k2] == before[k]);
                        }
                    }
                    assert(after.to_set() =~= before.to_set().remove(d));
                }
                self.lazy_blocks_count = self.lazy_blocks.len();
            },
            None => {
                assert(before.to_set() =~= before.to_set().remove(d));
            },
        }
    }

    /// Queues a pull unless the block was processed.
    pub fn lazy_add(&mut self, hash_or_account: HashOrAccount, retry_limit: u32)
        requires
            old(self).wf(),
        ensures
            final(self).wf(),
            final(self).pulls() == old(self).pulls_after_add(old(self).pulls(), hash_or_account, retry_limit),
            final(self).same_but_pulls(old(self)),
    {
        if !self.lazy_blocks_processed(&hash_or_account) {
            self.lazy_pulls.push((hash_or_account, retry_limit));
        }
    }

    /// Whether the session ran out: it ran for its longest time, or (with legacy
    /// bootstrap) it processed more blocks than `restart_limit`.
    pub fn lazy_has_expired(&self, now: u64, restart_limit: usize) -> (r: bool)
        requires
            self.wf(),
        ensures
            r == (spec_elapsed(self.start_time(), now) >= max_lazy_time_ms(self.disable_legacy())
                || (!self.disable_legacy() && self.processed_digests().len() > restart_limit)),
    {
        let max_lazy_time: u64 = if self.disable_legacy_bootstrap { 604_800_000 } else { 1_800_000 };
        let elapsed = if now >= self.lazy_start_time { now - self.lazy_start_time } else { 0 };
        if elapsed >= max_lazy_time {
            true
        } else {
            !self.disable_legacy_bootstrap && self.lazy_blocks_count > restart_limit
        }
    }
}

/// The parts of a lazy session that processing blocks changes, as plain values.
pub struct LazyModel {
    pub digests: Seq<u64>,
    pub pulls: Seq<(HashOrAccount, u32)>,
    pub undefined_links: Seq<BlockHash>,
    pub backlog: Seq<(BlockHash, LazyStateBacklogItem)>,
    pub balances: Seq<(BlockHash, u128)>,
}

pub open spec fn m_processed(m: LazyModel, h: BlockHash) -> bool {
    m.digests.contains(spec_u64_hash(h))
}

/// Queues a pull unless the block was processed.
pub open spec fn m_add(m: LazyModel, h: HashOrAccount, retry_limit: u32) -> LazyModel {
    if m_processed(m, h) { m } else { LazyModel { pulls: m.pulls.push((h, retry_limit)), ..m } }
}

/// Marks the block processed.
pub open spec fn m_insert(m: LazyModel, h: BlockHash) -> LazyModel {
    if m_processed(m, h) { m } else { LazyModel { digests: m.digests.push(spec_u64_hash(h)), ..m } }
}

/// A processed block settles a backlogged state block that waited for its balance: a
/// send (balance not above the backlogged one) has its link pulled; a block without a
/// balance has the link pulled once, as it may be an account, a hash or nothing.
pub open spec fn m_backlog_check(m: LazyModel, b: LazyBlock, lazy_retry_limit: u32) -> LazyModel {
    if has_key(m.backlog, b.hash) {
        let item = m.backlog[key_position(m.backlog, b.hash)].1;
        let m1 = match shown_balance(b) {
            Some(balance) => if balance <= item.balance { m_add(m, item.link, item.retry_limit) } else { m },
            None => if !m.undefined_links.contains(item.link) {
                let m2 = m_add(m, item.link, lazy_retry_limit);
                LazyModel { undefined_links: m2.undefined_links.push(item.link), ..m2 }
            } else {
                m
            },
        };
        LazyModel { backlog: map_remove(m1.backlog, b.hash), ..m1 }
    } else {
        m
    }
}

/// A state block whose link is neither zero, an epoch link, processed nor known: its
/// link is pulled when the block is a send, which its previous block's balance tells
/// (from the ledger, or from the balances of processed pull starts); if the previous
/// block is unknown, the block waits in the backlog.
pub open spec fn m_block_state(m: LazyModel, b: LazyBlock, retry_limit: u32, ledger: LedgerView) -> LazyModel {
    let link = b.link;
    if !(link.hi == 0 && link.lo == 0) && !ledger.epoch_links().contains(link) && !m_processed(m, link)
        && !ledger.spec_exists(link) {
        if b.previous.hi == 0 && b.previous.lo == 0 {
            m_add(m, link, retry_limit)
        } else if ledger.spec_exists(b.previous) {
            match ledger.spec_balance(b.previous) {
                Some(pb) => if pb <= b.balance { m_add(m, link, retry_limit) } else { m },
                None => m,
            }
        } else if m_processed(m, b.previous) {
            if has_key(m.balances, b.previous) {
                let pb = m.balances[key_position(m.balances, b.previous)].1;
                let m1 = if pb <= b.balance { m_add(m, link, retry_limit) } else { m };
                LazyModel { balances: map_remove(m1.balances, b.previous), ..m1 }
            } else {
                m
            }
        } else {
            LazyModel {
                backlog: map_insert(m.backlog, b.previous, LazyStateBacklogItem { link, balance: b.balance, retry_limit }),
                ..m
            }
        }
    } else {
        m
    }
}

/// An open state block (its previous is zero) whose link is nonzero, not an epoch link, not
/// processed and not in the ledger receives from a send that is missing: exactly one pull
/// is queued, of the link with the given retry limit, and nothing else changes.
pub proof fn lemma_open_state_block_pulls_its_source(m: LazyModel, b: LazyBlock, retry_limit: u32, ledger: LedgerView)
    requires
        b.previous.hi == 0 && b.previous.lo == 0,
        !(b.link.hi == 0 && b.link.lo == 0),
        !ledger.epoch_links().contains(b.link),
        !m.digests.contains(spec_u64_hash(b.link)),
        !ledger.spec_exists(b.link),
    ensures
        m_block_state(m, b, retry_limit, ledger).pulls == m.pulls.push((b.link, retry_limit)),
        m_block_state(m, b, retry_limit, ledger).digests == m.digests,
        m_block_state(m, b, retry_limit, ledger).undefined_links == m.undefined_links,
        m_block_state(m, b, retry_limit, ledger).backlog == m.backlog,
        m_block_state(m, b, retry_limit, ledger).balances == m.balances,
{
}

/// Processing such an open state block that was not processed before, and that no
/// backlogged block waits for, queues the pull of its link as the newest pull and marks
/// the block processed.
pub proof fn lemma_processing_open_state_block_pulls_its_source(
    m: LazyModel,
    b: LazyBlock,
    pull_blocks_processed: u64,
    retry_limit: u32,
    lazy_retry_limit: u32,
    ledger: LedgerView,
    genesis: BlockHash,
)
    requires
        b.kind == LazyBlockKind::State,
        !b.has_source,
        b.previous.hi == 0 && b.previous.lo == 0,
        !(b.link.hi == 0 && b.link.lo == 0),
        !ledger.epoch_links().contains(b.link),
        !m.digests.contains(spec_u64_hash(b.link)),
        !m.digests.contains(spec_u64_hash(b.hash)),
        !ledger.spec_exists(b.link),
        !has_key(m.backlog, b.hash),
    ensures
        m_process(m, b, pull_blocks_processed, retry_limit, lazy_retry_limit, ledger, genesis).pulls
            == m.pulls.push((b.link, retry_limit)),
        m_process(m, b, pull_blocks_processed, retry_limit, lazy_retry_limit, ledger, genesis).digests
            == m.digests.push(spec_u64_hash(b.hash)),
{
    lemma_open_state_block_pulls_its_source(m, b, retry_limit, ledger);
}

/// Processing a pulled block not processed before: its source (if unknown and not the
/// genesis account) or, for a state block, its link is looked into; it is marked
/// processed; the balance of a pull's first block is kept and that of its previous block
/// dropped; and the backlog is checked.
pub open spec fn m_process(
    m: LazyModel,
    b: LazyBlock,
    pull_blocks_processed: u64,
    retry_limit: u32,
    lazy_retry_limit: u32,
    ledger: LedgerView,
    genesis: BlockHash,
) -> LazyModel {
    if m_processed(m, b.hash) {
        m
    } else {
        let m1 = if b.has_source && !ledger.spec_exists(b.source_or_link) && b.source_or_link != genesis {
            m_add(m, b.source_or_link, retry_limit)
        } else if b.kind == LazyBlockKind::State {
            m_block_state(m, b, retry_limit, ledger)
        } else {
            m
        };
        let m2 = m_insert(m1, b.hash);
        let m3 = if pull_blocks_processed == 1 {
            match shown_balance(b) {
                Some(balance) => LazyModel { balances: map_insert(m2.balances, b.hash, balance), ..m2 },
                None => m2,
            }
        } else {
            m2
        };
        let m4 = if !(b.previous.hi == 0 && b.previous.lo == 0) && has_key(m3.balances, b.previous) {
            LazyModel { balances: map_remove(m3.balances, b.previous), ..m3 }
        } else {
            m3
        };
        m_backlog_check(m4, b, lazy_retry_limit)
    }
}

impl LazyData {
    pub closed spec fn model(&self) -> LazyModel {
        LazyModel {
            digests: self.lazy_blocks@,
            pulls: self.lazy_pulls@,
            undefined_links: self.lazy_undefined_links@,
            backlog: self.lazy_state_backlog@,
            balances: self.lazy_balances@,
        }
    }

    /// Only the modelled parts changed.
    pub open spec fn same_frame(&self, other: &Self) -> bool {
        &&& self.start_time() == other.start_time()
        &&& self.keys() == other.keys()
        &&& self.disable_legacy() == other.disable_legacy()
        &&& self.retry_limit() == other.retry_limit()
    }

    fn add_m(&mut self, h: HashOrAccount, retry_limit: u32)
        requires
            old(self).wf(),
        ensures
            final(self).wf(),
            final(self).model() == m_add(old(self).model(), h, retry_limit),
            final(self).same_frame(old(self)),
    {
        self.lazy_add(h, retry_limit);
        assert(self.model() =~= m_add(old(self).model(), h, retry_limit));
    }

    /// Settles the backlogged state block waiting for this block's balance, if any.
    pub fn lazy_block_state_backlog_check(&mut self, block: &LazyBlock)
        requires
            old(self).wf(),
        ensures
            final(self).wf(),
            final(self).model() == m_backlog_check(old(self).model(), *block, old(self).retry_limit()),
            final(self).same_frame(old(self)),
    {
        match find_key(&self.lazy_state_backlog, &block.hash) {
            Some(i) => {
                let item = self.lazy_state_backlog[i].1;
                let shown: Option<u128> = match block.kind {
                    LazyBlockKind::State | LazyBlockKind::LegacySend => Some(block.balance),
                    LazyBlockKind::LegacyOther => None,
                };
                match shown {
                    Some(balance) => {
                        if balance <= item.balance {
                            self.add_m(item.link, item.retry_limit);
                        }
                    },
                    None => {
                        if !hash_set_contains(&self.lazy_undefined_links, &item.link) {
                            let retry = self.lazy_retry_limit;
                            self.add_m(item.link, retry);
                            let ghost before = self.lazy_undefined_links@;
                            self.lazy_undefined_links.push(item.link);
                            proof {
                                let after = self.lazy_undefined_links@;
                                assert forall|a: int, b: int| 0 <= a < b < after.len() implies after[a] != after[b] by {
                                    assert(after[a] == before[a]);
                                    if b < before.len() { assert(after[b] == before[b]); } else { assert(before.contains(before[a])); }
                                }
                            }
                        }
                    },
                }
                map_remove_exec(&mut self.lazy_state_backlog, &block.hash);
            },
            None => {},
        }
    }

    /// Looks into the link of a state block (see `m_block_state`).
    pub fn lazy_block_state(&mut self, block: &LazyBlock, retry_limit: u32, ledger: &LedgerView)
        requires
            old(self).wf(),
            ledger.wf(),
        ensures
            final(self).wf(),
            final(self).model() == m_block_state(old(self).model(), *block, retry_limit, *ledger),
            final(self).same_frame(old(self)),
    {
        let link = block.link;
        if !link.is_zero() && !ledger.is_epoch_link(&link) && !self.lazy_blocks_processed(&link)
            && !ledger.block_exists_or_pruned(&link) {
            let previous = block.previous;
            if previous.is_zero() {
                self.add_m(link, retry_limit);
            } else if ledger.block_exists_or_pruned(&previous) {
                match ledger.block_balance(&previous) {
                    Some(pb) => {
                        if pb <= block.balance {
                            self.add_m(link, retry_limit);
                        }
                    },
                    None => {},
                }
            } else if self.lazy_blocks_processed(&previous) {
                match find_key(&self.lazy_balances, &previous) {
                    Some(i) => {
                        let pb = self.lazy_balances[i].1;
                        if pb <= block.balance {
                            self.add_m(link, retry_limit);
                        }
                        map_remove_exec(&mut self.lazy_balances, &previous);
                    },
                    None => {},
                }
            } else {
                map_insert_exec(&mut self.lazy_state_backlog, previous,
                    LazyStateBacklogItem { link, balance: block.balance, retry_limit });
            }
        }
    }

    /// Processes a block obtained by a pull (see `m_process`). Returns whether the pull
    /// should stop, having processed more than `max_blocks` blocks, and whether the block
    /// goes to the block processor (it was not processed before).
    pub fn process_block_lazy(
        &mut self,
        block: &LazyBlock,
        pull_blocks_processed: u64,
        max_blocks: u32,
        retry_limit: u32,
        ledger: &LedgerView,
        genesis_account: &BlockHash,
    ) -> (r: (bool, bool))
        requires
            old(self).wf(),
            ledger.wf(),
        ensures
            final(self).wf(),
            final(self).model() == m_process(old(self).model(), *block, pull_blocks_processed, retry_limit,
                old(self).retry_limit(), *ledger, *genesis_account),
            final(self).same_frame(old(self)),
            r.0 == (pull_blocks_processed > max_blocks),
            r.1 == !old(self).processed(block.hash),
    {
        let hash = block.hash;
        let mut process = false;
        if !self.lazy_blocks_processed(&hash) {
            if block.has_source && !ledger.block_exists_or_pruned(&block.source_or_link)
                && !block.source_or_link.equals(genesis_account) {
                self.add_m(block.source_or_link, retry_limit);
            } else if block.kind == LazyBlockKind::State {
                self.lazy_block_state(block, retry_limit, ledger);
            }
            let ghost m1 = self.model();
            self.lazy_blocks_insert(&hash);
            assert(self.model() =~= m_insert(m1, hash));
            if pull_blocks_processed == 1 {
                match block.kind {
                    LazyBlockKind::State | LazyBlockKind::LegacySend => {
                        map_insert_exec(&mut self.lazy_balances, hash, block.balance);
                    },
                    LazyBlockKind::LegacyOther => {},
                }
            }
            if !block.previous.is_zero() && find_key(&self.lazy_balances, &block.previous).is_some() {
                map_remove_exec(&mut self.lazy_balances, &block.previous);
            }
            self.lazy_block_state_backlog_check(block);
            process = true;
        }
        (pull_blocks_processed > max_blocks as u64, process)
    }
}

/// The pull a backlogged state block asks for once its previous block `e.0` is in the
/// ledger (then it leaves the backlog): its link when the previous balance shows a send,
/// or with the session's retry limit when the ledger cannot tell the balance. While the
/// previous block is missing, the previous block itself is pulled.
pub open spec fn cleanup_pull(e: (BlockHash, LazyStateBacklogItem), ledger: LedgerView, lazy_retry_limit: u32) -> Option<(HashOrAccount, u32)> {
    if ledger.spec_exists(e.0) {
        match ledger.spec_balance(e.0) {
            Some(b) => if b <= e.1.balance { Some((e.1.link, e.1.retry_limit)) } else { None },
            None => Some((e.1.link, lazy_retry_limit)),
        }
    } else {
        Some((e.0, e.1.retry_limit))
    }
}

/// The pulls a backlog cleanup queues, in backlog order (blocks processed are skipped).
pub open spec fn cleanup_pulls(
    bk: Seq<(BlockHash, LazyStateBacklogItem)>,
    digests: Seq<u64>,
    ledger: LedgerView,
    lazy_retry_limit: u32,
) -> Seq<(HashOrAccount, u32)>
    decreases bk.len(),
{
    if bk.len() == 0 {
        Seq::empty()
    } else {
        let prev = cleanup_pulls(bk.drop_last(), digests, ledger, lazy_retry_limit);
        match cleanup_pull(bk.last(), ledger, lazy_retry_limit) {
            Some(p) => if digests.contains(spec_u64_hash(p.0)) { prev } else { prev.push(p) },
            None => prev,
        }
    }
}

/// The number of start keys, from the front, that the ledger has.
pub open spec fn leading_known(keys: Seq<BlockHash>, ledger: LedgerView) -> nat
    decreases keys.len(),
{
    if keys.len() == 0 {
        0
    } else if ledger.spec_exists(keys[0]) {
        1 + leading_known(keys.drop_first(), ledger)
    } else {
        0
    }
}

/// A queued pull that is still worth making: neither processed nor in the ledger.
pub open spec fn worth_pulling(digests: Seq<u64>, ledger: LedgerView, e: (HashOrAccount, u32)) -> bool {
    !digests.contains(spec_u64_hash(e.0)) && !ledger.spec_exists(e.0)
}

pub open spec fn worth(digests: Seq<u64>, ledger: LedgerView, s: Seq<(HashOrAccount, u32)>) -> Seq<(HashOrAccount, u32)> {
    s.filter(|e: (HashOrAccount, u32)| worth_pulling(digests, ledger, e))
}

/// A flush stops after the first `p` queued pulls: there the queue ends or `max` pulls
/// worth making were found, and not before.
pub open spec fn flush_stops_at(q: Seq<(HashOrAccount, u32)>, digests: Seq<u64>, ledger: LedgerView, max: u32, p: int) -> bool {
    &&& 0 <= p <= q.len()
    &&& (p == q.len() || worth(digests, ledger, q.take(p)).len() == max)
    &&& forall|k: int| 0 <= k < p ==> worth(digests, ledger, q.take(k)).len() < max
}

/// The pull requests for queued starts.
pub open spec fn lazy_pull_infos(s: Seq<(HashOrAccount, u32)>, batch_count: u32, bootstrap_id: u64) -> Seq<PullInfo> {
    s.map_values(|e: (HashOrAccount, u32)| lazy_pull_info(e, batch_count, bootstrap_id))
}

/// The pull request for a queued start.
pub open spec fn lazy_pull_info(e: (HashOrAccount, u32), batch_count: u32, bootstrap_id: u64) -> PullInfo {
    PullInfo {
        account_or_head: e.0,
        head: e.0,
        head_original: e.0,
        end: Hash256 { hi: 0, lo: 0 },
        count: batch_count,
        attempts: 0,
        processed: 0,
        retry_limit: e.1,
        bootstrap_id,
    }
}

impl LazyData {
    /// Moves backlogged state blocks whose previous block reached the ledger on (see
    /// `cleanup_pull`); nothing happens in a stopped session.
    pub fn lazy_backlog_cleanup(&mut self, stopped: bool, ledger: &LedgerView)
        requires
            old(self).wf(),
            ledger.wf(),
        ensures
            final(self).wf(),
            final(self).same_frame(old(self)),
            final(self).processed_digests() == old(self).processed_digests(),
            final(self).undefined_links() == old(self).undefined_links(),
            final(self).balances() == old(self).balances(),
            stopped ==> final(self).pulls() == old(self).pulls() && final(self).backlog() == old(self).backlog(),
            !stopped ==> final(self).pulls() == old(self).pulls() + cleanup_pulls(old(self).backlog(),
                old(self).processed_digests(), *ledger, old(self).retry_limit()),
            !stopped ==> final(self).backlog() == old(self).backlog().filter(
                |e: (BlockHash, LazyStateBacklogItem)| !ledger.spec_exists(e.0)),
    {
        if stopped {
            return;
        }
        let ghost bk = self.lazy_state_backlog@;
        let ghost pulls0 = self.lazy_pulls@;
        let ghost digests = self.lazy_blocks@;
        let mut kept: Vec<(BlockHash, LazyStateBacklogItem)> = Vec::new();
        let mut i: usize = 0;
        while i < self.lazy_state_backlog.len()
            invariant
                bk == self.lazy_state_backlog@,
                digests == self.lazy_blocks@,
                ledger.wf(),
                keys_distinct(bk),
                i <= bk.len(),
                self.lazy_pulls@ == pulls0 + cleanup_pulls(bk.take(i as int), digests, *ledger, self.lazy_retry_limit),
                kept@ == bk.take(i as int).filter(|e: (BlockHash, LazyStateBacklogItem)| !ledger.spec_exists(e.0)),
                self.lazy_start_time == old(self).lazy_start_time,
                self.lazy_blocks_count == old(self).lazy_blocks_count,
                self.lazy_undefined_links@ == old(self).lazy_undefined_links@,
                self.lazy_keys@ == old(self).lazy_keys@,
                self.lazy_balances@ == old(self).lazy_balances@,
                self.disable_legacy_bootstrap == old(self).disable_legacy_bootstrap,
                self.lazy_retry_limit == old(self).lazy_retry_limit,
                old(self).wf(),
                bk == old(self).lazy_state_backlog@,
                pulls0 == old(self).lazy_pulls@,
                digests == old(self).lazy_blocks@,
            decreases bk.len() - i,
        {
            let (hash, item) = self.lazy_state_backlog[i];
            proof {
                assert(bk.take(i + 1).drop_last() =~= bk.take(i as int));
                assert(bk.take(i + 1).last() == bk[i as int]);
                reveal_with_fuel(Seq::<_>::filter, 1);
            }
            let ghost before = self.lazy_pulls@;
            if ledger.block_exists_or_pruned(&hash) {
                match ledger.block_balance(&hash) {
                    Some(b) => {
                        if b <= item.balance && !self.lazy_blocks_processed(&item.link) {
                            self.lazy_pulls.push((item.link, item.retry_limit));
                        }
                    },
                    None => {
                        if !self.lazy_blocks_processed(&item.link) {
                            self.lazy_pulls.push((item.link, self.lazy_retry_limit));
                        }
                    },
                }
            } else {
                if !self.lazy_blocks_processed(&hash) {
                    self.lazy_pulls.push((hash, item.retry_limit));
                }
                kept.push((hash, item));
            }
            proof {
                assert(self.lazy_pulls@ =~= pulls0 + cleanup_pulls(bk.take(i + 1), digests, *ledger, self.lazy_retry_limit));
            }
            i = i + 1;
        }
        proof {
            assert(bk.take(bk.len() as int) =~= bk);
            crate::seqs::lemma_filter_subsequence(bk, |e: (BlockHash, LazyStateBacklogItem)| !ledger.spec_exists(e.0));
            let f = kept@;
            assert forall|a: int, b: int| 0 <= a < b < f.len() implies f[a].0 != f[b].0 by {
                let (x, y) = choose|x: int, y: int| 0 <= x < y < bk.len() && bk[x] == #[trigger] f[a] && bk[y] == #[trigger] f[b];
            }
        }
        self.lazy_state_backlog = kept;
    }

    /// Whether the session is done: stopped, every start key reached the ledger (those at
    /// the front that did are dropped), or nothing is left to pull or settle.
    pub fn lazy_finished(&mut self, stopped: bool, ledger: &LedgerView) -> (r: bool)
        requires
            old(self).wf(),
            ledger.wf(),
        ensures
            final(self).wf(),
            final(self).model() == old(self).model(),
            final(self).start_time() == old(self).start_time(),
            final(self).disable_legacy() == old(self).disable_legacy(),
            final(self).retry_limit() == old(self).retry_limit(),
            stopped ==> r && final(self).keys() == old(self).keys(),
            !stopped ==> final(self).keys() == old(self).keys().skip(leading_known(old(self).keys(), *ledger) as int),
            !stopped ==> r == (leading_known(old(self).keys(), *ledger) == old(self).keys().len()
                || (old(self).pulls().len() == 0 && old(self).backlog().len() == 0)),
    {
        if stopped {
            return true;
        }
        let ghost keys = self.lazy_keys@;
        let mut i: usize = 0;
        proof { lemma_leading_known_bound(keys, *ledger); }
        while i < self.lazy_keys.len() && ledger.block_exists_or_pruned(&self.lazy_keys[i])
            invariant
                keys == self.lazy_keys@,
                ledger.wf(),
                i <= keys.len(),
                leading_known(keys, *ledger) == i + leading_known(keys.skip(i as int), *ledger),
            decreases keys.len() - i,
        {
            proof {
                assert(keys.skip(i as int).drop_first() =~= keys.skip(i + 1));
                assert(keys.skip(i as int)[0] == keys[i as int]);
            }
            i = i + 1;
        }
        proof {
            if i < keys.len() {
                assert(keys.skip(i as int)[0] == keys[i as int]);
            } else {
                assert(keys.skip(i as int) =~= Seq::<BlockHash>::empty());
            }
        }
        let all_known = i == self.lazy_keys.len();
        let mut rest: Vec<BlockHash> = Vec::new();
        let mut j: usize = i;
        while j < self.lazy_keys.len()
            invariant
                keys == self.lazy_keys@,
                i <= j <= keys.len(),
                rest@ == keys.subrange(i as int, j as int),
            decreases keys.len() - j,
        {
            rest.push(self.lazy_keys[j]);
            j = j + 1;
        }
        proof {
            assert(rest@ =~= keys.skip(i as int));
            assert forall|a: int, b: int| 0 <= a < b < rest@.len() implies rest@[a] != rest@[b] by {
                assert(rest@[a] == keys[a + i] && rest@[b] == keys[b + i]);
            }
        }
        self.lazy_keys = rest;
        all_known || (self.lazy_pulls.len() == 0 && self.lazy_state_backlog.len() == 0)
    }

    /// Turns queued pulls worth making into pull requests, from the front of the queue,
    /// until `max_pulls` requests are made or the queue is empty; pulls not worth making
    /// are dropped on the way. Nothing happens while `pulling` reaches `max_pulls`.
    pub fn lazy_pull_flush(&mut self, pulling: u32, max_pulls: u32, batch_count: u32, bootstrap_id: u64, ledger: &LedgerView) -> (r: Vec<PullInfo>)
        requires
            old(self).wf(),
            ledger.wf(),
        ensures
            final(self).wf(),
            final(self).same_frame(old(self)),
            final(self).processed_digests() == old(self).processed_digests(),
            final(self).undefined_links() == old(self).undefined_links(),
            final(self).backlog() == old(self).backlog(),
            final(self).balances() == old(self).balances(),
            pulling >= max_pulls ==> r@.len() == 0 && final(self).pulls() == old(self).pulls(),
            pulling < max_pulls ==> exists|p: int| #[trigger] flush_stops_at(old(self).pulls(), old(self).processed_digests(), *ledger, max_pulls, p)
                && final(self).pulls() == old(self).pulls().skip(p)
                && r@ == lazy_pull_infos(worth(old(self).processed_digests(), *ledger, old(self).pulls().take(p)),
                    batch_count, bootstrap_id),
    {
        let mut out: Vec<PullInfo> = Vec::new();
        if pulling >= max_pulls {
            return out;
        }
        let ghost q = self.lazy_pulls@;
        let ghost digests = self.lazy_blocks@;
        let mut p: usize = 0;
        let mut count: u32 = 0;
        while p < self.lazy_pulls.len() && count < max_pulls
            invariant
                q == self.lazy_pulls@,
                digests == self.lazy_blocks@,
                ledger.wf(),
                p <= q.len(),
                count == worth(digests, *ledger, q.take(p as int)).len(),
                count <= max_pulls,
                out@ == lazy_pull_infos(worth(digests, *ledger, q.take(p as int)), batch_count, bootstrap_id),
                forall|k: int| 0 <= k < p ==> worth(digests, *ledger, q.take(k)).len() < max_pulls,
            decreases q.len() - p,
        {
            let (h, retry) = self.lazy_pulls[p];
            proof {
                assert(q.take(p + 1).drop_last() =~= q.take(p as int));
                assert(q.take(p + 1).last() == q[p as int]);
                reveal_with_fuel(Seq::<_>::filter, 1);
                assert forall|k: int| 0 <= k < p + 1 implies worth(digests, *ledger, q.take(k)).len() < max_pulls by {
                    if k == p { }
                }
            }
            if !self.lazy_blocks_processed(&h) && !ledger.block_exists_or_pruned(&h) {
                out.push(PullInfo {
                    account_or_head: h,
                    head: h,
                    head_original: h,
                    end: Hash256::zero(),
                    count: batch_count,
                    attempts: 0,
                    processed: 0,
                    retry_limit: retry,
                    bootstrap_id,
                });
                count = count + 1;
            }
            proof {
                assert(out@ =~= lazy_pull_infos(worth(digests, *ledger, q.take(p + 1)), batch_count, bootstrap_id));
            }
            p = p + 1;
        }
        let mut rest: Vec<(HashOrAccount, u32)> = Vec::new();
        let mut j: usize = p;
        while j < self.lazy_pulls.len()
            invariant
                q == self.lazy_pulls@,
                p <= j <= q.len(),
                rest@ == q.subrange(p as int, j as int),
            decreases q.len() - j,
        {
            rest.push(self.lazy_pulls[j]);
            j = j + 1;
        }
        assert(rest@ =~= q.skip(p as int));
        self.lazy_pulls = rest;
        proof {
            assert(q == old(self).pulls());
            assert(digests == old(self).processed_digests());
            assert(flush_stops_at(q, digests, *ledger, max_pulls, p as int));
            assert(self.pulls() == q.skip(p as int));
            assert(out@ == lazy_pull_infos(worth(digests, *ledger, q.take(p as int)), batch_count, bootstrap_id));
        }
        out
    }

    /// Starts the session from a block or account, unless the start keys are full (1024,
    /// or 4096 without legacy bootstrap), it is a key already, or it was processed.
    /// Returns whether it was added (as a key, and as a pull with the session's retry
    /// limit).
    pub fn lazy_start(&mut self, hash_or_account: &HashOrAccount) -> (r: bool)
        requires
            old(self).wf(),
        ensures
            final(self).wf(),
            r == (old(self).keys().len() < (if old(self).disable_legacy() { 4096nat } else { 1024nat })
                && !old(self).keys().contains(*hash_or_account) && !old(self).processed(*hash_or_account)),
            r ==> final(self).keys() == old(self).keys().push(*hash_or_account)
                && final(self).pulls() == old(self).pulls().push((*hash_or_account, old(self).retry_limit())),
            !r ==> final(self).keys() == old(self).keys() && final(self).pulls() == old(self).pulls(),
            final(self).processed_digests() == old(self).processed_digests(),
            final(self).undefined_links() == old(self).undefined_links(),
            final(self).backlog() == old(self).backlog(),
            final(self).balances() == old(self).balances(),
            final(self).start_time() == old(self).start_time(),
            final(self).disable_legacy() == old(self).disable_legacy(),
            final(self).retry_limit() == old(self).retry_limit(),
    {
        let max_keys: usize = if self.disable_legacy_bootstrap { 4096 } else { 1024 };
        if self.lazy_keys.len() < max_keys && !hash_set_contains(&self.lazy_keys, hash_or_account)
            && !self.lazy_blocks_processed(hash_or_account) {
            let ghost before = self.lazy_keys@;
            self.lazy_keys.push(*hash_or_account);
            proof {
                let after = self.lazy_keys@;
                assert forall|a: int, b: int| 0 <= a < b < after.len() implies after[a] != after[b] by {
                    assert(after[a] == before[a]);
                    if b < before.len() { assert(after[b] == before[b]); } else { assert(before.contains(before[a])); }
                }
            }
            self.lazy_pulls.push((*hash_or_account, self.lazy_retry_limit));
            true
        } else {
            false
        }
    }

    /// Queues the start of a pull that reported a further block.
    pub fn lazy_add_pull(&mut self, pull: &PullInfo)
        requires
            old(self).wf(),
        ensures
            final(self).wf(),
            final(self).pulls() == old(self).pulls_after_add(old(self).pulls(), pull.account_or_head, pull.retry_limit),
            final(self).same_but_pulls(old(self)),
    {
        self.lazy_add(pull.account_or_head, pull.retry_limit);
    }

    /// Asks again for a processed block that failed: it becomes unprocessed and a pull
    /// of just that block, back to `previous`, is returned.
    pub fn lazy_requeue(&mut self, hash: &BlockHash, previous: &BlockHash, destinations_retry_limit: u32, bootstrap_id: u64) -> (r: Option<PullInfo>)
        requires
            old(self).wf(),
        ensures
            final(self).wf(),
            !old(self).processed(*hash) ==> r is None && final(self).processed_digests() == old(self).processed_digests(),
            old(self).processed(*hash) ==> !final(self).processed(*hash) && r == Some(PullInfo {
                account_or_head: *hash,
                head: *hash,
                head_original: *hash,
                end: *previous,
                count: 1,
                attempts: 0,
                processed: 0,
                retry_limit: destinations_retry_limit,
                bootstrap_id,
            }),
            final(self).pulls() == old(self).pulls(),
            final(self).backlog() == old(self).backlog(),
            final(self).keys() == old(self).keys(),
            final(self).balances() == old(self).balances(),
    {
        if self.lazy_blocks_processed(hash) {
            self.lazy_block_erase(hash);
            Some(PullInfo {
                account_or_head: *hash,
                head: *hash,
                head_original: *hash,
                end: *previous,
                count: 1,
                attempts: 0,
                processed: 0,
                retry_limit: destinations_retry_limit,
                bootstrap_id,
            })
        } else {
            None
        }
    }

    /// Whether the block was processed or is in the ledger.
    pub fn lazy_processed_or_exists(&self, hash: &BlockHash, ledger: &LedgerView) -> (r: bool)
        requires
            ledger.wf(),
        ensures
            r == (self.processed(*hash) || ledger.spec_exists(*hash)),
    {
        self.lazy_blocks_processed(hash) || ledger.block_exists_or_pruned(hash)
    }
}

proof fn lemma_leading_known_bound(keys: Seq<BlockHash>, ledger: LedgerView)
    ensures
        leading_known(keys, ledger) <= keys.len(),
        leading_known(keys, ledger) == 0 + leading_known(keys.skip(0), ledger),
    decreases keys.len(),
{
    assert(keys.skip(0) =~= keys);
    if keys.len() > 0 {
        lemma_leading_known_bound(keys.drop_first(), ledger);
    }
}

impl LazyData {
    /// Handles a block a pull delivered: an expected block is processed (see
    /// `process_block_lazy`); an unexpected one stops the pull. Returns whether the pull
    /// stops and whether the block goes to the block processor.
    pub fn process_block(
        &mut self,
        block: &LazyBlock,
        pull_blocks_processed: u64,
        max_blocks: u32,
        block_expected: bool,
        retry_limit: u32,
        ledger: &LedgerView,
        genesis_account: &BlockHash,
    ) -> (r: (bool, bool))
        requires
            old(self).wf(),
            ledger.wf(),
        ensures
            final(self).wf(),
            final(self).same_frame(old(self)),
            block_expected ==> final(self).model() == m_process(old(self).model(), *block, pull_blocks_processed,
                retry_limit, old(self).retry_limit(), *ledger, *genesis_account)
                && r == (pull_blocks_processed > max_blocks, !old(self).processed(block.hash)),
            !block_expected ==> final(self).model() == old(self).model() && r == (true, false),
    {
        if block_expected {
            self.process_block_lazy(block, pull_blocks_processed, max_blocks, retry_limit, ledger, genesis_account)
        } else {
            (true, false)
        }
    }
}

/// A flush makes at most `max` pull requests.
pub proof fn lemma_flush_bounded(q: Seq<(HashOrAccount, u32)>, digests: Seq<u64>, ledger: LedgerView, max: u32, p: int)
    requires
        flush_stops_at(q, digests, ledger, max, p),
    ensures
        worth(digests, ledger, q.take(p)).len() <= max,
{
    if p > 0 && p < q.len() {
    } else if p > 0 {
        let k = p - 1;
        assert(worth(digests, ledger, q.take(k)).len() < max);
        assert(q.take(p).drop_last() =~= q.take(k));
        reveal_with_fuel(Seq::<_>::filter, 1);
    } else {
        assert(q.take(0) =~= Seq::<(HashOrAccount, u32)>::empty());
        assert(worth(digests, ledger, q.take(0)) =~= Seq::<(HashOrAccount, u32)>::empty()) by {
            reveal_with_fuel(Seq::<_>::filter, 1);
        }
    }
}

/// Queueing never asks again for a processed block.
pub proof fn lemma_processed_blocks_are_not_pulled(m: LazyModel, h: HashOrAccount, retry_limit: u32)
    requires
        m_processed(m, h),
    ensures
        m_add(m, h, retry_limit) == m,
{
}

} // verus!
