//! A container holding votes that do not match any active or recently finished election.

use vstd::prelude::*;
use std::sync::Arc;
use crate::numbers::{BlockHash, PublicKey};
use crate::vote::Vote;
use crate::clock::{instant_now, millis_since};
use std::time::Instant;
use crate::seqs::{lemma_filter_drops, lemma_filter_subsequence};

verus! {

/// Sum of two 128-bit amounts, wrapping around on overflow.
pub open spec fn wrap_add(a: u128, b: u128) -> u128 {
    if a + b > u128::MAX {
        (a + b - 0x1_0000_0000_0000_0000_0000_0000_0000_0000int) as u128
    } else {
        (a + b) as u128
    }
}

/// A representative's vote together with its voting weight.
pub struct VoterEntry {
    pub representative: PublicKey,
    pub weight: u128,
    pub vote: Arc<Vote>,
}

impl VoterEntry {
    pub fn new(representative: PublicKey, weight: u128, vote: Arc<Vote>) -> (r: Self)
        ensures
            r.representative == representative,
            r.weight == weight,
            r.vote == vote,
    {
        VoterEntry { representative, weight, vote }
    }

    /// The weight counted towards the final tally: the full weight for final votes, else zero.
    pub open spec fn spec_final_weight(&self) -> u128 {
        if self.vote.spec_is_final() { self.weight } else { 0 }
    }

    pub fn final_weight(&self) -> (r: u128)
        ensures
            r == self.spec_final_weight(),
    {
        if self.vote.is_final() { self.weight } else { 0 }
    }

    fn duplicate(&self) -> (r: Self)
        ensures
            r == *self,
    {
        VoterEntry { representative: self.representative, weight: self.weight, vote: Arc::clone(&self.vote) }
    }
}

/// Tally of a list of voters: the sum of their weights, wrapping around on overflow.
pub open spec fn tally_of(s: Seq<VoterEntry>) -> u128
    decreases s.len(),
{
    if s.len() == 0 { 0 } else { wrap_add(tally_of(s.drop_last()), s.last().weight) }
}

/// Final tally of a list of voters: the sum of the weights of final votes, wrapping around.
pub open spec fn final_tally_of(s: Seq<VoterEntry>) -> u128
    decreases s.len(),
{
    if s.len() == 0 { 0 } else { wrap_add(final_tally_of(s.drop_last()), s.last().spec_final_weight()) }
}

/// No representative appears twice.
pub open spec fn unique_reps(s: Seq<VoterEntry>) -> bool {
    forall|i: int, j: int| 0 <= i < j < s.len() ==> s[i].representative != s[j].representative
}

/// Some voter in the list is the given representative.
pub open spec fn has_rep(s: Seq<VoterEntry>, rep: PublicKey) -> bool {
    exists|i: int| 0 <= i < s.len() && s[i].representative == rep
}

/// The position of the given representative in the list.
pub open spec fn rep_index(s: Seq<VoterEntry>, rep: PublicKey) -> int {
    choose|i: int| 0 <= i < s.len() && s[i].representative == rep
}

/// The smallest weight in a non-empty list of voters.
pub open spec fn min_weight_of(s: Seq<VoterEntry>) -> u128
    decreases s.len(),
{
    if s.len() <= 1 {
        s[0].weight
    } else {
        let m = min_weight_of(s.drop_last());
        if s.last().weight < m { s.last().weight } else { m }
    }
}

/// The voters that remain once every voter of the lowest weight is dropped.
pub open spec fn without_lowest(s: Seq<VoterEntry>) -> Seq<VoterEntry> {
    s.filter(|e: VoterEntry| e.weight != min_weight_of(s))
}

/// The voters after a vote arrives, and whether the tally changed.
///
/// A newer vote from a known representative replaces the older one (the tally changes
/// only if the vote became final); older or equal votes are ignored. A vote from a new
/// representative is added when there is room, or when it outweighs the lightest voter;
/// once the list is full, all voters of the lowest weight are dropped.
pub open spec fn after_vote(s: Seq<VoterEntry>, vote: Arc<Vote>, weight: u128, max_voters: usize) -> (Seq<VoterEntry>, bool) {
    let rep = vote.voting_account;
    if has_rep(s, rep) {
        let i = rep_index(s, rep);
        if vote.timestamp > s[i].vote.timestamp {
            (s.update(i, VoterEntry { representative: rep, weight, vote }),
             !s[i].vote.spec_is_final() && vote.spec_is_final())
        } else {
            (s, false)
        }
    } else if s.len() < max_voters || weight > min_weight_of(s) {
        let added = s.push(VoterEntry { representative: rep, weight, vote });
        (if added.len() >= max_voters { without_lowest(added) } else { added }, true)
    } else {
        (s, false)
    }
}

proof fn lemma_min_weight_is_min(s: Seq<VoterEntry>)
    requires
        s.len() > 0,
    ensures
        forall|i: int| 0 <= i < s.len() ==> min_weight_of(s) <= #[trigger] s[i].weight,
        exists|i: int| 0 <= i < s.len() && min_weight_of(s) == #[trigger] s[i].weight,
    decreases s.len(),
{
    if s.len() == 1 {
        assert(min_weight_of(s) == s[0].weight);
    } else {
        lemma_min_weight_is_min(s.drop_last());
        let k = choose|i: int| 0 <= i < s.drop_last().len() && min_weight_of(s.drop_last()) == #[trigger] s.drop_last()[i].weight;
        assert(s[k] == s.drop_last()[k]);
        if s.last().weight < min_weight_of(s.drop_last()) {
            assert(s[s.len() - 1].weight == min_weight_of(s));
        } else {
            assert(s[k].weight == min_weight_of(s));
        }
        assert forall|i: int| 0 <= i < s.len() implies min_weight_of(s) <= #[trigger] s[i].weight by {
            if i < s.len() - 1 {
                assert(s[i] == s.drop_last()[i]);
            }
        }
    }
}

/// The voters of one block hash, at most one per representative.
pub struct OrderedVoters {
    entries: Vec<VoterEntry>,
}

impl OrderedVoters {
    /// The voters in the order they were first added.
    pub closed spec fn voters(&self) -> Seq<VoterEntry> {
        self.entries@
    }

    pub closed spec fn wf(&self) -> bool {
        unique_reps(self.entries@)
    }

    pub fn new() -> (r: Self)
        ensures
            r.wf(),
            r.voters() == Seq::<VoterEntry>::empty(),
    {
        OrderedVoters { entries: Vec::new() }
    }

    fn index_of(&self, representative: &PublicKey) -> (r: Option<usize>)
        requires
            self.wf(),
        ensures
            match r {
                Some(i) => i < self.voters().len() && self.voters()[i as int].representative == *representative
                    && rep_index(self.voters(), *representative) == i,
                None => !has_rep(self.voters(), *representative),
            },
    {
        let mut i: usize = 0;
        while i < self.entries.len()
            invariant
                i <= self.entries@.len(),
                unique_reps(self.entries@),
                forall|j: int| 0 <= j < i ==> self.entries@[j].representative != *representative,
            decreases self.entries@.len() - i,
        {
            if self.entries[i].representative.equals(representative) {
                let ghost k = rep_index(self.entries@, *representative);
                assert(has_rep(self.entries@, *representative));
                assert(k == i as int) by {
                    assert(0 <= k < self.entries@.len() && self.entries@[k].representative == *representative);
                    if k != i as int {
                        if k < i as int {
                        } else {
                            assert(self.entries@[i as int].representative != self.entries@[k].representative);
                        }
                    }
                }
                return Some(i);
            }
            i = i + 1;
        }
        None
    }

    /// The entry of the given representative.
    pub fn find(&self, representative: &PublicKey) -> (r: Option<&VoterEntry>)
        requires
            self.wf(),
        ensures
            match r {
                Some(e) => has_rep(self.voters(), *representative)
                    && *e == self.voters()[rep_index(self.voters(), *representative)],
                None => !has_rep(self.voters(), *representative),
            },
    {
        match self.index_of(representative) {
            Some(i) => Some(&self.entries[i]),
            None => None,
        }
    }

    /// Adds the entry, replacing the entry of the same representative if there is one.
    pub fn insert(&mut self, entry: VoterEntry)
        requires
            old(self).wf(),
        ensures
            final(self).wf(),
            has_rep(old(self).voters(), entry.representative) ==> final(self).voters()
                == old(self).voters().update(rep_index(old(self).voters(), entry.representative), entry),
            !has_rep(old(self).voters(), entry.representative) ==> final(self).voters()
                == old(self).voters().push(entry),
    {
        match self.index_of(&entry.representative) {
            Some(i) => {
                self.entries.set(i, entry);
            },
            None => {
                self.entries.push(entry);
            },
        }
    }

    /// Replaces the vote and weight of a known representative; does nothing for an unknown one.
    pub fn modify(&mut self, representative: &PublicKey, vote: Arc<Vote>, new_weight: u128)
        requires
            old(self).wf(),
        ensures
            final(self).wf(),
            has_rep(old(self).voters(), *representative) ==> final(self).voters()
                == old(self).voters().update(
                    rep_index(old(self).voters(), *representative),
                    VoterEntry { representative: *representative, weight: new_weight, vote },
                ),
            !has_rep(old(self).voters(), *representative) ==> final(self).voters() == old(self).voters(),
    {
        match self.index_of(representative) {
            Some(i) => {
                self.entries.set(i, VoterEntry { representative: *representative, weight: new_weight, vote });
            },
            None => {},
        }
    }

    /// The smallest weight among the voters.
    pub fn min_weight(&self) -> (r: Option<u128>)
        ensures
            self.voters().len() == 0 ==> r.is_none(),
            self.voters().len() > 0 ==> r == Some(min_weight_of(self.voters())),
    {
        if self.entries.len() == 0 {
            return None;
        }
        let mut m = self.entries[0].weight;
        let mut i: usize = 1;
        proof {
            assert(self.entries@.take(1).drop_last() =~= Seq::<VoterEntry>::empty());
        }
        assert(m == min_weight_of(self.entries@.take(1)));
        while i < self.entries.len()
            invariant
                1 <= i <= self.entries@.len(),
                m == min_weight_of(self.entries@.take(i as int)),
            decreases self.entries@.len() - i,
        {
            assert(self.entries@.take(i + 1).drop_last() =~= self.entries@.take(i as int));
            if self.entries[i].weight < m {
                m = self.entries[i].weight;
            }
            i = i + 1;
        }
        assert(self.entries@.take(i as int) =~= self.entries@);
        Some(m)
    }

    /// Drops every voter whose weight is the lowest one.
    pub fn remove_lowest_weight(&mut self)
        requires
            old(self).wf(),
        ensures
            final(self).wf(),
            old(self).voters().len() == 0 ==> final(self).voters() == old(self).voters(),
            old(self).voters().len() > 0 ==> final(self).voters() == without_lowest(old(self).voters()),
    {
        match self.min_weight() {
            None => {},
            Some(m) => {
                let ghost s = self.entries@;
                let ghost pred = |e: VoterEntry| e.weight != m;
                let mut kept: Vec<VoterEntry> = Vec::new();
                let mut i: usize = 0;
                while i < self.entries.len()
                    invariant
                        i <= s.len(),
                        self.entries@ == s,
                        m == min_weight_of(s),
                        pred == (|e: VoterEntry| e.weight != m),
                        kept@ =~= s.take(i as int).filter(pred),
                    decreases s.len() - i,
                {
                    proof {
                        reveal_with_fuel(Seq::<_>::filter, 1);
                        assert(s.take(i + 1).drop_last() =~= s.take(i as int));
                        assert(s.take(i + 1).last() == s[i as int]);
                    }
                    if self.entries[i].weight != m {
                        kept.push(self.entries[i].duplicate());
                    }
                    proof {
                        let t = s.take(i + 1);
                        reveal_with_fuel(Seq::<_>::filter, 1);
                        assert(t.filter(pred) == (if pred(t.last()) {
                            t.drop_last().filter(pred).push(t.last())
                        } else {
                            t.drop_last().filter(pred)
                        }));
                        assert(t.drop_last() =~= s.take(i as int));
                        assert(t.last() == s[i as int]);
                        if pred(s[i as int]) {
                            assert(kept@ =~= s.take(i as int).filter(pred).push(s[i as int]));
                        } else {
                            assert(kept@ =~= s.take(i as int).filter(pred));
                        }
                        assert(kept@ =~= t.filter(pred));
                    }
                    i = i + 1;
                }
                proof {
                    assert(s.take(s.len() as int) =~= s);
                    lemma_filter_keeps_unique(s, pred);
                }
                self.entries = kept;
            },
        }
    }

    pub fn len(&self) -> (r: usize)
        ensures
            r == self.voters().len(),
    {
        self.entries.len()
    }

    pub fn is_empty(&self) -> (r: bool)
        ensures
            r == (self.voters().len() == 0),
    {
        self.entries.len() == 0
    }

    /// The votes of all voters, in voter order.
    pub fn votes(&self) -> (r: Vec<Arc<Vote>>)
        ensures
            r@.len() == self.voters().len(),
            forall|i: int| 0 <= i < r@.len() ==> r@[i] == #[trigger] self.voters()[i].vote,
    {
        let mut r: Vec<Arc<Vote>> = Vec::new();
        let mut i: usize = 0;
        while i < self.entries.len()
            invariant
                i <= self.entries@.len(),
                r@.len() == i,
                forall|j: int| 0 <= j < i ==> r@[j] == #[trigger] self.entries@[j].vote,
            decreases self.entries@.len() - i,
        {
            r.push(Arc::clone(&self.entries[i].vote));
            i = i + 1;
        }
        r
    }

    /// The wrapping sums of all weights and of the weights of final votes.
    pub fn calculate_tally(&self) -> (r: (u128, u128))
        ensures
            r.0 == tally_of(self.voters()),
            r.1 == final_tally_of(self.voters()),
    {
        let mut tally: u128 = 0;
        let mut final_tally: u128 = 0;
        let mut i: usize = 0;
        while i < self.entries.len()
            invariant
                i <= self.entries@.len(),
                tally == tally_of(self.entries@.take(i as int)),
                final_tally == final_tally_of(self.entries@.take(i as int)),
            decreases self.entries@.len() - i,
        {
            assert(self.entries@.take(i + 1).drop_last() =~= self.entries@.take(i as int));
            let w = self.entries[i].weight;
            tally = tally.wrapping_add(w);
            let fw = self.entries[i].final_weight();
            final_tally = final_tally.wrapping_add(fw);
            i = i + 1;
        }
        assert(self.entries@.take(i as int) =~= self.entries@);
        (tally, final_tally)
    }
}

proof fn lemma_filter_keeps_unique(s: Seq<VoterEntry>, pred: spec_fn(VoterEntry) -> bool)
    requires
        unique_reps(s),
    ensures
        unique_reps(s.filter(pred)),
        forall|i: int| 0 <= i < s.filter(pred).len() ==> exists|j: int| 0 <= j < s.len() && s[j] == #[trigger] s.filter(pred)[i],
    decreases s.len(),
{
    reveal_with_fuel(Seq::<_>::filter, 1);
    if s.len() > 0 {
        let t = s.drop_last();
        assert(unique_reps(t));
        lemma_filter_keeps_unique(t, pred);
        let ft = t.filter(pred);
        let fs = s.filter(pred);
        if pred(s.last()) {
            assert(fs =~= ft.push(s.last()));
            assert forall|i: int| 0 <= i < fs.len() implies exists|j: int| 0 <= j < s.len() && s[j] == #[trigger] fs[i] by {
                if i < ft.len() {
                    assert(fs[i] == ft[i]);
                    let m = choose|m: int| 0 <= m < t.len() && t[m] == ft[i];
                    assert(s[m] == t[m]);
                } else {
                    assert(s[s.len() - 1] == fs[i]);
                }
            }
            assert forall|i: int, j: int| 0 <= i < j < fs.len()
                implies fs[i].representative != fs[j].representative by {
                if j == ft.len() {
                    assert(fs[i] == ft[i]);
                    let m = choose|m: int| 0 <= m < t.len() && t[m] == ft[i];
                    assert(s[m] == t[m]);
                    assert(m < s.len() - 1);
                } else {
                    assert(fs[i] == ft[i] && fs[j] == ft[j]);
                }
            }
        } else {
            assert(fs =~= ft);
            assert forall|i: int| 0 <= i < fs.len() implies exists|j: int| 0 <= j < s.len() && s[j] == #[trigger] fs[i] by {
                assert(fs[i] == ft[i]);
                let m = choose|m: int| 0 <= m < t.len() && t[m] == ft[i];
                assert(s[m] == t[m]);
            }
        }
    }
}


/// The state of one cache entry, as plain values.
pub struct EntryModel {
    pub id: nat,
    pub hash: BlockHash,
    pub voters: Seq<VoterEntry>,
    pub last_vote: u64,
    pub tally: u128,
    pub final_tally: u128,
    /// Position of the entry among entries of equal tally: lower means it reached that tally earlier.
    pub stamp: nat,
}

/// The entry after a vote arrives at time `now`; `stamp` is the ordering stamp handed out
/// if the tally changes. Returns the entry and whether the vote counted.
pub open spec fn entry_after_vote(e: EntryModel, vote: Arc<Vote>, weight: u128, max_voters: usize, now: u64, stamp: nat) -> (EntryModel, bool) {
    let (voters, updated) = after_vote(e.voters, vote, weight, max_voters);
    if updated {
        let tally = tally_of(voters);
        (EntryModel {
            voters,
            last_vote: now,
            tally,
            final_tally: final_tally_of(voters),
            stamp: if tally != e.tally { stamp } else { e.stamp },
            ..e
        }, true)
    } else {
        (EntryModel { voters, ..e }, false)
    }
}

/// Stores votes associated with a single block hash.
pub struct CacheEntry {
    id: usize,
    pub hash: BlockHash,
    pub voters: OrderedVoters,
    /// Time of the last vote that counted, in milliseconds.
    pub last_vote: u64,
    tally: u128,
    final_tally: u128,
    stamp: u64,
}

impl CacheEntry {
    pub closed spec fn model(&self) -> EntryModel {
        EntryModel {
            id: self.id as nat,
            hash: self.hash,
            voters: self.voters.voters(),
            last_vote: self.last_vote,
            tally: self.tally,
            final_tally: self.final_tally,
            stamp: self.stamp as nat,
        }
    }

    pub closed spec fn wf(&self) -> bool {
        self.voters.wf()
    }

    pub fn new(id: usize, hash: BlockHash, now: u64, stamp: u64) -> (r: Self)
        ensures
            r.wf(),
            r.model() == (EntryModel {
                id: id as nat,
                hash,
                voters: Seq::empty(),
                last_vote: now,
                tally: 0,
                final_tally: 0,
                stamp: stamp as nat,
            }),
    {
        CacheEntry { id, hash, voters: OrderedVoters::new(), last_vote: now, tally: 0, final_tally: 0, stamp }
    }

    pub fn tally(&self) -> (r: u128)
        ensures
            r == self.model().tally,
    {
        self.tally
    }

    pub fn final_tally(&self) -> (r: u128)
        ensures
            r == self.model().final_tally,
    {
        self.final_tally
    }

    pub fn votes(&self) -> (r: Vec<Arc<Vote>>)
        ensures
            r@.len() == self.model().voters.len(),
            forall|i: int| 0 <= i < r@.len() ==> r@[i] == #[trigger] self.model().voters[i].vote,
    {
        self.voters.votes()
    }

    pub fn size(&self) -> (r: usize)
        ensures
            r == self.model().voters.len(),
    {
        self.voters.len()
    }

    /// Adds a vote, ignoring duplicates and keeping the newer vote of a representative.
    /// Returns true if the vote counted; then the tallies are recomputed and the time updated.
    pub fn vote(&mut self, vote: &Arc<Vote>, rep_weight: u128, max_voters: usize, now: u64, stamp: u64) -> (r: bool)
        requires
            old(self).wf(),
            max_voters > 0,
        ensures
            final(self).wf(),
            (final(self).model(), r) == entry_after_vote(old(self).model(), *vote, rep_weight, max_voters, now, stamp as nat),
    {
        let updated = self.vote_impl(vote, rep_weight, max_voters);
        if updated {
            let (tally, final_tally) = self.voters.calculate_tally();
            if tally != self.tally {
                self.stamp = stamp;
            }
            self.tally = tally;
            self.final_tally = final_tally;
            self.last_vote = now;
        }
        updated
    }

    fn vote_impl(&mut self, vote: &Arc<Vote>, rep_weight: u128, max_voters: usize) -> (r: bool)
        requires
            old(self).wf(),
            max_voters > 0,
        ensures
            final(self).wf(),
            (final(self).voters.voters(), r) == after_vote(old(self).voters.voters(), *vote, rep_weight, max_voters),
            final(self).id == old(self).id,
            final(self).hash == old(self).hash,
            final(self).last_vote == old(self).last_vote,
            final(self).tally == old(self).tally,
            final(self).final_tally == old(self).final_tally,
            final(self).stamp == old(self).stamp,
    {
        let representative = vote.voting_account;
        let existing = match self.voters.find(&representative) {
            Some(e) => Some((e.vote.timestamp(), e.vote.is_final())),
            None => None,
        };
        match existing {
            Some((timestamp, was_final)) => {
                if vote.timestamp() > timestamp {
                    self.voters.modify(&representative, Arc::clone(vote), rep_weight);
                    return !was_final && vote.is_final();
                } else {
                    return false;
                }
            },
            None => {},
        }
        let should_add = if self.voters.len() < max_voters {
            true
        } else {
            match self.voters.min_weight() {
                Some(m) => rep_weight > m,
                None => false,
            }
        };
        if should_add {
            self.voters.insert(VoterEntry::new(representative, rep_weight, Arc::clone(vote)));
            if self.voters.len() >= max_voters {
                self.voters.remove_lowest_weight();
            }
            return true;
        }
        false
    }
}


/// Configuration of the vote cache.
#[derive(Clone, Copy, Debug, PartialEq, Eq)]
pub struct VoteCacheConfig {
    pub max_size: usize,
    pub max_voters: usize,
    /// Entries without a counted vote for this long are dropped, in milliseconds.
    pub age_cutoff_ms: u64,
}

impl VoteCacheConfig {
    pub open spec fn spec_default() -> Self {
        VoteCacheConfig { max_size: 65536, max_voters: 64, age_cutoff_ms: 900_000 }
    }

    pub fn default() -> (r: Self)
        ensures
            r == Self::spec_default(),
            r.max_size == 1024 * 64,
            r.max_voters == 64,
            r.age_cutoff_ms == 15 * 60 * 1000,
    {
        VoteCacheConfig { max_size: 1024 * 64, max_voters: 64, age_cutoff_ms: 15 * 60 * 1000 }
    }
}

/// How a vote was handled for one block hash.
#[derive(Clone, Copy, Debug, PartialEq, Eq)]
pub enum VoteCode {
    Invalid,
    Replay,
    Vote,
    Indeterminate,
    Ignored,
}

/// A block hash together with its observed tallies.
#[derive(Clone, Copy, Debug, PartialEq, Eq)]
pub struct TopEntry {
    pub hash: BlockHash,
    pub tally: u128,
    pub final_tally: u128,
}

/// The state of the whole cache, as plain values.
pub struct CacheModel {
    /// Entries from oldest to newest.
    pub entries: Seq<EntryModel>,
    pub next_id: nat,
    pub next_stamp: nat,
}

/// Some entry holds votes for the hash.
pub open spec fn has_entry(es: Seq<EntryModel>, h: BlockHash) -> bool {
    exists|i: int| 0 <= i < es.len() && es[i].hash == h
}

/// The position of the entry of the hash.
pub open spec fn entry_index(es: Seq<EntryModel>, h: BlockHash) -> int {
    choose|i: int| 0 <= i < es.len() && es[i].hash == h
}

/// The cache after one vote arrives for one hash at time `now`.
/// A known hash has its entry updated in place. An unknown hash gets a new entry at the
/// back; if that makes the cache exceed `max_size`, the oldest entry is evicted.
pub open spec fn cache_after_insert(m: CacheModel, hash: BlockHash, vote: Arc<Vote>, weight: u128, max_voters: usize, max_size: usize, now: u64) -> CacheModel {
    if has_entry(m.entries, hash) {
        let i = entry_index(m.entries, hash);
        let e = entry_after_vote(m.entries[i], vote, weight, max_voters, now, m.next_stamp).0;
        CacheModel {
            entries: m.entries.update(i, e),
            next_stamp: if e.tally != m.entries[i].tally { m.next_stamp + 1 } else { m.next_stamp },
            ..m
        }
    } else {
        let fresh = EntryModel {
            id: m.next_id,
            hash,
            voters: Seq::empty(),
            last_vote: now,
            tally: 0,
            final_tally: 0,
            stamp: m.next_stamp,
        };
        let e = entry_after_vote(fresh, vote, weight, max_voters, now, m.next_stamp).0;
        let es = m.entries.push(e);
        CacheModel {
            entries: if es.len() > max_size { es.drop_first() } else { es },
            next_id: m.next_id + 1,
            next_stamp: m.next_stamp + 1,
        }
    }
}

/// The cache after a vote arrives for each of the hashes in turn.
pub open spec fn cache_after_inserts(m: CacheModel, hashes: Seq<BlockHash>, vote: Arc<Vote>, weight: u128, max_voters: usize, max_size: usize, now: u64) -> CacheModel
    decreases hashes.len(),
{
    if hashes.len() == 0 {
        m
    } else {
        cache_after_insert(
            cache_after_inserts(m, hashes.drop_last(), vote, weight, max_voters, max_size, now),
            hashes.last(), vote, weight, max_voters, max_size, now)
    }
}

/// The hashes of a vote that get cached, given the outcome of processing the vote:
/// all of its hashes when there is no outcome, else those with an active or undecided election.
pub open spec fn hashes_to_cache(vote_hashes: Seq<BlockHash>, results: Seq<(BlockHash, VoteCode)>) -> Seq<BlockHash> {
    if results.len() == 0 {
        vote_hashes
    } else {
        results.filter(|r: (BlockHash, VoteCode)| r.1 == VoteCode::Vote || r.1 == VoteCode::Indeterminate)
            .map_values(|r: (BlockHash, VoteCode)| r.0)
    }
}

/// Whether an entry's tally reaches the threshold.
pub open spec fn reaches(e: EntryModel, min_tally: u128) -> bool {
    e.tally >= min_tally
}

/// `a` comes before `b` in the ranking: higher final tally first, then higher tally, and
/// among entries equal in both the one that reached its tally first.
pub open spec fn ranks_before(a: EntryModel, b: EntryModel) -> bool {
    ||| a.final_tally > b.final_tally
    ||| (a.final_tally == b.final_tally && a.tally > b.tally)
    ||| (a.final_tally == b.final_tally && a.tally == b.tally && a.stamp < b.stamp)
}

/// Entry `i` ranks before every other entry that reaches the threshold.
pub open spec fn is_best(es: Seq<EntryModel>, i: int, min_tally: u128) -> bool {
    &&& 0 <= i < es.len()
    &&& reaches(es[i], min_tally)
    &&& forall|j: int| 0 <= j < es.len() && j != i && reaches(es[j], min_tally) ==> ranks_before(es[i], es[j])
}

/// The entries reaching the threshold, in ranking order.
pub open spec fn ranked(es: Seq<EntryModel>, min_tally: u128) -> Seq<EntryModel>
    decreases es.len(),
{
    if exists|i: int| is_best(es, i, min_tally) {
        let i = choose|i: int| is_best(es, i, min_tally);
        seq![es[i]] + ranked(es.remove(i), min_tally)
    } else {
        Seq::empty()
    }
}

pub open spec fn top_entry_of(e: EntryModel) -> TopEntry {
    TopEntry { hash: e.hash, tally: e.tally, final_tally: e.final_tally }
}

/// Whether an entry got no counted vote for at least `age_cutoff` milliseconds before `now`.
pub open spec fn expired(e: EntryModel, now: u64, age_cutoff: u64) -> bool {
    now >= e.last_vote && now - e.last_vote >= age_cutoff
}

/// Distinct stamps.
pub open spec fn unique_stamps(es: Seq<EntryModel>) -> bool {
    forall|i: int, j: int| 0 <= i < es.len() && 0 <= j < es.len() && i != j ==> es[i].stamp != es[j].stamp
}

/// A container holding votes that do not match any active or recently finished elections.
/// Votes are cached per block hash with a bounded number of votes per hash;
/// when the cache exceeds `max_size`, the oldest entries are evicted first.
pub struct VoteCache {
    config: VoteCacheConfig,
    entries: Vec<CacheEntry>,
    next_id: usize,
    next_stamp: u64,
    last_cleanup: u64,
    cleanup_count: u64,
    /// Times are counted in milliseconds from this reading of the monotonic clock.
    epoch: Instant,
}

impl VoteCache {
    pub closed spec fn model(&self) -> CacheModel {
        CacheModel {
            entries: self.entries@.map_values(|e: CacheEntry| e.model()),
            next_id: self.next_id as nat,
            next_stamp: self.next_stamp as nat,
        }
    }

    pub closed spec fn config(&self) -> VoteCacheConfig {
        self.config
    }

    /// The time of the last cleanup, in milliseconds.
    pub closed spec fn last_cleanup(&self) -> u64 {
        self.last_cleanup
    }

    pub closed spec fn spec_cleanup_count(&self) -> nat {
        self.cleanup_count as nat
    }

    pub closed spec fn wf(&self) -> bool {
        let es = self.model().entries;
        &&& forall|i: int| 0 <= i < self.entries@.len() ==> (#[trigger] self.entries@[i]).wf()
        &&& forall|i: int, j: int| 0 <= i < j < es.len() ==> es[i].hash != es[j].hash
        &&& forall|i: int, j: int| 0 <= i < j < es.len() ==> es[i].id < es[j].id
        &&& forall|i: int| 0 <= i < es.len() ==> es[i].id < self.next_id && es[i].stamp < self.next_stamp
        &&& unique_stamps(es)
        &&& es.len() <= self.config.max_size
    }

    /// What every well-formed cache keeps: one entry per block hash, distinct stamps,
    /// and at most `max_size` entries.
    pub proof fn lemma_wf(&self)
        requires
            self.wf(),
        ensures
            forall|i: int, j: int| 0 <= i < j < self.model().entries.len() ==>
                (#[trigger] self.model().entries[i]).hash != (#[trigger] self.model().entries[j]).hash,
            unique_stamps(self.model().entries),
            self.model().entries.len() <= self.config().max_size,
    {
    }

    /// A cache with the given configuration; its times count from its creation.
    pub fn new(config: VoteCacheConfig) -> (r: Self)
        ensures
            r.wf(),
            r.config() == config,
            r.model().entries.len() == 0,
            r.model().next_id == 0,
            r.model().next_stamp == 0,
            r.spec_cleanup_count() == 0,
    {
        Self::new_at(config, 0)
    }

    /// A cache with the given configuration, created at time `now`.
    pub fn new_at(config: VoteCacheConfig, now: u64) -> (r: Self)
        ensures
            r.wf(),
            r.config() == config,
            r.model().entries.len() == 0,
            r.model().next_id == 0,
            r.model().next_stamp == 0,
            r.last_cleanup() == now,
            r.spec_cleanup_count() == 0,
    {
        let r = VoteCache { config, entries: Vec::new(), next_id: 0, next_stamp: 0, last_cleanup: now, cleanup_count: 0, epoch: instant_now() };
        assert(r.model().entries =~= Seq::<EntryModel>::empty());
        r
    }

    /// The position of the entry of the hash.
    fn index_of(&self, hash: &BlockHash) -> (r: Option<usize>)
        requires
            self.wf(),
        ensures
            match r {
                Some(i) => i < self.model().entries.len() && self.model().entries[i as int].hash == *hash
                    && entry_index(self.model().entries, *hash) == i,
                None => !has_entry(self.model().entries, *hash),
            },
    {
        let ghost es = self.model().entries;
        let mut i: usize = 0;
        while i < self.entries.len()
            invariant
                i <= self.entries@.len(),
                es == self.model().entries,
                self.wf(),
                forall|j: int| 0 <= j < i ==> es[j].hash != *hash,
            decreases self.entries@.len() - i,
        {
            assert(es[i as int] == self.entries@[i as int].model());
            if self.entries[i].hash.equals(hash) {
                assert(has_entry(es, *hash));
                let ghost k = entry_index(es, *hash);
                assert(k == i as int) by {
                    if k != i as int {
                        if k > i as int {
                            assert(es[i as int].hash != es[k].hash);
                        }
                    }
                }
                return Some(i);
            }
            i = i + 1;
        }
        None
    }

    pub fn size(&self) -> (r: usize)
        ensures
            r == self.model().entries.len(),
    {
        self.entries.len()
    }

    pub fn empty(&self) -> (r: bool)
        ensures
            r == (self.model().entries.len() == 0),
    {
        self.entries.len() == 0
    }

    /// The id the next new entry gets.
    pub fn next_id(&self) -> (r: usize)
        ensures
            r == self.model().next_id,
    {
        self.next_id
    }

    /// The stamp the next tally change gets.
    pub fn next_stamp(&self) -> (r: u64)
        ensures
            r == self.model().next_stamp,
    {
        self.next_stamp
    }

    /// How many cleanups ran so far.
    pub fn cleanup_count(&self) -> (r: u64)
        ensures
            r == self.spec_cleanup_count(),
    {
        self.cleanup_count
    }

    /// The votes cached for the hash; empty when the hash is unknown.
    pub fn find(&self, hash: &BlockHash) -> (r: Vec<Arc<Vote>>)
        requires
            self.wf(),
        ensures
            !has_entry(self.model().entries, *hash) ==> r@.len() == 0,
            has_entry(self.model().entries, *hash) ==> {
                let e = self.model().entries[entry_index(self.model().entries, *hash)];
                &&& r@.len() == e.voters.len()
                &&& forall|i: int| 0 <= i < r@.len() ==> r@[i] == #[trigger] e.voters[i].vote
            },
    {
        match self.index_of(hash) {
            Some(i) => self.entries[i].votes(),
            None => Vec::new(),
        }
    }

    /// Records a vote for one hash at time `now`.
    fn insert_impl(&mut self, vote: &Arc<Vote>, hash: &BlockHash, rep_weight: u128, now: u64)
        requires
            old(self).wf(),
            old(self).config().max_voters > 0,
            old(self).model().next_id < usize::MAX,
            old(self).model().next_stamp < u64::MAX,
        ensures
            final(self).wf(),
            final(self).model() == cache_after_insert(old(self).model(), *hash, *vote, rep_weight,
                old(self).config().max_voters, old(self).config().max_size, now),
            final(self).config() == old(self).config(),
            final(self).last_cleanup() == old(self).last_cleanup(),
            final(self).spec_cleanup_count() == old(self).spec_cleanup_count(),
    {
        let ghost m = self.model();
        let ghost old_entries = self.entries@;
        match self.index_of(hash) {
            Some(i) => {
                let mut e = self.entries.remove(i);
                assert(e == old_entries[i as int]);
                let old_tally = e.tally();
                let stamp = self.next_stamp;
                e.vote(vote, rep_weight, self.config.max_voters, now, stamp);
                if e.tally() != old_tally {
                    self.next_stamp = self.next_stamp + 1;
                }
                self.entries.insert(i, e);
                proof {
                    assert(self.entries@ =~= old_entries.update(i as int, e));
                    assert(self.model().entries =~= m.entries.update(i as int, e.model()));
                }
            },
            None => {
                let stamp = self.next_stamp;
                let mut e = CacheEntry::new(self.next_id, *hash, now, stamp);
                self.next_id = self.next_id + 1;
                self.next_stamp = self.next_stamp + 1;
                e.vote(vote, rep_weight, self.config.max_voters, now, stamp);
                self.entries.push(e);
                proof {
                    assert(self.entries@ =~= old_entries.push(e));
                    assert(self.model().entries =~= m.entries.push(e.model()));
                }
                if self.entries.len() > self.config.max_size {
                    let ghost pushed = self.entries@;
                    self.entries.remove(0);
                    proof {
                        assert(self.entries@ =~= pushed.drop_first());
                        assert(self.model().entries =~= m.entries.push(e.model()).drop_first());
                    }
                }
            },
        }
    }

    /// Adds a vote to the cache at time `now`. When `results` is empty, all hashes of the
    /// vote are cached; otherwise only those whose election is active or undecided, in the
    /// order given.
    pub fn insert_at(&mut self, vote: &Arc<Vote>, rep_weight: u128, results: &Vec<(BlockHash, VoteCode)>, now: u64)
        requires
            old(self).wf(),
            old(self).config().max_voters > 0,
            old(self).model().next_id + hashes_to_cache(vote.hashes@, results@).len() < usize::MAX,
            old(self).model().next_stamp + hashes_to_cache(vote.hashes@, results@).len() < u64::MAX,
        ensures
            final(self).wf(),
            final(self).model() == cache_after_inserts(old(self).model(), hashes_to_cache(vote.hashes@, results@),
                *vote, rep_weight, old(self).config().max_voters, old(self).config().max_size, now),
            final(self).config() == old(self).config(),
            final(self).last_cleanup() == old(self).last_cleanup(),
            final(self).spec_cleanup_count() == old(self).spec_cleanup_count(),
    {
        let hashes = Self::hashes_to_cache(&vote.hashes, results);
        let ghost m0 = self.model();
        let ghost hs = hashes@;
        let mut i: usize = 0;
        while i < hashes.len()
            invariant
                i <= hs.len(),
                hashes@ == hs,
                self.wf(),
                self.config().max_voters > 0,
                self.model() == cache_after_inserts(m0, hs.take(i as int), *vote, rep_weight,
                    self.config().max_voters, self.config().max_size, now),
                self.model().next_id <= m0.next_id + i,
                self.model().next_stamp <= m0.next_stamp + i,
                m0.next_id + hs.len() < usize::MAX,
                m0.next_stamp + hs.len() < u64::MAX,
                self.config() == old(self).config(),
                self.last_cleanup() == old(self).last_cleanup(),
                self.spec_cleanup_count() == old(self).spec_cleanup_count(),
            decreases hs.len() - i,
        {
            proof {
                assert(hs.take(i + 1).drop_last() =~= hs.take(i as int));
                assert(hs.take(i + 1).last() == hs[i as int]);
            }
            self.insert_impl(vote, &hashes[i], rep_weight, now);
            i = i + 1;
        }
        assert(hs.take(hs.len() as int) =~= hs);
    }

    /// The hashes that get cached for a vote, given the outcome of processing it.
    fn hashes_to_cache(vote_hashes: &Vec<BlockHash>, results: &Vec<(BlockHash, VoteCode)>) -> (r: Vec<BlockHash>)
        ensures
            r@ == hashes_to_cache(vote_hashes@, results@),
    {
        let mut r: Vec<BlockHash> = Vec::new();
        if results.len() == 0 {
            let mut i: usize = 0;
            while i < vote_hashes.len()
                invariant
                    i <= vote_hashes@.len(),
                    r@ =~= vote_hashes@.take(i as int),
                decreases vote_hashes@.len() - i,
            {
                r.push(vote_hashes[i]);
                i = i + 1;
            }
            assert(vote_hashes@.take(i as int) =~= vote_hashes@);
            return r;
        }
        let ghost pred = |x: (BlockHash, VoteCode)| x.1 == VoteCode::Vote || x.1 == VoteCode::Indeterminate;
        let ghost f = |x: (BlockHash, VoteCode)| x.0;
        let mut i: usize = 0;
        while i < results.len()
            invariant
                i <= results@.len(),
                pred == (|x: (BlockHash, VoteCode)| x.1 == VoteCode::Vote || x.1 == VoteCode::Indeterminate),
                f == (|x: (BlockHash, VoteCode)| x.0),
                r@ =~= results@.take(i as int).filter(pred).map_values(f),
            decreases results@.len() - i,
        {
            let (h, code) = results[i];
            let keep = match code {
                VoteCode::Vote | VoteCode::Indeterminate => true,
                _ => false,
            };
            if keep {
                r.push(h);
            }
            proof {
                let t = results@.take(i + 1);
                reveal_with_fuel(Seq::<_>::filter, 1);
                assert(t.drop_last() =~= results@.take(i as int));
                assert(t.last() == results@[i as int]);
                if pred(t.last()) {
                    assert(t.filter(pred) == t.drop_last().filter(pred).push(t.last()));
                    assert(t.filter(pred).map_values(f) =~= t.drop_last().filter(pred).map_values(f).push(h));
                } else {
                    assert(t.filter(pred) == t.drop_last().filter(pred));
                }
            }
            i = i + 1;
        }
        assert(results@.take(i as int) =~= results@);
        r
    }

    /// Removes the entry of the hash; returns whether there was one.
    pub fn erase(&mut self, hash: &BlockHash) -> (r: bool)
        requires
            old(self).wf(),
        ensures
            final(self).wf(),
            r == has_entry(old(self).model().entries, *hash),
            r ==> final(self).model().entries == old(self).model().entries.remove(entry_index(old(self).model().entries, *hash)),
            !r ==> final(self).model().entries == old(self).model().entries,
            !has_entry(final(self).model().entries, *hash),
            final(self).model().next_id == old(self).model().next_id,
            final(self).model().next_stamp == old(self).model().next_stamp,
            final(self).config() == old(self).config(),
            final(self).last_cleanup() == old(self).last_cleanup(),
            final(self).spec_cleanup_count() == old(self).spec_cleanup_count(),
    {
        let ghost old_entries = self.entries@;
        let ghost m = self.model();
        match self.index_of(hash) {
            Some(i) => {
                self.entries.remove(i);
                proof {
                    let es = self.model().entries;
                    assert(es =~= m.entries.remove(i as int));
                    assert forall|j: int| 0 <= j < es.len() implies es[j].hash != *hash by {
                        if j < i {
                            assert(es[j] == m.entries[j]);
                        } else {
                            assert(es[j] == m.entries[j + 1]);
                        }
                    }
                }
                true
            },
            None => false,
        }
    }

    /// Removes all entries.
    pub fn clear(&mut self)
        requires
            old(self).wf(),
        ensures
            final(self).wf(),
            final(self).model().entries.len() == 0,
            final(self).model().next_id == old(self).model().next_id,
            final(self).model().next_stamp == old(self).model().next_stamp,
            final(self).config() == old(self).config(),
            final(self).last_cleanup() == old(self).last_cleanup(),
            final(self).spec_cleanup_count() == old(self).spec_cleanup_count(),
    {
        self.entries.clear();
        assert(self.model().entries =~= Seq::<EntryModel>::empty());
    }

    /// Drops all entries that got no counted vote for at least the age cutoff.
    fn cleanup(&mut self, now: u64)
        requires
            old(self).wf(),
        ensures
            final(self).wf(),
            final(self).model().entries == old(self).model().entries.filter(
                |e: EntryModel| !expired(e, now, old(self).config().age_cutoff_ms)),
            final(self).model().next_id == old(self).model().next_id,
            final(self).model().next_stamp == old(self).model().next_stamp,
            final(self).config() == old(self).config(),
            final(self).last_cleanup() == old(self).last_cleanup(),
            final(self).spec_cleanup_count() == old(self).spec_cleanup_count(),
    {
        let ghost m = self.model();
        let ghost cutoff = self.config.age_cutoff_ms;
        let ghost pred = |e: EntryModel| !expired(e, now, cutoff);
        let mut rest: Vec<CacheEntry> = Vec::new();
        std::mem::swap(&mut rest, &mut self.entries);
        let ghost all = rest@;
        assert(all.map_values(|e: CacheEntry| e.model()) == m.entries);
        let mut i: usize = 0;
        let n = rest.len();
        while i < n
            invariant
                n == all.len(),
                i <= n,
                rest@ =~= all.skip(i as int),
                pred == (|e: EntryModel| !expired(e, now, cutoff)),
                cutoff == self.config.age_cutoff_ms,
                all.map_values(|e: CacheEntry| e.model()) == m.entries,
                self.model().entries =~= m.entries.take(i as int).filter(pred),
                forall|j: int| 0 <= j < all.len() ==> (#[trigger] all[j]).wf(),
                forall|j: int| 0 <= j < self.entries@.len() ==> (#[trigger] self.entries@[j]).wf(),
                self.next_id == m.next_id,
                self.next_stamp == m.next_stamp,
                self.config == old(self).config,
                self.last_cleanup == old(self).last_cleanup,
                self.cleanup_count == old(self).cleanup_count,
            decreases n - i,
        {
            let e = rest.remove(0);
            assert(e == all[i as int]);
            let keep = !(now >= e.last_vote && now - e.last_vote >= self.config.age_cutoff_ms);
            let ghost em = e.model();
            assert(em == m.entries[i as int]);
            let ghost before = self.model().entries;
            if keep {
                self.entries.push(e);
                assert(self.model().entries =~= before.push(em));
            }
            proof {
                let t = m.entries.take(i + 1);
                reveal_with_fuel(Seq::<_>::filter, 1);
                assert(t.drop_last() =~= m.entries.take(i as int));
                assert(t.last() == em);
                assert(pred(em) == keep);
            }
            i = i + 1;
        }
        proof {
            assert(m.entries.take(n as int) =~= m.entries);
            lemma_filter_subsequence(m.entries, pred);
            let f = m.entries.filter(pred);
            assert forall|a: int, b: int| 0 <= a < b < f.len() implies f[a].hash != f[b].hash && f[a].id < f[b].id by {
                let (x, y) = choose|x: int, y: int| 0 <= x < y < m.entries.len() && m.entries[x] == f[a] && m.entries[y] == f[b];
            }
            assert forall|a: int| 0 <= a < f.len() implies f[a].id < self.next_id && f[a].stamp < self.next_stamp by {
                let x = choose|x: int| 0 <= x < m.entries.len() && m.entries[x] == f[a];
            }
            assert forall|a: int, b: int| 0 <= a < f.len() && 0 <= b < f.len() && a != b implies f[a].stamp != f[b].stamp by {
                if a < b {
                    let (x, y) = choose|x: int, y: int| 0 <= x < y < m.entries.len() && m.entries[x] == f[a] && m.entries[y] == f[b];
                } else {
                    let (x, y) = choose|x: int, y: int| 0 <= x < y < m.entries.len() && m.entries[x] == f[b] && m.entries[y] == f[a];
                }
            }
            m.entries.lemma_filter_len(pred);
        }
    }


    /// Adds a vote to the cache at the current time (see `insert_at`).
    pub fn insert(&mut self, vote: &Arc<Vote>, rep_weight: u128, results: &Vec<(BlockHash, VoteCode)>)
        requires
            old(self).wf(),
            old(self).config().max_voters > 0,
            old(self).model().next_id + hashes_to_cache(vote.hashes@, results@).len() < usize::MAX,
            old(self).model().next_stamp + hashes_to_cache(vote.hashes@, results@).len() < u64::MAX,
        ensures
            final(self).wf(),
            exists|now: u64| final(self).model() == cache_after_inserts(old(self).model(), hashes_to_cache(vote.hashes@, results@),
                *vote, rep_weight, old(self).config().max_voters, old(self).config().max_size, now),
            final(self).config() == old(self).config(),
            final(self).last_cleanup() == old(self).last_cleanup(),
            final(self).spec_cleanup_count() == old(self).spec_cleanup_count(),
    {
        let now = millis_since(&self.epoch);
        self.insert_at(vote, rep_weight, results, now);
    }

    /// The ranked block hashes at the current time (see `top_at`).
    pub fn top(&mut self, min_tally: u128) -> (r: Vec<TopEntry>)
        requires
            old(self).wf(),
        ensures
            final(self).wf(),
            exists|now: u64| #![trigger old(self).cleanup_due(now)] {
                &&& old(self).cleanup_due(now) ==> final(self).model().entries == old(self).model().entries.filter(
                    |e: EntryModel| !expired(e, now, old(self).config().age_cutoff_ms))
                &&& !old(self).cleanup_due(now) ==> final(self).model().entries == old(self).model().entries
            },
            final(self).model().next_id == old(self).model().next_id,
            final(self).model().next_stamp == old(self).model().next_stamp,
            final(self).config() == old(self).config(),
            r@ == ranked(final(self).model().entries, min_tally).map_values(|e: EntryModel| top_entry_of(e)),
    {
        let now = millis_since(&self.epoch);
        self.top_at(min_tally, now)
    }

    /// Whether a cleanup is due at time `now`: half the age cutoff passed since the last one.
    pub open spec fn cleanup_due(&self, now: u64) -> bool {
        (if now >= self.last_cleanup() { now - self.last_cleanup() } else { 0 }) >= self.config().age_cutoff_ms / 2
    }

    /// Block hashes whose tally reaches `min_tally`, in descending order of final tally,
    /// then of tally (ties: the entry that reached its tally first). Runs a cleanup first
    /// when one is due.
    pub fn top_at(&mut self, min_tally: u128, now: u64) -> (r: Vec<TopEntry>)
        requires
            old(self).wf(),
        ensures
            final(self).wf(),
            old(self).cleanup_due(now) ==> {
                &&& final(self).model().entries == old(self).model().entries.filter(
                    |e: EntryModel| !expired(e, now, old(self).config().age_cutoff_ms))
                &&& final(self).last_cleanup() == now
                &&& final(self).spec_cleanup_count() == (if old(self).spec_cleanup_count() < u64::MAX {
                    old(self).spec_cleanup_count() + 1 } else { old(self).spec_cleanup_count() })
            },
            !old(self).cleanup_due(now) ==> {
                &&& final(self).model().entries == old(self).model().entries
                &&& final(self).last_cleanup() == old(self).last_cleanup()
                &&& final(self).spec_cleanup_count() == old(self).spec_cleanup_count()
            },
            final(self).model().next_id == old(self).model().next_id,
            final(self).model().next_stamp == old(self).model().next_stamp,
            final(self).config() == old(self).config(),
            r@ == ranked(final(self).model().entries, min_tally).map_values(|e: EntryModel| top_entry_of(e)),
    {
        let elapsed = if now >= self.last_cleanup { now - self.last_cleanup } else { 0 };
        if elapsed >= self.config.age_cutoff_ms / 2 {
            self.cleanup(now);
            self.last_cleanup = now;
            if self.cleanup_count < u64::MAX {
                self.cleanup_count = self.cleanup_count + 1;
            }
        }
        self.ranked(min_tally)
    }

    fn ranked(&self, min_tally: u128) -> (r: Vec<TopEntry>)
        requires
            self.wf(),
        ensures
            r@ == ranked(self.model().entries, min_tally).map_values(|e: EntryModel| top_entry_of(e)),
    {
        let ghost all = self.model().entries;
        let mut work: Vec<(BlockHash, u128, u128, u64)> = Vec::new();
        let mut i: usize = 0;
        while i < self.entries.len()
            invariant
                i <= self.entries@.len(),
                all == self.model().entries,
                self.wf(),
                work@.len() == i,
                forall|k: int| 0 <= k < i ==> #[trigger] work@[k] == (all[k].hash, all[k].tally, all[k].final_tally, all[k].stamp as u64),
            decreases self.entries@.len() - i,
        {
            let e = &self.entries[i];
            assert(all[i as int] == e.model());
            work.push((e.hash, e.tally, e.final_tally, e.stamp));
            i = i + 1;
        }
        let ghost mut rest = all;
        let ghost mut acc: Seq<EntryModel> = Seq::empty();
        let mut result: Vec<TopEntry> = Vec::new();
        let mut done = false;
        while !done
            invariant
                work@.len() == rest.len(),
                forall|k: int| 0 <= k < rest.len() ==> #[trigger] work@[k] == (rest[k].hash, rest[k].tally, rest[k].final_tally, rest[k].stamp as u64),
                forall|k: int| 0 <= k < rest.len() ==> (#[trigger] rest[k]).stamp <= u64::MAX,
                unique_stamps(rest),
                done ==> ranked(rest, min_tally) == Seq::<EntryModel>::empty(),
                acc + ranked(rest, min_tally) == ranked(all, min_tally),
                result@ == acc.map_values(|e: EntryModel| top_entry_of(e)),
            decreases work@.len() + (if done { 0int } else { 1int }),
        {
            let mut best: Option<usize> = None;
            let mut j: usize = 0;
            while j < work.len()
                invariant
                    j <= work@.len(),
                    work@.len() == rest.len(),
                    forall|k: int| 0 <= k < rest.len() ==> #[trigger] work@[k] == (rest[k].hash, rest[k].tally, rest[k].final_tally, rest[k].stamp as u64),
                    forall|k: int| 0 <= k < rest.len() ==> (#[trigger] rest[k]).stamp <= u64::MAX,
                    unique_stamps(rest),
                    match best {
                        Some(b) => b < j && reaches(rest[b as int], min_tally)
                            && forall|k: int| 0 <= k < j && k != b && reaches(rest[k], min_tally) ==> ranks_before(rest[b as int], rest[k]),
                        None => forall|k: int| 0 <= k < j ==> !reaches(rest[k], min_tally),
                    },
                decreases work@.len() - j,
            {
                let (_, tally, final_tally, stamp) = work[j];
                assert(work@[j as int] == (rest[j as int].hash, rest[j as int].tally, rest[j as int].final_tally, rest[j as int].stamp as u64));
                if tally >= min_tally {
                    match best {
                        None => {
                            best = Some(j);
                        },
                        Some(b) => {
                            let (_, btally, bfinal, bstamp) = work[b];
                            assert(work@[b as int] == (rest[b as int].hash, rest[b as int].tally, rest[b as int].final_tally, rest[b as int].stamp as u64));
                            if final_tally > bfinal || (final_tally == bfinal && tally > btally)
                                || (final_tally == bfinal && tally == btally && stamp < bstamp) {
                                best = Some(j);
                                proof {
                                    assert forall|k: int| 0 <= k < j + 1 && k != j && reaches(rest[k], min_tally)
                                        implies ranks_before(rest[j as int], rest[k]) by {
                                        if k != b {
                                            assert(ranks_before(rest[b as int], rest[k]));
                                        }
                                    }
                                }
                            } else {
                                assert(rest[b as int].stamp != rest[j as int].stamp);
                                assert(ranks_before(rest[b as int], rest[j as int]));
                            }
                        },
                    }
                }
                j = j + 1;
            }
            match best {
                None => {
                    proof {
                        assert(!exists|b: int| is_best(rest, b, min_tally));
                        assert(ranked(rest, min_tally) == Seq::<EntryModel>::empty());
                    }
                    done = true;
                },
                Some(b) => {
                    proof {
                        assert(is_best(rest, b as int, min_tally));
                        let c = choose|c: int| is_best(rest, c, min_tally);
                        assert(c == b as int) by {
                            if c != b as int {
                                assert(ranks_before(rest[b as int], rest[c]));
                                assert(ranks_before(rest[c], rest[b as int]));
                            }
                        }
                        assert(ranked(rest, min_tally) == seq![rest[b as int]] + ranked(rest.remove(b as int), min_tally));
                    }
                    let (h, t, ft, _) = work[b];
                    assert(work@[b as int] == (rest[b as int].hash, rest[b as int].tally, rest[b as int].final_tally, rest[b as int].stamp as u64));
                    result.push(TopEntry { hash: h, tally: t, final_tally: ft });
                    work.remove(b);
                    proof {
                        let picked = rest[b as int];
                        assert(acc.push(picked) + ranked(rest.remove(b as int), min_tally) =~= acc + (seq![picked] + ranked(rest.remove(b as int), min_tally)));
                        assert(result@ =~= acc.push(picked).map_values(|e: EntryModel| top_entry_of(e)));
                        acc = acc.push(picked);
                        let old_rest = rest;
                        rest = rest.remove(b as int);
                        assert forall|k: int| 0 <= k < rest.len() implies #[trigger] work@[k] == (rest[k].hash, rest[k].tally, rest[k].final_tally, rest[k].stamp as u64) by {
                            if k < b {
                                assert(rest[k] == old_rest[k]);
                            } else {
                                assert(rest[k] == old_rest[k + 1]);
                            }
                        }
                        assert forall|x: int, y: int| 0 <= x < rest.len() && 0 <= y < rest.len() && x != y implies rest[x].stamp != rest[y].stamp by {
                            let x2 = if x < b { x } else { x + 1 };
                            let y2 = if y < b { y } else { y + 1 };
                            assert(rest[x] == old_rest[x2] && rest[y] == old_rest[y2]);
                        }
                        assert forall|k: int| 0 <= k < rest.len() implies (#[trigger] rest[k]).stamp <= u64::MAX by {
                            if k < b {
                                assert(rest[k] == old_rest[k]);
                            } else {
                                assert(rest[k] == old_rest[k + 1]);
                            }
                        }
                    }
                },
            }
        }
        proof {
            assert(acc + Seq::<EntryModel>::empty() =~= acc);
        }
        result
    }
}


/// An entry never holds `max_voters` or more voters: a vote leaves a list that was
/// below the limit below the limit.
pub proof fn lemma_voters_stay_below_limit(s: Seq<VoterEntry>, vote: Arc<Vote>, weight: u128, max_voters: usize)
    requires
        s.len() < max_voters,
    ensures
        after_vote(s, vote, weight, max_voters).0.len() < max_voters,
{
    let rep = vote.voting_account;
    if !has_rep(s, rep) && (s.len() < max_voters || weight > min_weight_of(s)) {
        let added = s.push(VoterEntry { representative: rep, weight, vote });
        if added.len() >= max_voters {
            lemma_min_weight_is_min(added);
            let k = choose|k: int| 0 <= k < added.len() && min_weight_of(added) == #[trigger] added[k].weight;
            lemma_filter_drops(added, |e: VoterEntry| e.weight != min_weight_of(added), k);
        }
    }
}

/// A vote keeps at most one vote per representative.
pub proof fn lemma_vote_keeps_unique_reps(s: Seq<VoterEntry>, vote: Arc<Vote>, weight: u128, max_voters: usize)
    requires
        unique_reps(s),
    ensures
        unique_reps(after_vote(s, vote, weight, max_voters).0),
{
    let rep = vote.voting_account;
    if has_rep(s, rep) {
        let i = rep_index(s, rep);
        let t = s.update(i, VoterEntry { representative: rep, weight, vote });
        assert forall|a: int, b: int| 0 <= a < b < t.len() implies t[a].representative != t[b].representative by {
            if a == i {
                assert(s[i].representative == rep);
            } else if b == i {
                assert(s[i].representative == rep);
            }
        }
    } else if s.len() < max_voters || weight > min_weight_of(s) {
        let added = s.push(VoterEntry { representative: rep, weight, vote });
        assert(unique_reps(added)) by {
            assert forall|a: int, b: int| 0 <= a < b < added.len() implies added[a].representative != added[b].representative by {
                if b == s.len() {
                    assert(s[a].representative != rep);
                }
            }
        }
        if added.len() >= max_voters {
            lemma_filter_keeps_unique(added, |e: VoterEntry| e.weight != min_weight_of(added));
        }
    }
}

/// The cache never holds more than `max_size` entries.
pub proof fn lemma_insert_respects_max_size(m: CacheModel, hash: BlockHash, vote: Arc<Vote>, weight: u128, max_voters: usize, max_size: usize, now: u64)
    requires
        m.entries.len() <= max_size,
    ensures
        cache_after_insert(m, hash, vote, weight, max_voters, max_size, now).entries.len() <= max_size,
{
}

/// After a hash is erased, the cache holds no entry for it.
pub proof fn lemma_erase_then_find(es: Seq<EntryModel>, h: BlockHash)
    requires
        has_entry(es, h),
        forall|i: int, j: int| 0 <= i < j < es.len() ==> es[i].hash != es[j].hash,
    ensures
        !has_entry(es.remove(entry_index(es, h)), h),
{
    let k = entry_index(es, h);
    let r = es.remove(k);
    if has_entry(r, h) {
        let j = choose|j: int| 0 <= j < r.len() && r[j].hash == h;
        if j < k {
            assert(r[j] == es[j]);
        } else {
            assert(r[j] == es[j + 1]);
        }
    }
}

/// After a vote is cached for a hash, the cache holds an entry for that hash unless
/// the cache has no room at all.
pub proof fn lemma_insert_then_find(m: CacheModel, hash: BlockHash, vote: Arc<Vote>, weight: u128, max_voters: usize, max_size: usize, now: u64)
    requires
        max_size > 0,
        m.entries.len() <= max_size,
    ensures
        has_entry(cache_after_insert(m, hash, vote, weight, max_voters, max_size, now).entries, hash),
{
    let r = cache_after_insert(m, hash, vote, weight, max_voters, max_size, now);
    if has_entry(m.entries, hash) {
        let i = entry_index(m.entries, hash);
        assert(r.entries[i].hash == hash);
    } else {
        let n = m.entries.len();
        if n + 1 > max_size {
            assert(r.entries[n - 1].hash == hash);
        } else {
            assert(r.entries[n as int].hash == hash);
        }
    }
}

/// The top list is ordered by final tally, then by tally, highest first; every listed entry reaches the
/// threshold and is one of the cached entries, and no entry is listed twice.
pub proof fn lemma_ranked_sorted(es: Seq<EntryModel>, min_tally: u128)
    ensures
        forall|k: int| 0 <= k < ranked(es, min_tally).len() ==> reaches(#[trigger] ranked(es, min_tally)[k], min_tally),
        forall|k: int| 0 <= k < ranked(es, min_tally).len() ==> exists|j: int| 0 <= j < es.len() && es[j] == #[trigger] ranked(es, min_tally)[k],
        forall|k: int, l: int| 0 <= k < l < ranked(es, min_tally).len() ==> {
            ||| (#[trigger] ranked(es, min_tally)[k]).final_tally > (#[trigger] ranked(es, min_tally)[l]).final_tally
            ||| (ranked(es, min_tally)[k].final_tally == ranked(es, min_tally)[l].final_tally
                && ranked(es, min_tally)[k].tally >= ranked(es, min_tally)[l].tally)
        },
    decreases es.len(),
{
    let r = ranked(es, min_tally);
    if exists|i: int| is_best(es, i, min_tally) {
        let i = choose|i: int| is_best(es, i, min_tally);
        let rest = es.remove(i);
        lemma_ranked_sorted(rest, min_tally);
        let rr = ranked(rest, min_tally);
        assert(r == seq![es[i]] + rr);
        assert forall|k: int| 0 <= k < r.len() implies exists|j: int| 0 <= j < es.len() && es[j] == #[trigger] r[k] by {
            if k == 0 {
                assert(es[i] == r[0]);
            } else {
                assert(r[k] == rr[k - 1]);
                let j = choose|j: int| 0 <= j < rest.len() && rest[j] == rr[k - 1];
                if j < i {
                    assert(es[j] == rest[j]);
                } else {
                    assert(es[j + 1] == rest[j]);
                }
            }
        }
        assert forall|k: int| 0 <= k < r.len() implies reaches(#[trigger] r[k], min_tally) by {
            if k > 0 {
                assert(r[k] == rr[k - 1]);
            }
        }
        assert forall|k: int, l: int| 0 <= k < l < r.len() implies {
            ||| (#[trigger] r[k]).final_tally > (#[trigger] r[l]).final_tally
            ||| (r[k].final_tally == r[l].final_tally && r[k].tally >= r[l].tally)
        } by {
            assert(r[l] == rr[l - 1]);
            if k == 0 {
                let j = choose|j: int| 0 <= j < rest.len() && rest[j] == rr[l - 1];
                let j2 = if j < i { j } else { j + 1 };
                assert(es[j2] == rest[j]);
                assert(j2 != i);
                assert(reaches(rr[l - 1], min_tally));
                assert(ranks_before(es[i], es[j2]));
            } else {
                assert(r[k] == rr[k - 1]);
            }
        }
    }
}

} // verus!
