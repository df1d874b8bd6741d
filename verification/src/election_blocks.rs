//! What the active elections do with the blocks and votes of one election: taking in
//! a published block (making room when the election is full), listing the votes by
//! weight, broadcasting, and what is announced when the election ends.

use vstd::prelude::*;
use crate::numbers::{Account, BlockHash, Hash256, PublicKey, QualifiedRoot};
use crate::election::{
    ElectionStatus, ElectionStatusType, ElectionState,
    block_removable, blocks_after_removal, spec_elapsed, votes_after_removal, Election, ElectionBehavior,
    ElectionBlock, ElectionData, VoteInfo, NEVER_ELAPSED_MS,
};
use crate::vote_applier::{
    have_quorum, ranking, ranking_has_quorum, tallied_final_weight, tally_entries, tally_impl, total_weight,
};
use crate::active_elections::{base_latency_of, confirm_req_time, ActiveElectionsState, InsertOutcome, ELECTION_MAX_BLOCKS};
use crate::bootstrap_weights::{rep_weight, RepWeights};

verus! {

pub open spec fn distinct_tally(t: Seq<(BlockHash, u128)>) -> bool {
    forall|i: int, j: int| 0 <= i < j < t.len() ==> t[i].0 != t[j].0
}

pub open spec fn tallied(t: Seq<(BlockHash, u128)>, h: BlockHash) -> bool {
    exists|i: int| 0 <= i < t.len() && t[i].0 == h
}

/// `a` comes before `b` when the tallies are put in ascending order: by tally, and by
/// hash among equal tallies.
pub open spec fn ranks_below(a: (BlockHash, u128), b: (BlockHash, u128)) -> bool {
    a.1 < b.1 || (a.1 == b.1 && a.0.spec_lt(b.0))
}

/// `i` holds the lowest tally.
pub open spec fn is_lowest(t: Seq<(BlockHash, u128)>, i: int) -> bool {
    &&& 0 <= i < t.len()
    &&& forall|j: int| 0 <= j < t.len() && j != i ==> ranks_below(t[i], #[trigger] t[j])
}

/// `k` holds the second lowest tally, `i` the lowest.
pub open spec fn is_second_lowest(t: Seq<(BlockHash, u128)>, i: int, k: int) -> bool {
    &&& 0 <= k < t.len()
    &&& k != i
    &&& forall|j: int| 0 <= j < t.len() && j != i && j != k ==> ranks_below(t[k], #[trigger] t[j])
}

pub open spec fn lowest(t: Seq<(BlockHash, u128)>) -> int {
    choose|i: int| is_lowest(t, i)
}

pub open spec fn second_lowest(t: Seq<(BlockHash, u128)>) -> int {
    choose|k: int| is_second_lowest(t, lowest(t), k)
}

/// A candidate without a tally that is not the winner.
pub open spec fn untallied_loser(blocks: Seq<BlockHash>, t: Seq<(BlockHash, u128)>, winner: BlockHash, i: int) -> bool {
    0 <= i < blocks.len() && !tallied(t, blocks[i]) && blocks[i] != winner
}

pub open spec fn has_untallied_loser(blocks: Seq<BlockHash>, t: Seq<(BlockHash, u128)>, winner: BlockHash) -> bool {
    exists|i: int| untallied_loser(blocks, t, winner, i)
}

/// The first candidate without a tally that is not the winner.
pub open spec fn first_untallied_loser(blocks: Seq<BlockHash>, t: Seq<(BlockHash, u128)>, winner: BlockHash) -> int {
    choose|i: int| untallied_loser(blocks, t, winner, i) && forall|j: int| 0 <= j < i ==> !untallied_loser(blocks, t, winner, j)
}

/// The block to drop to make room for a new block whose cached votes weigh
/// `inactive_tally`. With fewer than `ELECTION_MAX_BLOCKS` tallied blocks, the first
/// candidate that has no tally and is not the winner. Otherwise the tallied blocks are put
/// in ascending order of tally; if the new block outweighs the lowest, that one goes
/// unless it is the winner, in which case the second lowest goes if the new block
/// outweighs it.
pub open spec fn replacement(t: Seq<(BlockHash, u128)>, blocks: Seq<BlockHash>, winner: BlockHash, inactive_tally: u128) -> Option<BlockHash> {
    if inactive_tally > 0 && t.len() < ELECTION_MAX_BLOCKS {
        if has_untallied_loser(blocks, t, winner) { Some(blocks[first_untallied_loser(blocks, t, winner)]) } else { None }
    } else if inactive_tally > 0 && inactive_tally > t[lowest(t)].1 {
        if t[lowest(t)].0 != winner {
            Some(t[lowest(t)].0)
        } else if inactive_tally > t[second_lowest(t)].1 {
            Some(t[second_lowest(t)].0)
        } else {
            None
        }
    } else {
        None
    }
}

/// The replacement, unless it is the zero hash, which stands for none.
pub open spec fn effective_replacement(t: Seq<(BlockHash, u128)>, blocks: Seq<BlockHash>, winner: BlockHash, inactive_tally: u128) -> Option<BlockHash> {
    match replacement(t, blocks, winner, inactive_tally) {
        Some(h) => if h.hi == 0 && h.lo == 0 { None } else { Some(h) },
        None => None,
    }
}

fn is_tallied(t: &Vec<(BlockHash, u128)>, h: &BlockHash) -> (r: bool)
    ensures
        r == tallied(t@, *h),
{
    let mut i: usize = 0;
    while i < t.len()
        invariant
            i <= t@.len(),
            forall|j: int| 0 <= j < i ==> (#[trigger] t@[j]).0 != *h,
        decreases t@.len() - i,
    {
        if t[i].0.equals(h) {
            return true;
        }
        i = i + 1;
    }
    false
}

/// The position of the lowest tally (ties broken by the lower hash), leaving out `skip`.
fn lowest_tally(t: &Vec<(BlockHash, u128)>, skip: Option<usize>) -> (r: usize)
    requires
        distinct_tally(t@),
        t@.len() >= 2,
        match skip { Some(s) => s < t@.len(), None => true },
    ensures
        r < t@.len(),
        skip != Some(r),
        forall|j: int| 0 <= j < t@.len() && j != r && skip != Some(j as usize) ==> ranks_below(t@[r as int], #[trigger] t@[j]),
{
    let mut best: usize = match skip { Some(0) => 1, _ => 0 };
    let mut i: usize = 0;
    while i < t.len()
        invariant
            distinct_tally(t@),
            t@.len() >= 2,
            i <= t@.len(),
            best < t@.len(),
            skip != Some(best),
            forall|j: int| 0 <= j < i && j != best && skip != Some(j as usize) ==> ranks_below(t@[best as int], #[trigger] t@[j]),
        decreases t@.len() - i,
    {
        if skip != Some(i) && i != best
            && (t[i].1 < t[best].1 || (t[i].1 == t[best].1 && t[i].0.less_than(&t[best].0))) {
            proof {
                assert forall|j: int| 0 <= j < i + 1 && j != i && skip != Some(j as usize) implies ranks_below(t@[i as int], #[trigger] t@[j]) by {
                    if j != best as int {
                        assert(ranks_below(t@[best as int], t@[j]));
                    }
                }
            }
            best = i;
        } else {
            proof {
                if skip != Some(i) && i != best {
                    assert(t@[i as int].0 != t@[best as int].0) by {
                        if i < best { assert(t@[i as int].0 != t@[best as int].0); } else { assert(t@[best as int].0 != t@[i as int].0); }
                    }
                    assert(ranks_below(t@[best as int], t@[i as int]));
                }
            }
        }
        i = i + 1;
    }
    best
}

/// The first candidate that has no tally and is not the winner.
fn first_untallied_loser_of(data: &ElectionData, winner: &BlockHash) -> (r: Option<BlockHash>)
    ensures
        r == (if has_untallied_loser(data.last_blocks@, data.last_tally@, *winner) {
            Some(data.last_blocks@[first_untallied_loser(data.last_blocks@, data.last_tally@, *winner)])
        } else {
            None
        }),
{
    let ghost t = data.last_tally@;
    let ghost blocks = data.last_blocks@;
    let mut i: usize = 0;
    while i < data.last_blocks.len()
        invariant
            t == data.last_tally@,
            blocks == data.last_blocks@,
            i <= blocks.len(),
            forall|j: int| 0 <= j < i ==> !untallied_loser(blocks, t, *winner, j),
        decreases blocks.len() - i,
    {
        let h = data.last_blocks[i];
        if !is_tallied(&data.last_tally, &h) && !h.equals(winner) {
            proof {
                assert(untallied_loser(blocks, t, *winner, i as int));
                let q = first_untallied_loser(blocks, t, *winner);
                assert(untallied_loser(blocks, t, *winner, q) && forall|j: int| 0 <= j < q ==> !untallied_loser(blocks, t, *winner, j));
                assert(q == i as int);
            }
            return Some(h);
        }
        i = i + 1;
    }
    None
}

/// Makes room for a new block whose cached votes weigh `inactive_tally` (see
/// `replacement`). The chosen block is dropped with its votes (unless it is the winner
/// or no candidate) and returned, for its votes to be disconnected.
pub fn replace_by_weight(data: &mut ElectionData, inactive_tally: u128) -> (r: Option<BlockHash>)
    requires
        old(data).wf(),
        distinct_tally(old(data).last_tally@),
    ensures
        final(data).wf(),
        r == effective_replacement(old(data).last_tally@, old(data).last_blocks@, old(data).status.winner.unwrap(), inactive_tally),
        match r {
            Some(h) => final(data).last_blocks@ == blocks_after_removal(old(data).last_blocks@, old(data).status.winner, h)
                && final(data).last_votes@ == votes_after_removal(old(data).last_votes@, old(data).last_blocks@, old(data).status.winner, h),
            None => final(data).last_blocks@ == old(data).last_blocks@ && final(data).last_votes@ == old(data).last_votes@,
        },
        final(data).status == old(data).status,
        final(data).state == old(data).state,
        final(data).state_start == old(data).state_start,
        final(data).final_weight == old(data).final_weight,
        final(data).last_tally@ == old(data).last_tally@,
        final(data).last_vote == old(data).last_vote,
        final(data).last_block_hash == old(data).last_block_hash,
{
    let winner = match data.status.winner {
        Some(w) => w,
        None => { return None; },
    };
    let ghost t = data.last_tally@;
    let ghost blocks = data.last_blocks@;
    let mut replaced: Option<BlockHash> = None;
    if inactive_tally > 0 && data.last_tally.len() < ELECTION_MAX_BLOCKS {
        replaced = first_untallied_loser_of(data, &winner);
    } else if inactive_tally > 0 {
        let top = lowest_tally(&data.last_tally, None);
        proof {
            assert(is_lowest(t, top as int));
            let q = lowest(t);
            assert(is_lowest(t, q));
            if q != top as int {
                assert(ranks_below(t[q], t[top as int]));
                assert(ranks_below(t[top as int], t[q]));
            }
        }
        if inactive_tally > data.last_tally[top].1 {
            if !data.last_tally[top].0.equals(&winner) {
                replaced = Some(data.last_tally[top].0);
            } else {
                let second = lowest_tally(&data.last_tally, Some(top));
                proof {
                    assert(is_second_lowest(t, top as int, second as int));
                    let q = second_lowest(t);
                    assert(is_second_lowest(t, top as int, q));
                    if q != second as int {
                        assert(ranks_below(t[q], t[second as int]));
                        assert(ranks_below(t[second as int], t[q]));
                    }
                }
                if inactive_tally > data.last_tally[second].1 {
                    replaced = Some(data.last_tally[second].0);
                }
            }
        }
    }
    match replaced {
        Some(h) => {
            if h.is_zero() {
                return None;
            }
            let _ = data.remove_block(&h);
            Some(h)
        },
        None => None,
    }
}

/// What taking in a published block did.
#[derive(Clone, Copy, Debug, PartialEq, Eq)]
pub struct PublishOutcome {
    /// The block was not added: the election is confirmed, the block is known already,
    /// or there was no room for it.
    pub ignored: bool,
    /// The block dropped to make room, whose votes are to be disconnected.
    pub replaced: Option<BlockHash>,
    /// There was no room: forget the block in the publish filter so it can come again.
    pub clear_filter: bool,
    /// The block is the known winner: publish it to the network again.
    pub flood: bool,
}

/// Takes in a published block whose cached votes weigh `inactive_tally`. A confirmed
/// election takes nothing. A full election (`ELECTION_MAX_BLOCKS` candidates) makes room
/// by `replace_by_weight` or ignores the block. A known block is ignored (and published
/// again when it is the winner); a new one becomes a candidate.
pub fn publish(data: &mut ElectionData, hash: BlockHash, inactive_tally: u128) -> (r: PublishOutcome)
    requires
        old(data).wf(),
        distinct_tally(old(data).last_tally@),
    ensures
        final(data).wf(),
        ({
            let blocks = old(data).last_blocks@;
            let winner = old(data).status.winner.unwrap();
            let confirmed = old(data).state.spec_is_confirmed();
            let full = !confirmed && blocks.len() >= ELECTION_MAX_BLOCKS && !blocks.contains(hash);
            let rep = if full { effective_replacement(old(data).last_tally@, blocks, winner, inactive_tally) } else { None };
            let no_room = full && rep is None;
            let blocks1 = match rep { Some(h) => blocks_after_removal(blocks, old(data).status.winner, h), None => blocks };
            let votes1 = match rep {
                Some(h) => votes_after_removal(old(data).last_votes@, blocks, old(data).status.winner, h),
                None => old(data).last_votes@,
            };
            let known = !confirmed && !no_room && blocks1.contains(hash);
            &&& r.replaced == rep
            &&& r.clear_filter == no_room
            &&& r.ignored == (confirmed || no_room || known)
            &&& r.flood == (known && winner == hash)
            &&& final(data).last_votes@ == votes1
            &&& final(data).last_blocks@ == (if r.ignored { blocks1 } else { blocks1.push(hash) })
        }),
        final(data).status == old(data).status,
        final(data).state == old(data).state,
        final(data).state_start == old(data).state_start,
        final(data).final_weight == old(data).final_weight,
        final(data).last_tally@ == old(data).last_tally@,
        final(data).last_vote == old(data).last_vote,
        final(data).last_block_hash == old(data).last_block_hash,
{
    let mut r = PublishOutcome { ignored: data.is_confirmed(), replaced: None, clear_filter: false, flood: false };
    if !r.ignored && data.last_blocks.len() >= ELECTION_MAX_BLOCKS && !data.contains(&hash) {
        r.replaced = replace_by_weight(data, inactive_tally);
        if r.replaced.is_none() {
            r.ignored = true;
            r.clear_filter = true;
        }
    }
    if !r.ignored {
        if data.contains(&hash) {
            r.ignored = true;
            match data.status.winner {
                Some(w) => { r.flood = w.equals(&hash); },
                None => {},
            }
        } else {
            let ghost before = data.last_blocks@;
            data.last_blocks.push(hash);
            proof {
                let after = data.last_blocks@;
                assert forall|a: int, b: int| 0 <= a < b < after.len() implies after[a] != after[b] by {
                    assert(after[a] == before[a]);
                    if b < before.len() { assert(after[b] == before[b]); } else { assert(before.contains(before[a])); }
                }
            }
        }
    }
    r
}

/// A vote with the voter's weight.
#[derive(Clone, Copy, Debug, PartialEq, Eq)]
pub struct VoteWithWeightInfo {
    pub representative: PublicKey,
    pub time: u64,
    pub timestamp: u64,
    pub hash: BlockHash,
    pub weight: u128,
}

/// The votes with their voters' weights, leaving out the placeholder key, in vote order.
pub open spec fn weighted_votes(v: Seq<(PublicKey, VoteInfo)>, w: Map<PublicKey, u128>, skip: PublicKey) -> Seq<VoteWithWeightInfo>
    decreases v.len(),
{
    if v.len() == 0 {
        Seq::empty()
    } else {
        let prev = weighted_votes(v.drop_last(), w, skip);
        let (rep, info) = v.last();
        if rep == skip {
            prev
        } else {
            prev.push(VoteWithWeightInfo {
                representative: rep,
                time: info.time,
                timestamp: info.timestamp,
                hash: info.hash,
                weight: rep_weight(w, rep) as u128,
            })
        }
    }
}

/// `p` is where a vote of the given weight goes in a list from heaviest to lightest:
/// after every vote at least as heavy.
pub open spec fn is_weight_position(s: Seq<VoteWithWeightInfo>, weight: u128, p: int) -> bool {
    &&& 0 <= p <= s.len()
    &&& forall|i: int| 0 <= i < p ==> (#[trigger] s[i]).weight >= weight
    &&& (p == s.len() || s[p].weight < weight)
}

pub open spec fn weight_position(s: Seq<VoteWithWeightInfo>, weight: u128) -> int {
    choose|p: int| is_weight_position(s, weight, p)
}

/// The votes from heaviest to lightest; votes of equal weight keep their order.
pub open spec fn by_weight(s: Seq<VoteWithWeightInfo>) -> Seq<VoteWithWeightInfo>
    decreases s.len(),
{
    if s.len() == 0 {
        Seq::empty()
    } else {
        let prev = by_weight(s.drop_last());
        prev.insert(weight_position(prev, s.last().weight), s.last())
    }
}

pub open spec fn heaviest_first(s: Seq<VoteWithWeightInfo>) -> bool {
    forall|i: int, j: int| 0 <= i < j < s.len() ==> s[i].weight >= s[j].weight
}

proof fn lemma_weight_position(s: Seq<VoteWithWeightInfo>, weight: u128, p: int)
    requires
        is_weight_position(s, weight, p),
    ensures
        weight_position(s, weight) == p,
{
    let q = weight_position(s, weight);
    assert(is_weight_position(s, weight, q));
    if q < p {
        assert(s[q].weight >= weight);
    } else if p < q {
        assert(s[p].weight >= weight);
    }
}

proof fn lemma_weight_position_exists(s: Seq<VoteWithWeightInfo>, weight: u128, p: int)
    requires
        heaviest_first(s),
        0 <= p <= s.len(),
        forall|i: int| 0 <= i < p ==> (#[trigger] s[i]).weight >= weight,
    ensures
        is_weight_position(s, weight, weight_position(s, weight)),
    decreases s.len() - p,
{
    if p == s.len() || s[p].weight < weight {
        assert(is_weight_position(s, weight, p));
    } else {
        lemma_weight_position_exists(s, weight, p + 1);
    }
}

/// The list by weight goes from heaviest to lightest and holds every vote.
pub proof fn lemma_by_weight_sorted(s: Seq<VoteWithWeightInfo>)
    ensures
        heaviest_first(by_weight(s)),
        by_weight(s).len() == s.len(),
        by_weight(s).to_multiset() == s.to_multiset(),
    decreases s.len(),
{
    if s.len() > 0 {
        let prev = by_weight(s.drop_last());
        lemma_by_weight_sorted(s.drop_last());
        lemma_weight_position_exists(prev, s.last().weight, 0);
        let p = weight_position(prev, s.last().weight);
        let n = by_weight(s);
        assert forall|i: int, j: int| 0 <= i < j < n.len() implies n[i].weight >= n[j].weight by {
            if j < p {
                assert(n[i] == prev[i] && n[j] == prev[j]);
            } else if j == p {
                assert(n[i] == prev[i]);
            } else if i < p {
                assert(n[i] == prev[i] && n[j] == prev[j - 1]);
            } else if i == p {
                assert(n[j] == prev[j - 1]);
                if p < prev.len() { assert(prev[p].weight < s.last().weight); }
                if j - 1 > p { assert(prev[p].weight >= prev[j - 1].weight); }
            } else {
                assert(n[i] == prev[i - 1] && n[j] == prev[j - 1]);
            }
        }
        vstd::seq_lib::to_multiset_insert(prev, p, s.last());
        vstd::seq_lib::to_multiset_build(s.drop_last(), s.last());
        assert(s.drop_last().push(s.last()) =~= s);
    } else {
        assert(by_weight(s) =~= s);
    }
}

/// The votes of the election with their voters' weights, from heaviest to lightest;
/// votes of equal weight keep their order. The placeholder vote is left out.
pub fn votes_with_weight(data: &ElectionData, weights: &RepWeights, not_an_account_key: &PublicKey) -> (r: Vec<VoteWithWeightInfo>)
    requires
        weights.wf(),
    ensures
        r@ == by_weight(weighted_votes(data.last_votes@, weights@, *not_an_account_key)),
        heaviest_first(r@),
{
    let ghost v = data.last_votes@;
    let ghost w = weights@;
    let mut sorted: Vec<VoteWithWeightInfo> = Vec::new();
    let mut i: usize = 0;
    proof {
        assert(v.take(0) =~= Seq::<(PublicKey, VoteInfo)>::empty());
    }
    while i < data.last_votes.len()
        invariant
            v == data.last_votes@,
            w == weights@,
            weights.wf(),
            i <= v.len(),
            sorted@ == by_weight(weighted_votes(v.take(i as int), w, *not_an_account_key)),
        decreases v.len() - i,
    {
        let (rep, info) = data.last_votes[i];
        proof {
            assert(v.take(i + 1).drop_last() =~= v.take(i as int));
            assert(v.take(i + 1).last() == v[i as int]);
            lemma_by_weight_sorted(weighted_votes(v.take(i as int), w, *not_an_account_key));
        }
        if !rep.equals(not_an_account_key) {
            let weight = weights.weight(&rep);
            let x = VoteWithWeightInfo { representative: rep, time: info.time, timestamp: info.timestamp, hash: info.hash, weight };
            let mut p: usize = 0;
            while p < sorted.len() && sorted[p].weight >= weight
                invariant
                    p <= sorted@.len(),
                    forall|k: int| 0 <= k < p ==> (#[trigger] sorted@[k]).weight >= weight,
                decreases sorted@.len() - p,
            {
                p = p + 1;
            }
            proof {
                lemma_weight_position(sorted@, weight, p as int);
                let wv = weighted_votes(v.take(i + 1), w, *not_an_account_key);
                assert(wv.drop_last() =~= weighted_votes(v.take(i as int), w, *not_an_account_key));
                assert(wv.last() == x);
            }
            sorted.insert(p, x);
        }
        i = i + 1;
    }
    proof {
        assert(v.take(v.len() as int) =~= v);
        lemma_by_weight_sorted(weighted_votes(v, w, *not_an_account_key));
    }
    sorted
}

/// What is announced when an election leaves the container: the blocks that lost
/// (all of them unless it was confirmed, else all but the winner), and the blocks to forget
/// in the publish filter (all of them unless it was confirmed).
pub struct CleanupNotices {
    pub stopped: Vec<BlockHash>,
    pub clear_filters: Vec<BlockHash>,
}

pub fn cleanup_notices(data: &ElectionData) -> (r: CleanupNotices)
    requires
        data.wf(),
    ensures
        ({
            let confirmed = data.state.spec_is_confirmed();
            let winner = data.status.winner.unwrap();
            &&& r.stopped@ == data.last_blocks@.filter(|h: BlockHash| !confirmed || h != winner)
            &&& r.clear_filters@ == (if confirmed { Seq::<BlockHash>::empty() } else { data.last_blocks@ })
        }),
{
    let confirmed = data.is_confirmed();
    let winner = match data.status.winner { Some(w) => w, None => Hash256::zero() };
    let ghost blocks = data.last_blocks@;
    let mut stopped: Vec<BlockHash> = Vec::new();
    let mut clear_filters: Vec<BlockHash> = Vec::new();
    let mut i: usize = 0;
    while i < data.last_blocks.len()
        invariant
            blocks == data.last_blocks@,
            i <= blocks.len(),
            stopped@ == blocks.take(i as int).filter(|h: BlockHash| !confirmed || h != winner),
            clear_filters@ == (if confirmed { Seq::<BlockHash>::empty() } else { blocks.take(i as int) }),
        decreases blocks.len() - i,
    {
        let h = data.last_blocks[i];
        proof {
            assert(blocks.take(i + 1).drop_last() =~= blocks.take(i as int));
            reveal_with_fuel(Seq::<_>::filter, 1);
        }
        if !confirmed || !h.equals(&winner) {
            stopped.push(h);
        }
        if !confirmed {
            clear_filters.push(h);
            assert(clear_filters@ =~= blocks.take(i + 1));
        }
        i = i + 1;
    }
    proof {
        assert(blocks.take(blocks.len() as int) =~= blocks);
    }
    CleanupNotices { stopped, clear_filters }
}

/// Every election held is well formed.
pub open spec fn elections_wf(s: Seq<(QualifiedRoot, ElectionBehavior, Election)>) -> bool {
    forall|i: int| 0 <= i < s.len() ==> (#[trigger] s[i]).2.data.wf()
}

/// `e` is a new passive election for the block, numbered `id` and started at `now`.
pub open spec fn fresh_election(e: Election, id: usize, block: ElectionBlock, behavior: ElectionBehavior, not_an_account_key: PublicKey, now: u64) -> bool {
    &&& e.id == id
    &&& e.qualified_root == block.qualified_root
    &&& e.root == block.qualified_root.root
    &&& e.height == block.height
    &&& e.behavior == behavior
    &&& !e.is_quorum
    &&& e.confirmation_request_count == 0
    &&& e.last_block == now
    &&& e.last_req.is_none()
    &&& e.election_start == now
    &&& e.data.wf()
    &&& e.data.state == ElectionState::Passive
    &&& e.data.state_start == now
    &&& e.data.status.winner == Some(block.hash)
    &&& e.data.last_blocks@ == seq![block.hash]
    &&& e.data.last_votes@ == seq![(not_an_account_key, VoteInfo { time: now, timestamp: 0, hash: block.hash })]
}

/// Asks for an election on the block's root. A new passive election is registered
/// unless the container is stopped, the root already has an election, or the root was
/// confirmed recently. Returns the outcome and, when an election started, the block hash
/// to announce to the observers of started elections and to hand to the vote cache.
pub fn start_election(
    active: &mut ActiveElectionsState<Election>,
    id: usize,
    block: ElectionBlock,
    behavior: ElectionBehavior,
    not_an_account_key: PublicKey,
    recently_confirmed: bool,
    now: u64,
) -> (r: (InsertOutcome, Option<BlockHash>))
    requires
        old(active).wf(),
        elections_wf(old(active).roots()),
        old(active).roots().len() < usize::MAX,
    ensures
        final(active).wf(),
        elections_wf(final(active).roots()),
        final(active).is_stopped() == old(active).is_stopped(),
        old(active).is_stopped() ==> r.0 is Stopped && r.1.is_none() && final(active).roots() == old(active).roots(),
        !old(active).is_stopped() && crate::active_elections::has_root(old(active).roots(), block.qualified_root) ==> r.1.is_none()
            && r.0 == InsertOutcome::Existing(crate::active_elections::root_position(old(active).roots(), block.qualified_root) as usize)
            && final(active).roots() == old(active).roots(),
        !old(active).is_stopped() && !crate::active_elections::has_root(old(active).roots(), block.qualified_root) && recently_confirmed
            ==> r.0 is RecentlyConfirmed && r.1.is_none() && final(active).roots() == old(active).roots(),
        !old(active).is_stopped() && !crate::active_elections::has_root(old(active).roots(), block.qualified_root) && !recently_confirmed ==> {
            &&& r.0 is Inserted
            &&& r.1 == Some(block.hash)
            &&& final(active).roots().len() == old(active).roots().len() + 1
            &&& final(active).roots().drop_last() == old(active).roots()
            &&& final(active).roots().last().0 == block.qualified_root
            &&& final(active).roots().last().1 == behavior
            &&& fresh_election(final(active).roots().last().2, id, block, behavior, not_an_account_key, now)
        },
{
    let election = Election::new(id, block, behavior, not_an_account_key, now);
    let ghost e = election;
    let outcome = active.insert(block.qualified_root, behavior, election, recently_confirmed);
    proof {
        if final(active).roots().len() == old(active).roots().len() + 1 {
            assert(final(active).roots() == old(active).roots().push((block.qualified_root, behavior, e)));
            assert(final(active).roots().drop_last() =~= old(active).roots());
        }
        assert forall|i: int| 0 <= i < active.roots().len() implies (#[trigger] active.roots()[i]).2.data.wf() by {
            if i < old(active).roots().len() {
                assert(active.roots()[i] == old(active).roots()[i]);
            }
        }
    }
    match outcome {
        InsertOutcome::Inserted => (outcome, Some(block.hash)),
        _ => (outcome, None),
    }
}

/// Ends the election of the root: removes it from the container and returns it with
/// what is announced about its blocks (see `cleanup_notices`). Nothing happens when the
/// root has no election.
pub fn finish_election(active: &mut ActiveElectionsState<Election>, root: &QualifiedRoot) -> (r: Option<(Election, CleanupNotices)>)
    requires
        old(active).wf(),
        elections_wf(old(active).roots()),
    ensures
        final(active).wf(),
        elections_wf(final(active).roots()),
        final(active).is_stopped() == old(active).is_stopped(),
        match r {
            Some((e, n)) => {
                let roots = old(active).roots();
                let pos = crate::active_elections::root_position(roots, *root);
                let confirmed = e.data.state.spec_is_confirmed();
                let winner = e.data.status.winner.unwrap();
                &&& crate::active_elections::has_root(roots, *root)
                &&& e == roots[pos].2
                &&& final(active).roots() == roots.remove(pos)
                &&& n.stopped@ == e.data.last_blocks@.filter(|h: BlockHash| !confirmed || h != winner)
                &&& n.clear_filters@ == (if confirmed { Seq::<BlockHash>::empty() } else { e.data.last_blocks@ })
            },
            None => !crate::active_elections::has_root(old(active).roots(), *root) && final(active).roots() == old(active).roots(),
        },
{
    match active.erase(root) {
        Some((_, _, election)) => {
            proof {
                let roots = old(active).roots();
                let pos = crate::active_elections::root_position(roots, *root);
                assert(roots[pos].2.data.wf());
                assert forall|i: int| 0 <= i < active.roots().len() implies (#[trigger] active.roots()[i]).2.data.wf() by {
                    if i < pos {
                        assert(active.roots()[i] == roots[i]);
                    } else {
                        assert(active.roots()[i] == roots[i + 1]);
                    }
                }
            }
            let notices = cleanup_notices(&election.data);
            Some((election, notices))
        },
        None => None,
    }
}

/// Whether to broadcast the winning block now: when it was broadcast less than the
/// interval ago, or when the winner changed since.
pub fn broadcast_block_predicate(election: &Election, block_broadcast_interval: u64, now: u64) -> (r: bool)
    requires
        election.data.wf(),
    ensures
        r == (spec_elapsed(election.last_block, now) < block_broadcast_interval
            || election.data.status.winner.unwrap() != election.data.last_block_hash),
{
    if election.last_block_elapsed(now) < block_broadcast_interval {
        return true;
    }
    match election.data.status.winner {
        Some(w) => !w.equals(&election.data.last_block_hash),
        None => true,
    }
}

/// Records that the winning block was broadcast at `now`.
pub fn block_broadcast(election: &mut Election, now: u64)
    requires
        old(election).data.wf(),
    ensures
        final(election).last_block == now,
        final(election).data.last_block_hash == old(election).data.status.winner.unwrap(),
        final(election).data.status == old(election).data.status,
        final(election).data.state == old(election).data.state,
        final(election).data.last_votes@ == old(election).data.last_votes@,
        final(election).data.last_blocks@ == old(election).data.last_blocks@,
        final(election).data.wf(),
{
    election.set_last_block(now);
    match election.data.status.winner {
        Some(w) => { election.data.last_block_hash = w; },
        None => {},
    }
}

/// Whether a confirmation request for the election is due: the request interval of its
/// behavior has passed since the last one.
pub fn confirm_req_due(election: &Election, is_dev_network: bool, now: u64) -> (r: bool)
    ensures
        r == ((if election.behavior == ElectionBehavior::Optimistic { 2 * base_latency_of(is_dev_network) }
            else { 5 * base_latency_of(is_dev_network) }) < match election.last_req {
                Some(t) => spec_elapsed(t, now) as int,
                None => NEVER_ELAPSED_MS as int,
            }),
{
    confirm_req_time(election.behavior, is_dev_network) < election.last_req_elapsed(now)
}

/// Records a confirmation request sent at `now`.
pub fn confirm_req_sent(election: &mut Election, now: u64)
    ensures
        final(election).last_req == Some(now),
        final(election).confirmation_request_count == (if old(election).confirmation_request_count == u32::MAX { 0 }
            else { (old(election).confirmation_request_count + 1) as u32 }),
        final(election).data == old(election).data,
{
    election.set_last_req(now);
    election.confirmation_request_count = if election.confirmation_request_count == u32::MAX { 0 } else {
        election.confirmation_request_count + 1
    };
}

/// Generates a vote for the winner if the broadcast interval has passed since the last
/// one: final if the election is confirmed or the votes give a quorum, else non-final.
/// Nothing is generated when this node does not vote; the time of the vote is recorded
/// either way. Returns the block voted for and whether the vote is final.
pub fn broadcast_vote_locked(
    data: &mut ElectionData,
    weights: &RepWeights,
    quorum_delta: u128,
    vote_broadcast_interval: u64,
    voting: bool,
    now: u64,
) -> (r: Option<(BlockHash, bool)>)
    requires
        old(data).wf(),
        weights.wf(),
        total_weight(old(data).last_votes@, weights@) <= u128::MAX,
    ensures
        final(data).wf(),
        ({
            let elapsed = match old(data).last_vote { Some(t) => spec_elapsed(t, now), None => NEVER_ELAPSED_MS };
            let counts = elapsed >= vote_broadcast_interval && voting && !old(data).state.spec_is_confirmed();
            let rk = ranking(tally_entries(old(data).last_votes@, weights@), old(data).last_blocks@);
            &&& elapsed < vote_broadcast_interval ==> r is None && final(data).last_vote == old(data).last_vote
            &&& elapsed >= vote_broadcast_interval ==> final(data).last_vote == Some(now)
            &&& elapsed >= vote_broadcast_interval && !voting ==> r is None
            &&& elapsed >= vote_broadcast_interval && voting ==> r == Some((old(data).status.winner.unwrap(),
                    old(data).state.spec_is_confirmed() || ranking_has_quorum(rk, quorum_delta)))
            &&& counts ==> final(data).last_tally@ == tally_entries(old(data).last_votes@, weights@)
                && final(data).final_weight == tallied_final_weight(old(data).last_votes@, weights@,
                    old(data).last_blocks@, old(data).final_weight)
            &&& !counts ==> final(data).last_tally@ == old(data).last_tally@ && final(data).final_weight == old(data).final_weight
        }),
        final(data).status == old(data).status,
        final(data).state == old(data).state,
        final(data).state_start == old(data).state_start,
        final(data).last_blocks@ == old(data).last_blocks@,
        final(data).last_votes@ == old(data).last_votes@,
        final(data).last_block_hash == old(data).last_block_hash,
{
    if data.last_vote_elapsed(now) < vote_broadcast_interval {
        return None;
    }
    data.set_last_vote(now);
    if !voting {
        return None;
    }
    let winner = match data.status.winner { Some(w) => w, None => { return None; } };
    let is_final = if data.is_confirmed() {
        true
    } else {
        let ranked = tally_impl(data, weights);
        have_quorum(&ranked, quorum_delta)
    };
    Some((winner, is_final))
}

/// What to do with a confirmed block: add it to the set to be cemented once the ledger
/// has it, retry a bounded number of times, then give up and forget its winner record.
#[derive(Clone, Copy, Debug, PartialEq, Eq)]
pub enum ConfirmedStep {
    Cement,
    Retry(u64),
    GiveUp,
}

/// The next step for a confirmed block after `iteration` retries. The retries are
/// bounded by four times the number of retry intervals in the block processor's batch
/// time.
pub fn process_confirmed_step(block_in_ledger: bool, iteration: u64, batch_max_time_ms: u64, retry_interval_ms: u64) -> (r: ConfirmedStep)
    requires
        retry_interval_ms > 0,
        (batch_max_time_ms / retry_interval_ms) * 4 <= u64::MAX,
    ensures
        r == (if block_in_ledger {
            ConfirmedStep::Cement
        } else if iteration < (batch_max_time_ms / retry_interval_ms) * 4 {
            ConfirmedStep::Retry((iteration + 1) as u64)
        } else {
            ConfirmedStep::GiveUp
        }),
{
    let num_iters = (batch_max_time_ms / retry_interval_ms) * 4;
    if block_in_ledger {
        ConfirmedStep::Cement
    } else if iteration < num_iters {
        ConfirmedStep::Retry(iteration + 1)
    } else {
        ConfirmedStep::GiveUp
    }
}

/// Whether a cemented block confirms its election: the block is the election's winner and
/// the election is not confirmed yet.
pub fn should_try_confirm(data: &ElectionData, hash: &BlockHash) -> (r: bool)
    ensures
        r == (data.status.winner == Some(*hash) && !(data.state == ElectionState::Confirmed
            || data.state == ElectionState::ExpiredConfirmed)),
{
    match data.status.winner {
        Some(w) => w.equals(hash) && !data.is_confirmed(),
        None => false,
    }
}

/// How a cemented block came to be confirmed: by the quorum of its own election when it is
/// the confirmation root, else by being below a cemented block, with or without an
/// election of its own.
pub open spec fn cemented_type(block: BlockHash, confirmation_root: BlockHash, had_election: bool) -> ElectionStatusType {
    if block == confirmation_root {
        ElectionStatusType::ActiveConfirmedQuorum
    } else if had_election {
        ElectionStatusType::ActiveConfirmationHeight
    } else {
        ElectionStatusType::InactiveConfirmationHeight
    }
}

/// The status reported for a cemented block: its election's status when it had one, else
/// a status naming only the block, with the type saying how it was confirmed.
pub fn cemented_status(block: BlockHash, confirmation_root: BlockHash, election_status: Option<ElectionStatus>) -> (r: ElectionStatus)
    ensures
        r.election_status_type == cemented_type(block, confirmation_root, election_status is Some),
        match election_status {
            Some(s) => r == (ElectionStatus { election_status_type: r.election_status_type, ..s }),
            None => r == (ElectionStatus {
                winner: Some(block),
                tally: 0,
                final_tally: 0,
                election_end: 0,
                election_duration: 0,
                confirmation_request_count: 0,
                block_count: 0,
                voter_count: 0,
                election_status_type: r.election_status_type,
            }),
        },
{
    let had_election = election_status.is_some();
    let mut status = match election_status {
        Some(s) => s,
        None => ElectionStatus {
            winner: Some(block),
            tally: 0,
            final_tally: 0,
            election_end: 0,
            election_duration: 0,
            confirmation_request_count: 0,
            block_count: 0,
            voter_count: 0,
            election_status_type: ElectionStatusType::Ongoing,
        },
    };
    status.election_status_type = if block.equals(&confirmation_root) {
        ElectionStatusType::ActiveConfirmedQuorum
    } else if had_election {
        ElectionStatusType::ActiveConfirmationHeight
    } else {
        ElectionStatusType::InactiveConfirmationHeight
    };
    status
}

/// Whether the successors of a cemented block are activated: only for blocks whose
/// election was active, once the ledger has cemented at least as many blocks as the
/// bootstrap weights cover, and unless turned off.
pub fn activates_successors(
    cemented_count: u64,
    bootstrap_weight_max_blocks: u64,
    status_type: ElectionStatusType,
    disable_activate_successors: bool,
) -> (r: bool)
    ensures
        r == (cemented_count >= bootstrap_weight_max_blocks
            && (status_type == ElectionStatusType::ActiveConfirmedQuorum
                || status_type == ElectionStatusType::ActiveConfirmationHeight)
            && !disable_activate_successors),
{
    let was_active = match status_type {
        ElectionStatusType::ActiveConfirmedQuorum | ElectionStatusType::ActiveConfirmationHeight => true,
        _ => false,
    };
    cemented_count >= bootstrap_weight_max_blocks && was_active && !disable_activate_successors
}

/// The accounts whose balance a confirmed block changes, each with whether its receivable
/// balance changed: the block's account, and a send's destination.
pub fn balance_changes(account: Account, is_send: bool, destination: Option<Account>) -> (r: Vec<(Account, bool)>)
    requires
        is_send ==> destination is Some,
    ensures
        r@ == (if is_send { seq![(account, false), (destination->0, true)] } else { seq![(account, false)] }),
{
    let mut r = Vec::new();
    r.push((account, false));
    if is_send {
        r.push((destination.unwrap(), true));
    }
    r
}

/// Whether observers are told that a confirmed block is a state send, and whether a state
/// epoch block: only state blocks count, and, for blocks cemented without an observer
/// call of their own, only when the block's amount is known (`amount_known`).
pub fn confirmed_block_flags(amount_known: bool, is_state: bool, is_send: bool, is_epoch: bool) -> (r: (bool, bool))
    ensures
        r == (amount_known && is_state && is_send, amount_known && is_state && is_epoch),
{
    if amount_known && is_state {
        (is_send, is_epoch)
    } else {
        (false, false)
    }
}

} // verus!
