//! Applying votes to an election: which votes count, the tally of each candidate, when a
//! new winner is chosen and when the election is confirmed.

use vstd::prelude::*;
use crate::numbers::{BlockHash, PublicKey, QualifiedRoot};
use crate::election::{
    distinct_blocks, distinct_voters, has_vote_by, spec_elapsed, vote_position, Election, ElectionData,
    ElectionState, ElectionStatus, VoteInfo,
};
use crate::bootstrap_weights::{rep_weight, RepWeights};
use crate::vote::FINAL_TIMESTAMP;
use crate::vote_cache::VoteCode;
use crate::recently_confirmed::{after_put, RecentlyConfirmedCache};
use crate::seqs::lemma_filter_subsequence;

verus! {

/// The summed weight of the representatives voting for `h`.
pub open spec fn hash_tally(v: Seq<(PublicKey, VoteInfo)>, w: Map<PublicKey, u128>, h: BlockHash) -> nat
    decreases v.len(),
{
    if v.len() == 0 {
        0
    } else {
        hash_tally(v.drop_last(), w, h) + if v.last().1.hash == h { rep_weight(w, v.last().0) } else { 0 }
    }
}

/// The summed weight of the final votes for `h`.
pub open spec fn final_tally(v: Seq<(PublicKey, VoteInfo)>, w: Map<PublicKey, u128>, h: BlockHash) -> nat
    decreases v.len(),
{
    if v.len() == 0 {
        0
    } else {
        final_tally(v.drop_last(), w, h) + if v.last().1.hash == h && v.last().1.timestamp == FINAL_TIMESTAMP {
            rep_weight(w, v.last().0)
        } else {
            0
        }
    }
}

/// The summed weight of all voters.
pub open spec fn total_weight(v: Seq<(PublicKey, VoteInfo)>, w: Map<PublicKey, u128>) -> nat
    decreases v.len(),
{
    if v.len() == 0 { 0 } else { total_weight(v.drop_last(), w) + rep_weight(w, v.last().0) }
}

pub open spec fn has_final_vote(v: Seq<(PublicKey, VoteInfo)>, h: BlockHash) -> bool {
    exists|i: int| 0 <= i < v.len() && v[i].1.hash == h && v[i].1.timestamp == FINAL_TIMESTAMP
}

pub open spec fn any_final_vote(v: Seq<(PublicKey, VoteInfo)>) -> bool {
    exists|i: int| 0 <= i < v.len() && v[i].1.timestamp == FINAL_TIMESTAMP
}

/// The voted blocks in the order of their first vote.
pub open spec fn voted_hashes(v: Seq<(PublicKey, VoteInfo)>) -> Seq<BlockHash>
    decreases v.len(),
{
    if v.len() == 0 {
        Seq::empty()
    } else {
        let prev = voted_hashes(v.drop_last());
        if prev.contains(v.last().1.hash) { prev } else { prev.push(v.last().1.hash) }
    }
}

/// Each voted block with its tally, in the order of their first vote.
pub open spec fn tally_entries(v: Seq<(PublicKey, VoteInfo)>, w: Map<PublicKey, u128>) -> Seq<(BlockHash, u128)> {
    voted_hashes(v).map_values(|h: BlockHash| (h, hash_tally(v, w, h) as u128))
}

/// `p` is where a tally goes in a ranking from highest to lowest: after every higher one.
pub open spec fn is_rank_position(r: Seq<(u128, BlockHash)>, amount: u128, p: int) -> bool {
    &&& 0 <= p <= r.len()
    &&& forall|i: int| 0 <= i < p ==> (#[trigger] r[i]).0 > amount
    &&& (p == r.len() || r[p].0 <= amount)
}

pub open spec fn rank_position(r: Seq<(u128, BlockHash)>, amount: u128) -> int {
    choose|p: int| is_rank_position(r, amount, p)
}

/// Ranking a block by its tally: a block with an equal tally is replaced.
pub open spec fn rank_insert(r: Seq<(u128, BlockHash)>, amount: u128, h: BlockHash) -> Seq<(u128, BlockHash)> {
    let p = rank_position(r, amount);
    if p < r.len() && r[p].0 == amount { r.update(p, (amount, h)) } else { r.insert(p, (amount, h)) }
}

/// The candidates among the tallied blocks ranked from highest tally to lowest, one block
/// per tally: of blocks with equal tallies the one tallied last.
pub open spec fn ranking(t: Seq<(BlockHash, u128)>, blocks: Seq<BlockHash>) -> Seq<(u128, BlockHash)>
    decreases t.len(),
{
    if t.len() == 0 {
        Seq::empty()
    } else {
        let prev = ranking(t.drop_last(), blocks);
        if blocks.contains(t.last().0) { rank_insert(prev, t.last().1, t.last().0) } else { prev }
    }
}

pub open spec fn strictly_descending(r: Seq<(u128, BlockHash)>) -> bool {
    forall|i: int, j: int| 0 <= i < j < r.len() ==> r[i].0 > r[j].0
}

proof fn lemma_total_prefix(v: Seq<(PublicKey, VoteInfo)>, w: Map<PublicKey, u128>, i: int)
    requires
        0 <= i <= v.len(),
    ensures
        total_weight(v.take(i), w) <= total_weight(v, w),
    decreases v.len() - i,
{
    if i < v.len() {
        lemma_total_prefix(v, w, i + 1);
        assert(v.take(i + 1).drop_last() =~= v.take(i));
    } else {
        assert(v.take(i) =~= v);
    }
}

proof fn lemma_tally_bounded(v: Seq<(PublicKey, VoteInfo)>, w: Map<PublicKey, u128>, h: BlockHash)
    ensures
        final_tally(v, w, h) <= hash_tally(v, w, h),
        hash_tally(v, w, h) <= total_weight(v, w),
    decreases v.len(),
{
    if v.len() > 0 {
        lemma_tally_bounded(v.drop_last(), w, h);
    }
}

proof fn lemma_unvoted_tally(v: Seq<(PublicKey, VoteInfo)>, w: Map<PublicKey, u128>, h: BlockHash)
    requires
        !voted_hashes(v).contains(h),
    ensures
        hash_tally(v, w, h) == 0,
    decreases v.len(),
{
    if v.len() > 0 {
        let prev = voted_hashes(v.drop_last());
        if !prev.contains(v.last().1.hash) {
            assert(voted_hashes(v)[prev.len() as int] == v.last().1.hash);
        }
        assert(!prev.contains(h)) by {
            if prev.contains(h) {
                let k = choose|k: int| 0 <= k < prev.len() && prev[k] == h;
                assert(voted_hashes(v)[k] == h);
            }
        }
        lemma_unvoted_tally(v.drop_last(), w, h);
        if v.last().1.hash == h {
            if prev.contains(h) {} else { assert(voted_hashes(v)[prev.len() as int] == h); }
        }
    }
}

proof fn lemma_voted_distinct(v: Seq<(PublicKey, VoteInfo)>)
    ensures
        distinct_blocks(voted_hashes(v)),
    decreases v.len(),
{
    if v.len() > 0 {
        lemma_voted_distinct(v.drop_last());
    }
}

proof fn lemma_rank_position(r: Seq<(u128, BlockHash)>, amount: u128, p: int)
    requires
        is_rank_position(r, amount, p),
    ensures
        rank_position(r, amount) == p,
{
    let q = rank_position(r, amount);
    assert(is_rank_position(r, amount, q));
    if q < p {
        assert(r[q].0 > amount);
    } else if p < q {
        assert(r[p].0 > amount);
    }
}

proof fn lemma_rank_position_exists(r: Seq<(u128, BlockHash)>, amount: u128, p: int)
    requires
        strictly_descending(r),
        0 <= p <= r.len(),
        forall|i: int| 0 <= i < p ==> (#[trigger] r[i]).0 > amount,
    ensures
        is_rank_position(r, amount, rank_position(r, amount)),
    decreases r.len() - p,
{
    if p == r.len() || r[p].0 <= amount {
        assert(is_rank_position(r, amount, p));
    } else {
        lemma_rank_position_exists(r, amount, p + 1);
    }
}

proof fn lemma_rank_insert_descending(r: Seq<(u128, BlockHash)>, amount: u128, h: BlockHash)
    requires
        strictly_descending(r),
    ensures
        strictly_descending(rank_insert(r, amount, h)),
{
    lemma_rank_position_exists(r, amount, 0);
    let p = rank_position(r, amount);
    let n = rank_insert(r, amount, h);
    if p < r.len() && r[p].0 == amount {
        assert forall|i: int, j: int| 0 <= i < j < n.len() implies n[i].0 > n[j].0 by {
            assert(n[i].0 == r[i].0 && n[j].0 == r[j].0);
        }
    } else {
        assert forall|i: int, j: int| 0 <= i < j < n.len() implies n[i].0 > n[j].0 by {
            if i < p && j < p {
                assert(n[i] == r[i] && n[j] == r[j]);
            } else if i < p && j == p {
                assert(n[i] == r[i]);
            } else if i < p {
                assert(n[i] == r[i] && n[j] == r[j - 1]);
            } else if i == p {
                assert(n[j] == r[j - 1]);
                assert(r[p].0 < amount);
                if j - 1 > p { assert(r[p].0 > r[j - 1].0); }
            } else {
                assert(n[i] == r[i - 1] && n[j] == r[j - 1]);
            }
        }
    }
}

proof fn lemma_ranking_descending(t: Seq<(BlockHash, u128)>, blocks: Seq<BlockHash>)
    ensures
        strictly_descending(ranking(t, blocks)),
    decreases t.len(),
{
    if t.len() > 0 {
        lemma_ranking_descending(t.drop_last(), blocks);
        if blocks.contains(t.last().0) {
            lemma_rank_insert_descending(ranking(t.drop_last(), blocks), t.last().1, t.last().0);
        }
    }
}

/// The tally ranking is ordered from the highest tally to the lowest, each tally once.
pub proof fn lemma_ranking_is_strictly_descending(v: Seq<(PublicKey, VoteInfo)>, w: Map<PublicKey, u128>, blocks: Seq<BlockHash>)
    ensures
        strictly_descending(ranking(tally_entries(v, w), blocks)),
{
    lemma_ranking_descending(tally_entries(v, w), blocks);
}

fn find_tally(tallies: &Vec<(BlockHash, u128)>, h: &BlockHash) -> (r: Option<usize>)
    ensures
        match r {
            Some(k) => k < tallies@.len() && tallies@[k as int].0 == *h,
            None => forall|j: int| 0 <= j < tallies@.len() ==> (#[trigger] tallies@[j]).0 != *h,
        },
{
    let mut k: usize = 0;
    while k < tallies.len()
        invariant
            k <= tallies@.len(),
            forall|j: int| 0 <= j < k ==> (#[trigger] tallies@[j]).0 != *h,
        decreases tallies@.len() - k,
    {
        if tallies[k].0.equals(h) {
            return Some(k);
        }
        k = k + 1;
    }
    None
}

/// Adds one more vote to the running tallies.
proof fn lemma_tally_step(v: Seq<(PublicKey, VoteInfo)>, w: Map<PublicKey, u128>, i: int)
    requires
        0 <= i < v.len(),
    ensures
        ({
            let u = v.take(i);
            let u2 = v.take(i + 1);
            &&& u2.drop_last() == u
            &&& u2.last() == v[i]
            &&& voted_hashes(u2) == (if voted_hashes(u).contains(v[i].1.hash) { voted_hashes(u) } else { voted_hashes(u).push(v[i].1.hash) })
            &&& forall|x: BlockHash| #[trigger] hash_tally(u2, w, x) == hash_tally(u, w, x) + if v[i].1.hash == x { rep_weight(w, v[i].0) } else { 0 }
            &&& total_weight(u2, w) == total_weight(u, w) + rep_weight(w, v[i].0)
        }),
{
    let u = v.take(i);
    let u2 = v.take(i + 1);
    assert(u2.drop_last() =~= u);
}

/// Ranks the candidates by tally, from highest to lowest.
fn rank(tallies: &Vec<(BlockHash, u128)>, data: &ElectionData) -> (r: Vec<(u128, BlockHash)>)
    ensures
        r@ == ranking(tallies@, data.last_blocks@),
        strictly_descending(r@),
{
    let ghost t = tallies@;
    let ghost blocks = data.last_blocks@;
    let mut ranked: Vec<(u128, BlockHash)> = Vec::new();
    let mut j: usize = 0;
    while j < tallies.len()
        invariant
            t == tallies@,
            blocks == data.last_blocks@,
            j <= t.len(),
            ranked@ == ranking(t.take(j as int), blocks),
            strictly_descending(ranked@),
        decreases t.len() - j,
    {
        let (h, amount) = tallies[j];
        proof {
            assert(t.take(j + 1).drop_last() =~= t.take(j as int));
            assert(t.take(j + 1).last() == t[j as int]);
        }
        if data.contains(&h) {
            let mut p: usize = 0;
            while p < ranked.len() && ranked[p].0 > amount
                invariant
                    p <= ranked@.len(),
                    forall|i: int| 0 <= i < p ==> (#[trigger] ranked@[i]).0 > amount,
                decreases ranked@.len() - p,
            {
                p = p + 1;
            }
            proof {
                lemma_rank_position(ranked@, amount, p as int);
                lemma_rank_insert_descending(ranked@, amount, h);
            }
            if p < ranked.len() && ranked[p].0 == amount {
                ranked.set(p, (amount, h));
            } else {
                ranked.insert(p, (amount, h));
            }
        }
        j = j + 1;
    }
    proof {
        assert(t.take(t.len() as int) =~= t);
    }
    ranked
}

/// Counts the votes of the election. Stores each voted block with its tally, in the order
/// of their first vote, and returns the candidates ranked by tally (one block per tally).
/// When some vote is final, the final weight becomes the final tally of the leading
/// candidate, if that candidate has a final vote.
pub fn tally_impl(data: &mut ElectionData, weights: &RepWeights) -> (r: Vec<(u128, BlockHash)>)
    requires
        old(data).wf(),
        weights.wf(),
        total_weight(old(data).last_votes@, weights@) <= u128::MAX,
    ensures
        final(data).wf(),
        final(data).last_tally@ == tally_entries(old(data).last_votes@, weights@),
        r@ == ranking(tally_entries(old(data).last_votes@, weights@), old(data).last_blocks@),
        strictly_descending(r@),
        final(data).final_weight == (if any_final_vote(old(data).last_votes@) && r@.len() > 0
            && has_final_vote(old(data).last_votes@, r@[0].1) {
            final_tally(old(data).last_votes@, weights@, r@[0].1) as u128
        } else {
            old(data).final_weight
        }),
        final(data).status == old(data).status,
        final(data).state == old(data).state,
        final(data).state_start == old(data).state_start,
        final(data).last_blocks@ == old(data).last_blocks@,
        final(data).last_votes@ == old(data).last_votes@,
        final(data).last_vote == old(data).last_vote,
        final(data).last_block_hash == old(data).last_block_hash,
{
    let ghost v = data.last_votes@;
    let ghost w = weights@;
    let mut tallies: Vec<(BlockHash, u128)> = Vec::new();
    let mut i: usize = 0;
    proof {
        assert(v.take(0) =~= Seq::<(PublicKey, VoteInfo)>::empty());
        assert(tally_entries(v.take(0), w) =~= tallies@);
    }
    while i < data.last_votes.len()
        invariant
            v == data.last_votes@,
            w == weights@,
            weights.wf(),
            total_weight(v, w) <= u128::MAX,
            i <= v.len(),
            tallies@ == tally_entries(v.take(i as int), w),
        decreases v.len() - i,
    {
        let (rep, info) = data.last_votes[i];
        let wt = weights.weight(&rep);
        let ghost u = v.take(i as int);
        let ghost u2 = v.take(i + 1);
        proof {
            lemma_tally_step(v, w, i as int);
            lemma_voted_distinct(u);
            lemma_total_prefix(v, w, i + 1);
            lemma_tally_bounded(u2, w, info.hash);
            lemma_tally_bounded(u, w, info.hash);
        }
        let ghost before = tallies@;
        match find_tally(&tallies, &info.hash) {
            Some(k) => {
                proof {
                    assert(voted_hashes(u)[k as int] == info.hash);
                    assert(voted_hashes(u).contains(info.hash));
                }
                let cur = tallies[k].1;
                tallies.set(k, (info.hash, cur + wt));
                proof {
                    let vh = voted_hashes(u);
                    assert forall|j: int| 0 <= j < tallies@.len() implies tallies@[j] == tally_entries(u2, w)[j] by {
                        if j != k {
                            assert(vh[j] != vh[k as int]);
                            assert(hash_tally(u2, w, vh[j]) == hash_tally(u, w, vh[j]));
                        }
                    }
                    assert(tallies@ =~= tally_entries(u2, w));
                }
            },
            None => {
                proof {
                    assert(!voted_hashes(u).contains(info.hash)) by {
                        if voted_hashes(u).contains(info.hash) {
                            let j = choose|j: int| 0 <= j < voted_hashes(u).len() && voted_hashes(u)[j] == info.hash;
                            assert(before[j].0 == info.hash);
                        }
                    }
                    lemma_unvoted_tally(u, w, info.hash);
                }
                tallies.push((info.hash, wt));
                proof {
                    let vh = voted_hashes(u);
                    assert forall|j: int| 0 <= j < tallies@.len() implies tallies@[j] == tally_entries(u2, w)[j] by {
                        if j < vh.len() {
                            assert(vh[j] != info.hash);
                            assert(hash_tally(u2, w, vh[j]) == hash_tally(u, w, vh[j]));
                        }
                    }
                    assert(tallies@ =~= tally_entries(u2, w));
                }
            },
        }
        i = i + 1;
    }
    proof {
        assert(v.take(v.len() as int) =~= v);
    }
    let ranked = rank(&tallies, data);
    data.last_tally = tallies;
    // The final weight of the leading candidate.
    let mut any_final = false;
    let mut k: usize = 0;
    while k < data.last_votes.len()
        invariant
            v == data.last_votes@,
            k <= v.len(),
            any_final == exists|j: int| 0 <= j < k && v[j].1.timestamp == FINAL_TIMESTAMP,
        decreases v.len() - k,
    {
        if data.last_votes[k].1.timestamp == FINAL_TIMESTAMP {
            any_final = true;
        }
        k = k + 1;
    }
    if any_final && ranked.len() > 0 {
        let winner = ranked[0].1;
        let mut found = false;
        let mut sum: u128 = 0;
        let mut m: usize = 0;
        while m < data.last_votes.len()
            invariant
                v == data.last_votes@,
                w == weights@,
                weights.wf(),
                total_weight(v, w) <= u128::MAX,
                m <= v.len(),
                found == exists|j: int| 0 <= j < m && v[j].1.hash == winner && v[j].1.timestamp == FINAL_TIMESTAMP,
                sum == final_tally(v.take(m as int), w, winner),
            decreases v.len() - m,
        {
            let (rep, info) = data.last_votes[m];
            proof {
                lemma_tally_step(v, w, m as int);
                assert(final_tally(v.take(m + 1), w, winner) == final_tally(v.take(m as int), w, winner)
                    + if info.hash == winner && info.timestamp == FINAL_TIMESTAMP { rep_weight(w, rep) } else { 0 });
                lemma_tally_bounded(v.take(m + 1), w, winner);
                lemma_total_prefix(v, w, m + 1);
            }
            if info.hash.equals(&winner) && info.timestamp == FINAL_TIMESTAMP {
                let wt = weights.weight(&rep);
                sum = sum + wt;
                found = true;
            }
            m = m + 1;
        }
        proof {
            assert(v.take(v.len() as int) =~= v);
        }
        if found {
            data.final_weight = sum;
        }
    }
    ranked
}

/// Minimum time between two counted non-final votes of a representative, in
/// milliseconds: 1 s above 5% of the online weight, 5 s above 1%, else 15 s.
pub open spec fn spec_cooldown_time(weight: u128, online_stake: u128) -> u64 {
    if weight > online_stake / 20 { 1000u64 } else if weight > online_stake / 100 { 5000u64 } else { 15_000u64 }
}

pub fn cooldown_time(weight: u128, online_stake: u128) -> (r: u64)
    ensures
        r == spec_cooldown_time(weight, online_stake),
{
    if weight > online_stake / 20 {
        1000
    } else if weight > online_stake / 100 {
        5000
    } else {
        15_000
    }
}

/// The leading tally exceeds the runner-up (zero if there is none) by at least the
/// quorum delta.
pub open spec fn ranking_has_quorum(r: Seq<(u128, BlockHash)>, quorum_delta: u128) -> bool {
    let first: int = if r.len() > 0 { r[0].0 as int } else { 0 };
    let second: int = if r.len() > 1 { r[1].0 as int } else { 0 };
    first - second >= quorum_delta
}

pub fn have_quorum(ranking: &Vec<(u128, BlockHash)>, quorum_delta: u128) -> (r: bool)
    requires
        strictly_descending(ranking@),
    ensures
        r == ranking_has_quorum(ranking@, quorum_delta),
{
    let first: u128 = if ranking.len() > 0 { ranking[0].0 } else { 0 };
    let second: u128 = if ranking.len() > 1 { ranking[1].0 } else { 0 };
    first - second >= quorum_delta
}

/// The sum of the ranked tallies.
pub open spec fn ranking_sum(r: Seq<(u128, BlockHash)>) -> nat
    decreases r.len(),
{
    if r.len() == 0 { 0 } else { ranking_sum(r.drop_last()) + r.last().0 as nat }
}

/// Whether the ranked tallies sum to at least `delta`.
fn sum_reaches(ranking: &Vec<(u128, BlockHash)>, delta: u128) -> (r: bool)
    ensures
        r == (ranking_sum(ranking@) >= delta),
{
    let mut acc: u128 = 0;
    let mut i: usize = 0;
    while i < ranking.len()
        invariant
            i <= ranking@.len(),
            acc == (if ranking_sum(ranking@.take(i as int)) > u128::MAX { u128::MAX as nat } else { ranking_sum(ranking@.take(i as int)) }),
        decreases ranking@.len() - i,
    {
        proof {
            assert(ranking@.take(i + 1).drop_last() =~= ranking@.take(i as int));
        }
        let x = ranking[i].0;
        acc = if acc > u128::MAX - x { u128::MAX } else { acc + x };
        i = i + 1;
    }
    proof {
        assert(ranking@.take(ranking@.len() as int) =~= ranking@);
    }
    acc >= delta
}

/// Whether a vote is counted: `Indeterminate` for a representative too light to matter
/// (outside the dev network), `Replay` for a vote no newer than the representative's
/// last one (for equal timestamps, one for a block not above the last one), `Ignored` for
/// a non-final live vote within the representative's cooldown, else `Vote`.
pub open spec fn vote_code(
    last: Option<VoteInfo>,
    timestamp: u64,
    hash: BlockHash,
    from_cache: bool,
    weight: u128,
    minimum_principal_weight: u128,
    online_stake: u128,
    is_dev_network: bool,
    now: u64,
) -> VoteCode {
    if !is_dev_network && weight <= minimum_principal_weight {
        VoteCode::Indeterminate
    } else {
        match last {
            None => VoteCode::Vote,
            Some(lv) => {
                if lv.timestamp > timestamp {
                    VoteCode::Replay
                } else if lv.timestamp == timestamp && !lv.hash.spec_lt(hash) {
                    VoteCode::Replay
                } else {
                    let max_vote = timestamp == FINAL_TIMESTAMP && lv.timestamp < timestamp;
                    let past_cooldown = from_cache || lv.time + spec_cooldown_time(weight, online_stake) <= now;
                    if !max_vote && !past_cooldown { VoteCode::Ignored } else { VoteCode::Vote }
                }
            },
        }
    }
}

/// The votes after recording the representative's new vote.
pub open spec fn votes_after(v: Seq<(PublicKey, VoteInfo)>, rep: PublicKey, info: VoteInfo) -> Seq<(PublicKey, VoteInfo)> {
    if has_vote_by(v, rep) { v.update(vote_position(v, rep), (rep, info)) } else { v.push((rep, info)) }
}

/// The votes without those of the given representatives.
pub open spec fn votes_without(v: Seq<(PublicKey, VoteInfo)>, reps: Seq<PublicKey>) -> Seq<(PublicKey, VoteInfo)> {
    v.filter(|x: (PublicKey, VoteInfo)| !reps.contains(x.0))
}

/// The final weight after a count.
pub open spec fn tallied_final_weight(v: Seq<(PublicKey, VoteInfo)>, w: Map<PublicKey, u128>, blocks: Seq<BlockHash>, before: u128) -> u128 {
    let r = ranking(tally_entries(v, w), blocks);
    if any_final_vote(v) && r.len() > 0 && has_final_vote(v, r[0].1) { final_tally(v, w, r[0].1) as u128 } else { before }
}

/// The status of an election as confirmed at `now`.
pub open spec fn confirmed_status(s: ElectionStatus, blocks: nat, voters: nat, start: u64, requests: u32, now: u64) -> ElectionStatus {
    ElectionStatus {
        election_end: now,
        election_duration: spec_elapsed(start, now),
        confirmation_request_count: requests,
        block_count: (blocks % 0x1_0000_0000) as u32,
        voter_count: (voters % 0x1_0000_0000) as u32,
        ..s
    }
}

pub open spec fn knows_winner(s: Seq<(BlockHash, usize)>, h: BlockHash) -> bool {
    exists|i: int| 0 <= i < s.len() && s[i].0 == h
}

/// The values of an election, the vote applier and the recent confirmations that
/// counting reads or changes.
pub struct CountState {
    pub votes: Seq<(PublicKey, VoteInfo)>,
    pub blocks: Seq<BlockHash>,
    pub tally: Seq<(BlockHash, u128)>,
    pub status: ElectionStatus,
    pub state: ElectionState,
    pub final_weight: u128,
    pub is_quorum: bool,
    pub winners: Seq<(BlockHash, usize)>,
    pub recent: Seq<(QualifiedRoot, BlockHash)>,
}

pub open spec fn count_state(e: Election, a: VoteApplier, rc: RecentlyConfirmedCache) -> CountState {
    CountState {
        votes: e.data.last_votes@,
        blocks: e.data.last_blocks@,
        tally: e.data.last_tally@,
        status: e.data.status,
        state: e.data.state,
        final_weight: e.data.final_weight,
        is_quorum: e.is_quorum,
        winners: a.winners(),
        recent: rc.entries(),
    }
}

/// What counting does (see `VoteApplier::confirm_if_quorum`): `after` and `r` follow from
/// `before`.
pub open spec fn counted(
    before: CountState,
    after: CountState,
    r: QuorumOutcome,
    w: Map<PublicKey, u128>,
    quorum_delta: u128,
    voting: bool,
    own_votes: Seq<PublicKey>,
    recent_max: nat,
    qualified_root: QualifiedRoot,
    election_start: u64,
    requests: u32,
    now: u64,
) -> bool {
    let rk = ranking(tally_entries(before.votes, w), before.blocks);
    let fw = tallied_final_weight(before.votes, w, before.blocks, before.final_weight);
    let old_winner = before.status.winner.unwrap();
    let switch = ranking_sum(rk) >= quorum_delta && rk[0].1 != old_winner;
    let winner = if switch { rk[0].1 } else { old_winner };
    let quorum = ranking_has_quorum(rk, quorum_delta);
    let confirm = quorum && fw >= quorum_delta;
    let record = confirm && before.state != ElectionState::Confirmed && !knows_winner(before.winners, winner);
    let votes = if switch && voting { votes_without(before.votes, own_votes) } else { before.votes };
    let status = ElectionStatus { tally: rk[0].0, final_tally: fw, winner: Some(winner), ..before.status };
    &&& after.tally == tally_entries(before.votes, w)
    &&& after.final_weight == fw
    &&& after.votes == votes
    &&& after.blocks == before.blocks
    &&& after.state == (if confirm { ElectionState::Confirmed } else { before.state })
    &&& after.status == (if record {
            confirmed_status(status, before.blocks.len(), votes.len(), election_start, requests, now)
        } else {
            status
        })
    &&& after.is_quorum == (before.is_quorum || quorum)
    &&& r.forced_block == (if switch { Some(rk[0].1) } else { None })
    &&& r.erase_history == (switch && voting)
    &&& r.final_vote == (if quorum && !before.is_quorum && voting { Some(old_winner) } else { None })
    &&& r.confirmed == (if record { Some(after.status) } else { None })
    &&& record ==> knows_winner(after.winners, winner)
        && (forall|h: BlockHash| h != winner ==> knows_winner(after.winners, h) == knows_winner(before.winners, h))
        && after.recent == after_put(before.recent, recent_max, qualified_root, winner)
    &&& !record ==> after.winners == before.winners && after.recent == before.recent
}

/// The winner switches to the leading block whenever all ranked tallies together reach
/// the quorum delta and the leader is not the winner already, whatever the leader's own
/// tally: the leader's block is then forced. Otherwise the winner stays and nothing is
/// forced. The sum is that of every ranked tally.
pub proof fn lemma_winner_switches_when_all_tallies_reach_the_delta(
    before: CountState,
    after: CountState,
    r: QuorumOutcome,
    w: Map<PublicKey, u128>,
    quorum_delta: u128,
    voting: bool,
    own_votes: Seq<PublicKey>,
    recent_max: nat,
    qualified_root: QualifiedRoot,
    election_start: u64,
    requests: u32,
    now: u64,
)
    requires
        before.status.winner is Some,
        counted(before, after, r, w, quorum_delta, voting, own_votes, recent_max, qualified_root, election_start, requests, now),
    ensures
        ({
            let rk = ranking(tally_entries(before.votes, w), before.blocks);
            let switch = ranking_sum(rk) >= quorum_delta && rk[0].1 != before.status.winner.unwrap();
            &&& switch ==> after.status.winner == Some(rk[0].1) && r.forced_block == Some(rk[0].1)
            &&& !switch ==> after.status.winner == before.status.winner && r.forced_block is None
        }),
        ranking_sum(Seq::<(u128, BlockHash)>::empty()) == 0,
        forall|x: Seq<(u128, BlockHash)>, e: (u128, BlockHash)| #[trigger] ranking_sum(x.push(e)) == ranking_sum(x) + e.0,
{
    assert forall|x: Seq<(u128, BlockHash)>, e: (u128, BlockHash)| #[trigger] ranking_sum(x.push(e)) == ranking_sum(x) + e.0 by {
        assert(x.push(e).drop_last() =~= x);
    }
}

/// What the network knows of the online representatives.
#[derive(Clone, Copy, Debug, PartialEq, Eq)]
pub struct OnlineWeights {
    /// Below or at this weight a representative's vote is not counted (outside the dev network).
    pub minimum_principal_weight: u128,
    /// The trended online weight, or the configured minimum.
    pub online_stake: u128,
    /// The lead a block needs for a quorum.
    pub quorum_delta: u128,
}

/// What counting the votes after a vote asks of the node.
pub struct QuorumOutcome {
    /// A new winner: its block is forced into the ledger.
    pub forced_block: Option<BlockHash>,
    /// The own votes for the previous winner were removed: forget them in the vote history.
    pub erase_history: bool,
    /// Generate a final vote for this block.
    pub final_vote: Option<BlockHash>,
    /// The election was just confirmed, with this status.
    pub confirmed: Option<ElectionStatus>,
}

/// The part of vote processing that outlives single elections: the winners of elections
/// confirmed but not yet cemented.
pub struct VoteApplier {
    election_winner_details: Vec<(BlockHash, usize)>,
    is_dev_network: bool,
    enable_voting: bool,
}

impl VoteApplier {
    /// Winning blocks with the id of their election, each block once.
    pub closed spec fn winners(&self) -> Seq<(BlockHash, usize)> {
        self.election_winner_details@
    }

    pub closed spec fn spec_is_dev_network(&self) -> bool {
        self.is_dev_network
    }

    pub closed spec fn spec_enable_voting(&self) -> bool {
        self.enable_voting
    }

    pub closed spec fn wf(&self) -> bool {
        forall|i: int, j: int| 0 <= i < j < self.election_winner_details@.len()
            ==> self.election_winner_details@[i].0 != self.election_winner_details@[j].0
    }

    pub fn new(is_dev_network: bool, enable_voting: bool) -> (r: Self)
        ensures
            r.wf(),
            r.winners().len() == 0,
            r.spec_is_dev_network() == is_dev_network,
            r.spec_enable_voting() == enable_voting,
    {
        VoteApplier { election_winner_details: Vec::new(), is_dev_network, enable_voting }
    }

    fn winner_position(&self, hash: &BlockHash) -> (r: Option<usize>)
        requires
            self.wf(),
        ensures
            match r {
                Some(i) => i < self.winners().len() && self.winners()[i as int].0 == *hash
                    && knows_winner(self.winners(), *hash),
                None => !knows_winner(self.winners(), *hash),
            },
    {
        let mut i: usize = 0;
        while i < self.election_winner_details.len()
            invariant
                i <= self.election_winner_details@.len(),
                forall|j: int| 0 <= j < i ==> (#[trigger] self.election_winner_details@[j]).0 != *hash,
            decreases self.election_winner_details@.len() - i,
        {
            if self.election_winner_details[i].0.equals(hash) {
                return Some(i);
            }
            i = i + 1;
        }
        None
    }

    /// Records the winner of a confirmed election, replacing an earlier record of it.
    pub fn add_election_winner_details(&mut self, hash: BlockHash, election_id: usize)
        requires
            old(self).wf(),
        ensures
            final(self).wf(),
            knows_winner(final(self).winners(), hash),
            forall|h: BlockHash| h != hash ==> knows_winner(final(self).winners(), h) == knows_winner(old(self).winners(), h),
            final(self).spec_is_dev_network() == old(self).spec_is_dev_network(),
            final(self).spec_enable_voting() == old(self).spec_enable_voting(),
    {
        let ghost before = self.election_winner_details@;
        match self.winner_position(&hash) {
            Some(i) => {
                self.election_winner_details.set(i, (hash, election_id));
                proof {
                    let after = self.election_winner_details@;
                    assert forall|a: int, b: int| 0 <= a < b < after.len() implies after[a].0 != after[b].0 by {
                        assert(before[i as int].0 == hash);
                        assert(after[a].0 == before[a].0 && after[b].0 == before[b].0);
                    }
                    assert(knows_winner(after, hash)) by { assert(after[i as int].0 == hash); }
                    assert forall|h: BlockHash| h != hash implies knows_winner(after, h) == knows_winner(before, h) by {
                        if knows_winner(before, h) {
                            let k = choose|k: int| 0 <= k < before.len() && before[k].0 == h;
                            assert(after[k] == before[k]);
                        }
                        if knows_winner(after, h) {
                            let k = choose|k: int| 0 <= k < after.len() && after[k].0 == h;
                            assert(after[k] == before[k]);
                        }
                    }
                }
            },
            None => {
                self.election_winner_details.push((hash, election_id));
                proof {
                    let after = self.election_winner_details@;
                    let n = before.len() as int;
                    assert forall|a: int, b: int| 0 <= a < b < after.len() implies after[a].0 != after[b].0 by {
                        assert(after[a] == before[a]);
                        if b < n { assert(after[b] == before[b]); }
                    }
                    assert(knows_winner(after, hash)) by { assert(after[n].0 == hash); }
                    assert forall|h: BlockHash| h != hash implies knows_winner(after, h) == knows_winner(before, h) by {
                        if knows_winner(before, h) {
                            let k = choose|k: int| 0 <= k < before.len() && before[k].0 == h;
                            assert(after[k] == before[k]);
                        }
                        if knows_winner(after, h) {
                            let k = choose|k: int| 0 <= k < after.len() && after[k].0 == h;
                            assert(k != n);
                            assert(after[k] == before[k]);
                        }
                    }
                }
            },
        }
    }

    /// The number of recorded winners.
    pub fn election_winner_details_len(&self) -> (r: usize)
        ensures
            r == self.winners().len(),
    {
        self.election_winner_details.len()
    }

    /// Forgets the winner's record and returns the id of its election, if it was recorded.
    pub fn remove_election_winner_details(&mut self, hash: &BlockHash) -> (r: Option<usize>)
        requires
            old(self).wf(),
        ensures
            final(self).wf(),
            !knows_winner(final(self).winners(), *hash),
            r.is_some() == knows_winner(old(self).winners(), *hash),
            forall|h: BlockHash| h != *hash ==> knows_winner(final(self).winners(), h) == knows_winner(old(self).winners(), h),
            final(self).spec_is_dev_network() == old(self).spec_is_dev_network(),
            final(self).spec_enable_voting() == old(self).spec_enable_voting(),
    {
        let ghost before = self.election_winner_details@;
        match self.winner_position(hash) {
            Some(i) => {
                let (_, id) = self.election_winner_details.remove(i);
                proof {
                    let after = self.election_winner_details@;
                    assert forall|a: int, b: int| 0 <= a < b < after.len() implies after[a].0 != after[b].0 by {
                        let a2 = if a < i { a } else { a + 1 };
                        let b2 = if b < i { b } else { b + 1 };
                        assert(after[a] == before[a2] && after[b] == before[b2]);
                    }
                    assert(!knows_winner(after, *hash)) by {
                        if knows_winner(after, *hash) {
                            let k = choose|k: int| 0 <= k < after.len() && after[k].0 == *hash;
                            let k2 = if k < i { k } else { k + 1 };
                            assert(after[k] == before[k2]);
                            if k2 < i { assert(before[k2].0 != before[i as int].0); } else { assert(before[i as int].0 != before[k2].0); }
                        }
                    }
                    assert forall|h: BlockHash| h != *hash implies knows_winner(after, h) == knows_winner(before, h) by {
                        if knows_winner(before, h) {
                            let k = choose|k: int| 0 <= k < before.len() && before[k].0 == h;
                            assert(k != i);
                            let k2 = if k < i { k } else { k - 1 };
                            assert(after[k2] == before[k]);
                        }
                        if knows_winner(after, h) {
                            let k = choose|k: int| 0 <= k < after.len() && after[k].0 == h;
                            let k2 = if k < i { k } else { k + 1 };
                            assert(after[k] == before[k2]);
                        }
                    }
                }
                Some(id)
            },
            None => None,
        }
    }

    /// Marks the election confirmed. The first time it is confirmed with a winner not yet
    /// recorded, the winner is recorded, the final figures of the status are filled in,
    /// the confirmation is remembered as recent, and the status is returned for the
    /// confirmed block to be processed.
    pub fn confirm_once(&mut self, election: &mut Election, recently_confirmed: &mut RecentlyConfirmedCache, now: u64) -> (r: Option<ElectionStatus>)
        requires
            old(self).wf(),
            old(election).data.wf(),
            old(recently_confirmed).wf(),
        ensures
            final(self).wf(),
            final(election).data.wf(),
            final(recently_confirmed).wf(),
            final(recently_confirmed).max_len() == old(recently_confirmed).max_len(),
            final(self).spec_is_dev_network() == old(self).spec_is_dev_network(),
            final(self).spec_enable_voting() == old(self).spec_enable_voting(),
            final(election).data.state == ElectionState::Confirmed,
            final(election).data.state_start == old(election).data.state_start,
            final(election).data.same_votes(old(election).data),
            final(election).same_frame(*old(election)),
            final(election).is_quorum == old(election).is_quorum,
            ({
                let winner = old(election).data.status.winner.unwrap();
                let record = old(election).data.state != ElectionState::Confirmed && !knows_winner(old(self).winners(), winner);
                &&& record ==> final(election).data.status == confirmed_status(old(election).data.status,
                        old(election).data.last_blocks@.len(), old(election).data.last_votes@.len(),
                        old(election).election_start, old(election).confirmation_request_count, now)
                    && r == Some(final(election).data.status)
                    && knows_winner(final(self).winners(), winner)
                    && (forall|h: BlockHash| h != winner ==> knows_winner(final(self).winners(), h) == knows_winner(old(self).winners(), h))
                    && final(recently_confirmed).entries() == after_put(old(recently_confirmed).entries(),
                        old(recently_confirmed).max_len(), old(election).qualified_root, winner)
                &&& !record ==> final(election).data.status == old(election).data.status
                    && r is None
                    && final(self).winners() == old(self).winners()
                    && final(recently_confirmed).entries() == old(recently_confirmed).entries()
            }),
    {
        let winner = match election.data.status.winner {
            Some(w) => w,
            None => { return None; },
        };
        let just_confirmed = match election.data.state {
            ElectionState::Confirmed => false,
            _ => true,
        };
        election.data.state = ElectionState::Confirmed;
        if just_confirmed && self.winner_position(&winner).is_none() {
            self.add_election_winner_details(winner, election.id);
            election.data.update_status_to_confirmed(election.election_start, election.confirmation_request_count, now);
            let _ = recently_confirmed.put(election.qualified_root, winner);
            Some(election.data.status)
        } else {
            None
        }
    }

    /// Counts the votes and acts on the count. A block other than the winner that leads
    /// while all tallies together reach the quorum delta becomes the winner; the own votes
    /// for the previous winner are then removed when this node votes. With a quorum the
    /// election is marked as having reached it (the first time, a final vote for the
    /// previous winner is asked for when this node votes), and with a final weight of at
    /// least the quorum delta it is confirmed.
    pub fn confirm_if_quorum(
        &mut self,
        election: &mut Election,
        weights: &RepWeights,
        online: &OnlineWeights,
        voting_reps_count: usize,
        own_votes_for_winner: &Vec<PublicKey>,
        recently_confirmed: &mut RecentlyConfirmedCache,
        now: u64,
    ) -> (r: QuorumOutcome)
        requires
            old(self).wf(),
            old(election).data.wf(),
            old(recently_confirmed).wf(),
            weights.wf(),
            total_weight(old(election).data.last_votes@, weights@) <= u128::MAX,
            ranking(tally_entries(old(election).data.last_votes@, weights@), old(election).data.last_blocks@).len() > 0,
        ensures
            final(self).wf(),
            final(election).data.wf(),
            final(recently_confirmed).wf(),
            final(recently_confirmed).max_len() == old(recently_confirmed).max_len(),
            final(self).spec_is_dev_network() == old(self).spec_is_dev_network(),
            final(self).spec_enable_voting() == old(self).spec_enable_voting(),
            final(election).same_frame(*old(election)),
            final(election).data.state_start == old(election).data.state_start,
            final(election).data.last_vote == old(election).data.last_vote,
            final(election).data.last_block_hash == old(election).data.last_block_hash,
            counted(
                count_state(*old(election), *old(self), *old(recently_confirmed)),
                count_state(*final(election), *final(self), *final(recently_confirmed)),
                r, weights@, online.quorum_delta, old(self).spec_enable_voting() && voting_reps_count > 0,
                own_votes_for_winner@, old(recently_confirmed).max_len(), old(election).qualified_root,
                old(election).election_start, old(election).confirmation_request_count, now,
            ),
    {
        let ranked = tally_impl(&mut election.data, weights);
        let (amount, winner_hash) = ranked[0];
        election.data.status.tally = amount;
        election.data.status.final_tally = election.data.final_weight;
        let status_winner_hash = match election.data.status.winner {
            Some(w) => w,
            None => winner_hash,
        };
        let mut outcome = QuorumOutcome { forced_block: None, erase_history: false, final_vote: None, confirmed: None };
        if sum_reaches(&ranked, online.quorum_delta) && !winner_hash.equals(&status_winner_hash) {
            election.data.status.winner = Some(winner_hash);
            if self.enable_voting && voting_reps_count > 0 {
                remove_votes(&mut election.data, own_votes_for_winner);
                outcome.erase_history = true;
            }
            outcome.forced_block = Some(winner_hash);
        }
        if have_quorum(&ranked, online.quorum_delta) {
            let was_quorum = election.is_quorum;
            election.is_quorum = true;
            if !was_quorum && self.enable_voting && voting_reps_count > 0 {
                outcome.final_vote = Some(status_winner_hash);
            }
            if election.data.final_weight >= online.quorum_delta {
                outcome.confirmed = self.confirm_once(election, recently_confirmed, now);
            }
        }
        outcome
    }

    /// Applies a representative's vote for a block of the election, arriving at `now`
    /// (from the vote cache or live). A counted vote replaces the representative's
    /// previous one, and an unconfirmed election then counts its votes.
    pub fn vote(
        &mut self,
        election: &mut Election,
        rep: &PublicKey,
        timestamp: u64,
        block_hash: &BlockHash,
        from_cache: bool,
        weights: &RepWeights,
        online: &OnlineWeights,
        voting_reps_count: usize,
        own_votes_for_winner: &Vec<PublicKey>,
        recently_confirmed: &mut RecentlyConfirmedCache,
        now: u64,
    ) -> (r: (VoteCode, Option<QuorumOutcome>))
        requires
            old(self).wf(),
            old(election).data.wf(),
            old(recently_confirmed).wf(),
            weights.wf(),
            ({
                let v = old(election).data.last_votes@;
                let last = if has_vote_by(v, *rep) { Some(v[vote_position(v, *rep)].1) } else { None };
                let v2 = votes_after(v, *rep, VoteInfo { time: now, timestamp, hash: *block_hash });
                vote_code(last, timestamp, *block_hash, from_cache, rep_weight(weights@, *rep) as u128,
                    online.minimum_principal_weight, online.online_stake, old(self).spec_is_dev_network(), now) == VoteCode::Vote
                    && !old(election).data.state.spec_is_confirmed()
                    ==> total_weight(v2, weights@) <= u128::MAX
                        && ranking(tally_entries(v2, weights@), old(election).data.last_blocks@).len() > 0
            }),
        ensures
            final(self).wf(),
            final(election).data.wf(),
            final(recently_confirmed).wf(),
            final(election).same_frame(*old(election)),
            ({
                let v = old(election).data.last_votes@;
                let last = if has_vote_by(v, *rep) { Some(v[vote_position(v, *rep)].1) } else { None };
                let code = vote_code(last, timestamp, *block_hash, from_cache, rep_weight(weights@, *rep) as u128,
                    online.minimum_principal_weight, online.online_stake, old(self).spec_is_dev_network(), now);
                &&& r.0 == code
                &&& code != VoteCode::Vote ==> final(election).data == old(election).data
                    && final(election).is_quorum == old(election).is_quorum
                    && r.1 is None
                    && final(self).winners() == old(self).winners()
                    && final(recently_confirmed).entries() == old(recently_confirmed).entries()
                &&& code == VoteCode::Vote && old(election).data.state.spec_is_confirmed() ==>
                    final(election).data.last_votes@ == votes_after(v, *rep, VoteInfo { time: now, timestamp, hash: *block_hash })
                    && final(election).data.same_contents_but_votes(old(election).data)
                    && r.1 is None
                &&& code == VoteCode::Vote && !old(election).data.state.spec_is_confirmed() ==> (r.1 matches Some(q)
                    && counted(
                        CountState {
                            votes: votes_after(v, *rep, VoteInfo { time: now, timestamp, hash: *block_hash }),
                            ..count_state(*old(election), *old(self), *old(recently_confirmed))
                        },
                        count_state(*final(election), *final(self), *final(recently_confirmed)),
                        q, weights@, online.quorum_delta, old(self).spec_enable_voting() && voting_reps_count > 0,
                        own_votes_for_winner@, old(recently_confirmed).max_len(), old(election).qualified_root,
                        old(election).election_start, old(election).confirmation_request_count, now,
                    ))
            }),
    {
        let weight = weights.weight(rep);
        if !self.is_dev_network && weight <= online.minimum_principal_weight {
            return (VoteCode::Indeterminate, None);
        }
        match election.data.find_vote(rep) {
            Some(i) => {
                let last = election.data.last_votes[i].1;
                if last.timestamp > timestamp {
                    return (VoteCode::Replay, None);
                }
                if last.timestamp == timestamp && !last.hash.less_than(block_hash) {
                    return (VoteCode::Replay, None);
                }
                let max_vote = timestamp == FINAL_TIMESTAMP && last.timestamp < timestamp;
                let mut past_cooldown = true;
                if !from_cache {
                    let cooldown = cooldown_time(weight, online.online_stake);
                    past_cooldown = now >= cooldown && last.time <= now - cooldown;
                }
                if !max_vote && !past_cooldown {
                    return (VoteCode::Ignored, None);
                }
            },
            None => {},
        }
        record_vote(&mut election.data, *rep, VoteInfo::new(timestamp, *block_hash, now));
        if !election.data.is_confirmed() {
            let outcome = self.confirm_if_quorum(election, weights, online, voting_reps_count, own_votes_for_winner,
                recently_confirmed, now);
            return (VoteCode::Vote, Some(outcome));
        }
        (VoteCode::Vote, None)
    }
}

/// Replaces the representative's vote, or adds it.
fn record_vote(data: &mut ElectionData, rep: PublicKey, info: VoteInfo)
    requires
        old(data).wf(),
    ensures
        final(data).wf(),
        final(data).last_votes@ == votes_after(old(data).last_votes@, rep, info),
        final(data).same_contents_but_votes(*old(data)),
{
    let ghost before = data.last_votes@;
    match data.find_vote(&rep) {
        Some(i) => {
            data.last_votes.set(i, (rep, info));
            proof {
                let after = data.last_votes@;
                assert forall|a: int, b: int| 0 <= a < b < after.len() implies after[a].0 != after[b].0 by {
                    assert(before[i as int].0 == rep);
                    assert(after[a].0 == before[a].0 && after[b].0 == before[b].0);
                }
            }
        },
        None => {
            data.last_votes.push((rep, info));
            proof {
                let after = data.last_votes@;
                assert forall|a: int, b: int| 0 <= a < b < after.len() implies after[a].0 != after[b].0 by {
                    assert(after[a] == before[a]);
                    if b < before.len() { assert(after[b] == before[b]); }
                    else { assert(!has_vote_by(before, rep)); }
                }
            }
        },
    }
}

/// Drops the votes of the given representatives.
fn remove_votes(data: &mut ElectionData, reps: &Vec<PublicKey>)
    requires
        old(data).wf(),
    ensures
        final(data).wf(),
        final(data).last_votes@ == votes_without(old(data).last_votes@, reps@),
        final(data).same_contents_but_votes(*old(data)),
{
    let ghost votes = data.last_votes@;
    let mut kept: Vec<(PublicKey, VoteInfo)> = Vec::new();
    let mut j: usize = 0;
    while j < data.last_votes.len()
        invariant
            data.last_votes@ == votes,
            j <= votes.len(),
            kept@ == votes.take(j as int).filter(|x: (PublicKey, VoteInfo)| !reps@.contains(x.0)),
        decreases votes.len() - j,
    {
        let x = data.last_votes[j];
        proof {
            assert(votes.take(j + 1).drop_last() =~= votes.take(j as int));
            reveal_with_fuel(Seq::<_>::filter, 1);
        }
        if !contains_key(reps, &x.0) {
            kept.push(x);
        }
        j = j + 1;
    }
    proof {
        assert(votes.take(votes.len() as int) =~= votes);
        lemma_filter_subsequence(votes, |x: (PublicKey, VoteInfo)| !reps@.contains(x.0));
        let f = kept@;
        assert forall|a: int, b: int| 0 <= a < b < f.len() implies f[a].0 != f[b].0 by {
            let (x, y) = choose|x: int, y: int| 0 <= x < y < votes.len() && votes[x] == #[trigger] f[a] && votes[y] == #[trigger] f[b];
        }
    }
    data.last_votes = kept;
}

fn contains_key(keys: &Vec<PublicKey>, k: &PublicKey) -> (r: bool)
    ensures
        r == keys@.contains(*k),
{
    let mut i: usize = 0;
    while i < keys.len()
        invariant
            i <= keys@.len(),
            forall|j: int| 0 <= j < i ==> keys@[j] != *k,
        decreases keys@.len() - i,
    {
        if keys[i].equals(k) {
            assert(keys@[i as int] == *k);
            return true;
        }
        i = i + 1;
    }
    false
}

proof fn lemma_rank_insert_members(r: Seq<(u128, BlockHash)>, amount: u128, h: BlockHash, blocks: Seq<BlockHash>)
    requires
        strictly_descending(r),
        forall|i: int| 0 <= i < r.len() ==> blocks.contains(#[trigger] r[i].1),
        blocks.contains(h),
    ensures
        forall|i: int| 0 <= i < rank_insert(r, amount, h).len() ==> blocks.contains(#[trigger] rank_insert(r, amount, h)[i].1),
{
    lemma_rank_position_exists(r, amount, 0);
    let p = rank_position(r, amount);
    let n = rank_insert(r, amount, h);
    assert forall|i: int| 0 <= i < n.len() implies blocks.contains(#[trigger] n[i].1) by {
        if p < r.len() && r[p].0 == amount {
            if i != p { assert(n[i] == r[i]); }
        } else {
            if i < p { assert(n[i] == r[i]); } else if i > p { assert(n[i] == r[i - 1]); }
        }
    }
}

/// Only candidates are ranked: every block in the ranking is one of the election's blocks,
/// so a winner chosen by counting is always a candidate.
pub proof fn lemma_ranked_blocks_are_candidates(t: Seq<(BlockHash, u128)>, blocks: Seq<BlockHash>)
    ensures
        forall|i: int| 0 <= i < ranking(t, blocks).len() ==> blocks.contains(#[trigger] ranking(t, blocks)[i].1),
    decreases t.len(),
{
    if t.len() > 0 {
        lemma_ranked_blocks_are_candidates(t.drop_last(), blocks);
        lemma_ranking_descending(t.drop_last(), blocks);
        if blocks.contains(t.last().0) {
            lemma_rank_insert_members(ranking(t.drop_last(), blocks), t.last().1, t.last().0, blocks);
        }
    }
}

/// Counting never takes back a confirmation, and a counted election that reaches both a
/// quorum and a final weight of the quorum delta is confirmed.
pub proof fn lemma_counting_keeps_confirmation(
    before: CountState,
    after: CountState,
    r: QuorumOutcome,
    w: Map<PublicKey, u128>,
    quorum_delta: u128,
    voting: bool,
    own_votes: Seq<PublicKey>,
    recent_max: nat,
    qualified_root: QualifiedRoot,
    election_start: u64,
    requests: u32,
    now: u64,
)
    requires
        counted(before, after, r, w, quorum_delta, voting, own_votes, recent_max, qualified_root, election_start, requests, now),
    ensures
        before.state == ElectionState::Confirmed ==> after.state == ElectionState::Confirmed,
        ranking_has_quorum(ranking(tally_entries(before.votes, w), before.blocks), quorum_delta)
            && tallied_final_weight(before.votes, w, before.blocks, before.final_weight) >= quorum_delta
            ==> after.state == ElectionState::Confirmed,
        r.confirmed is Some ==> before.state != ElectionState::Confirmed,
{
}

/// A vote older than the representative's last one is never counted, nor one with the
/// same timestamp for a block not above the last one.
pub proof fn lemma_old_votes_are_replays(
    last: VoteInfo,
    timestamp: u64,
    hash: BlockHash,
    from_cache: bool,
    weight: u128,
    minimum_principal_weight: u128,
    online_stake: u128,
    is_dev_network: bool,
    now: u64,
)
    requires
        is_dev_network || weight > minimum_principal_weight,
        last.timestamp > timestamp || (last.timestamp == timestamp && !last.hash.spec_lt(hash)),
    ensures
        vote_code(Some(last), timestamp, hash, from_cache, weight, minimum_principal_weight, online_stake,
            is_dev_network, now) == VoteCode::Replay,
{
}

/// A final vote that follows a non-final one is counted whatever the cooldown.
pub proof fn lemma_final_votes_skip_cooldown(
    last: VoteInfo,
    hash: BlockHash,
    from_cache: bool,
    weight: u128,
    minimum_principal_weight: u128,
    online_stake: u128,
    is_dev_network: bool,
    now: u64,
)
    requires
        is_dev_network || weight > minimum_principal_weight,
        last.timestamp < FINAL_TIMESTAMP,
    ensures
        vote_code(Some(last), FINAL_TIMESTAMP, hash, from_cache, weight, minimum_principal_weight, online_stake,
            is_dev_network, now) == VoteCode::Vote,
{
}

/// Recording a vote keeps one vote per representative, and the representative's vote is
/// then the new one.
pub proof fn lemma_recorded_vote_replaces(v: Seq<(PublicKey, VoteInfo)>, rep: PublicKey, info: VoteInfo)
    requires
        distinct_voters(v),
    ensures
        distinct_voters(votes_after(v, rep, info)),
        has_vote_by(votes_after(v, rep, info), rep),
        votes_after(v, rep, info)[vote_position(votes_after(v, rep, info), rep)] == (rep, info),
        votes_after(v, rep, info).len() == v.len() + if has_vote_by(v, rep) { 0int } else { 1int },
{
    let n = votes_after(v, rep, info);
    let k = if has_vote_by(v, rep) { vote_position(v, rep) } else { v.len() as int };
    assert(n[k] == (rep, info));
    assert forall|a: int, b: int| 0 <= a < b < n.len() implies n[a].0 != n[b].0 by {
        if has_vote_by(v, rep) {
            assert(v[k].0 == rep);
            assert(n[a].0 == v[a].0 && n[b].0 == v[b].0);
        } else {
            assert(n[a] == v[a]);
            if b < v.len() { assert(n[b] == v[b]); }
        }
    }
    let q = vote_position(n, rep);
    if q != k {
        if q < k { assert(n[q].0 != n[k].0); } else { assert(n[k].0 != n[q].0); }
    }
}

} // verus!
