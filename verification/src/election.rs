//! The life cycle of an election.

use vstd::prelude::*;
use crate::numbers::{BlockHash, Hash256, PublicKey, QualifiedRoot, Root};
use crate::seqs::lemma_filter_subsequence;

verus! {

/// The state of an election.
#[derive(Clone, Copy, Debug, PartialEq, Eq, Structural)]
pub enum ElectionState {
    /// Only listening for incoming votes.
    Passive,
    /// Actively requesting confirmations.
    Active,
    /// Confirmed but still listening for votes.
    Confirmed,
    ExpiredConfirmed,
    ExpiredUnconfirmed,
    Cancelled,
}

impl ElectionState {
    pub open spec fn spec_is_confirmed(self) -> bool {
        self == ElectionState::Confirmed || self == ElectionState::ExpiredConfirmed
    }

    pub fn is_confirmed(&self) -> (r: bool)
        ensures
            r == self.spec_is_confirmed(),
    {
        match self {
            ElectionState::Confirmed | ElectionState::ExpiredConfirmed => true,
            _ => false,
        }
    }
}

/// Why an election was started.
#[derive(Clone, Copy, Debug, PartialEq, Eq, Structural)]
pub enum ElectionBehavior {
    Manual,
    Priority,
    /// Shorter timespan, limited space inside the active elections container.
    Hinted,
    /// Shorter timespan, limited space, more frequent confirmation requests.
    Optimistic,
}

/// Whether an election may move from `expected` to `desired`.
pub open spec fn spec_valid_change(expected: ElectionState, desired: ElectionState) -> bool {
    match expected {
        ElectionState::Passive => desired == ElectionState::Active || desired == ElectionState::Confirmed
            || desired == ElectionState::ExpiredUnconfirmed || desired == ElectionState::Cancelled,
        ElectionState::Active => desired == ElectionState::Confirmed
            || desired == ElectionState::ExpiredUnconfirmed || desired == ElectionState::Cancelled,
        ElectionState::Confirmed => desired == ElectionState::ExpiredConfirmed,
        _ => false,
    }
}

pub fn valid_change(expected: ElectionState, desired: ElectionState) -> (r: bool)
    ensures
        r == spec_valid_change(expected, desired),
{
    match expected {
        ElectionState::Passive => match desired {
            ElectionState::Active | ElectionState::Confirmed | ElectionState::ExpiredUnconfirmed
            | ElectionState::Cancelled => true,
            _ => false,
        },
        ElectionState::Active => match desired {
            ElectionState::Confirmed | ElectionState::ExpiredUnconfirmed | ElectionState::Cancelled => true,
            _ => false,
        },
        ElectionState::Confirmed => match desired {
            ElectionState::ExpiredConfirmed => true,
            _ => false,
        },
        _ => false,
    }
}

/// Milliseconds reported for an event that never happened (one year).
pub const NEVER_ELAPSED_MS: u64 = 365 * 24 * 60 * 60 * 1000;

/// How long an election of the given behavior may run, in milliseconds.
pub open spec fn spec_time_to_live(behavior: ElectionBehavior) -> u64 {
    match behavior {
        ElectionBehavior::Manual | ElectionBehavior::Priority => 300_000u64,
        ElectionBehavior::Hinted | ElectionBehavior::Optimistic => 30_000u64,
    }
}

pub fn time_to_live(behavior: ElectionBehavior) -> (r: u64)
    ensures
        r == spec_time_to_live(behavior),
{
    match behavior {
        ElectionBehavior::Manual | ElectionBehavior::Priority => 5 * 60 * 1000,
        ElectionBehavior::Hinted | ElectionBehavior::Optimistic => 30 * 1000,
    }
}

/// Milliseconds from `then` to `now`, zero if `now` is earlier.
pub open spec fn spec_elapsed(then: u64, now: u64) -> u64 {
    if now >= then { (now - then) as u64 } else { 0 }
}

pub fn elapsed(then: u64, now: u64) -> (r: u64)
    ensures
        r == spec_elapsed(then, now),
{
    if now >= then { now - then } else { 0 }
}

/// How an election ended, or that it is still going on.
#[derive(Clone, Copy, Debug, PartialEq, Eq, Structural)]
pub enum ElectionStatusType {
    Ongoing,
    ActiveConfirmedQuorum,
    ActiveConfirmationHeight,
    InactiveConfirmationHeight,
    Stopped,
}

/// The outcome of an election as reported to observers (times in milliseconds).
#[derive(Clone, Copy, Debug, PartialEq, Eq)]
pub struct ElectionStatus {
    pub winner: Option<BlockHash>,
    pub tally: u128,
    pub final_tally: u128,
    pub election_end: u64,
    pub election_duration: u64,
    pub confirmation_request_count: u32,
    pub block_count: u32,
    pub voter_count: u32,
    pub election_status_type: ElectionStatusType,
}

/// A representative's latest vote in an election: when it arrived, its timestamp and
/// the block it voted for.
#[derive(Clone, Copy, Debug, PartialEq, Eq, Structural)]
pub struct VoteInfo {
    pub time: u64,
    pub timestamp: u64,
    pub hash: BlockHash,
}

impl VoteInfo {
    pub fn new(timestamp: u64, hash: BlockHash, now: u64) -> (r: Self)
        ensures
            r == (VoteInfo { time: now, timestamp, hash }),
    {
        VoteInfo { time: now, timestamp, hash }
    }
}

pub open spec fn has_vote_by(v: Seq<(PublicKey, VoteInfo)>, rep: PublicKey) -> bool {
    exists|i: int| 0 <= i < v.len() && v[i].0 == rep
}

pub open spec fn vote_position(v: Seq<(PublicKey, VoteInfo)>, rep: PublicKey) -> int {
    choose|i: int| 0 <= i < v.len() && v[i].0 == rep
}

pub open spec fn distinct_voters(v: Seq<(PublicKey, VoteInfo)>) -> bool {
    forall|i: int, j: int| 0 <= i < j < v.len() ==> v[i].0 != v[j].0
}

pub open spec fn distinct_blocks(b: Seq<BlockHash>) -> bool {
    forall|i: int, j: int| 0 <= i < j < b.len() ==> b[i] != b[j]
}

/// A candidate other than the winner can be removed.
pub open spec fn block_removable(blocks: Seq<BlockHash>, winner: Option<BlockHash>, h: BlockHash) -> bool {
    winner != Some(h) && blocks.contains(h)
}

/// The candidates after removing `h`, if it can be removed.
pub open spec fn blocks_after_removal(blocks: Seq<BlockHash>, winner: Option<BlockHash>, h: BlockHash) -> Seq<BlockHash> {
    if block_removable(blocks, winner, h) { blocks.remove(blocks.index_of(h)) } else { blocks }
}

/// The votes after removing `h`, if it can be removed: the votes for it go too.
pub open spec fn votes_after_removal(
    votes: Seq<(PublicKey, VoteInfo)>,
    blocks: Seq<BlockHash>,
    winner: Option<BlockHash>,
    h: BlockHash,
) -> Seq<(PublicKey, VoteInfo)> {
    if block_removable(blocks, winner, h) { votes.filter(|v: (PublicKey, VoteInfo)| v.1.hash != h) } else { votes }
}

/// The mutable part of an election (times in milliseconds).
pub struct ElectionData {
    pub status: ElectionStatus,
    pub state: ElectionState,
    pub state_start: u64,
    /// The candidate blocks, each once.
    pub last_blocks: Vec<BlockHash>,
    /// The latest vote of each representative, each once.
    pub last_votes: Vec<(PublicKey, VoteInfo)>,
    pub final_weight: u128,
    /// The tally of each voted block at the last count.
    pub last_tally: Vec<(BlockHash, u128)>,
    /// When this node last generated a vote for the election.
    pub last_vote: Option<u64>,
    /// The winner last broadcast, zero before the first broadcast.
    pub last_block_hash: BlockHash,
}

impl ElectionData {
    /// Each block and each voter is held once, and a winner is set.
    pub open spec fn wf(&self) -> bool {
        &&& distinct_blocks(self.last_blocks@)
        &&& distinct_voters(self.last_votes@)
        &&& self.status.winner.is_some()
    }

    /// The data of a new election for `block`: passive, the block its only candidate and
    /// winner, and a placeholder vote under a key that is no account.
    pub fn new(block: BlockHash, not_an_account_key: PublicKey, now: u64) -> (r: Self)
        ensures
            r.wf(),
            r.state == ElectionState::Passive,
            r.state_start == now,
            r.last_vote.is_none(),
            r.final_weight == 0,
            r.status == (ElectionStatus {
                winner: Some(block),
                tally: 0,
                final_tally: 0,
                election_end: now,
                election_duration: 0,
                confirmation_request_count: 0,
                block_count: 1,
                voter_count: 0,
                election_status_type: ElectionStatusType::Ongoing,
            }),
            r.last_blocks@ == seq![block],
            r.last_votes@ == seq![(not_an_account_key, VoteInfo { time: now, timestamp: 0, hash: block })],
            r.last_tally@.len() == 0,
            r.last_block_hash == (Hash256 { hi: 0, lo: 0 }),
    {
        let mut last_blocks = Vec::new();
        last_blocks.push(block);
        let mut last_votes = Vec::new();
        last_votes.push((not_an_account_key, VoteInfo::new(0, block, now)));
        ElectionData {
            status: ElectionStatus {
                winner: Some(block),
                tally: 0,
                final_tally: 0,
                election_end: now,
                election_duration: 0,
                confirmation_request_count: 0,
                block_count: 1,
                voter_count: 0,
                election_status_type: ElectionStatusType::Ongoing,
            },
            state: ElectionState::Passive,
            state_start: now,
            last_blocks,
            last_votes,
            final_weight: 0,
            last_tally: Vec::new(),
            last_vote: None,
            last_block_hash: Hash256::zero(),
        }
    }

    pub fn is_confirmed(&self) -> (r: bool)
        ensures
            r == self.state.spec_is_confirmed(),
    {
        self.state.is_confirmed()
    }

    /// The hash of the current winner.
    pub fn winner_hash(&self) -> (r: Option<BlockHash>)
        ensures
            r == self.status.winner,
    {
        self.status.winner
    }

    /// Whether the block is a candidate.
    pub fn contains(&self, hash: &BlockHash) -> (r: bool)
        ensures
            r == self.last_blocks@.contains(*hash),
    {
        self.block_position(hash).is_some()
    }

    /// The position of the block among the candidates.
    pub fn block_position(&self, hash: &BlockHash) -> (r: Option<usize>)
        ensures
            match r {
                Some(i) => i < self.last_blocks@.len() && self.last_blocks@[i as int] == *hash,
                None => !self.last_blocks@.contains(*hash),
            },
    {
        let mut i: usize = 0;
        while i < self.last_blocks.len()
            invariant
                i <= self.last_blocks@.len(),
                forall|j: int| 0 <= j < i ==> self.last_blocks@[j] != *hash,
            decreases self.last_blocks@.len() - i,
        {
            if self.last_blocks[i].equals(hash) {
                return Some(i);
            }
            i = i + 1;
        }
        None
    }

    /// The position of the representative's vote, if it voted.
    pub fn find_vote(&self, rep: &PublicKey) -> (r: Option<usize>)
        requires
            self.wf(),
        ensures
            match r {
                Some(i) => i < self.last_votes@.len() && self.last_votes@[i as int].0 == *rep
                    && has_vote_by(self.last_votes@, *rep) && vote_position(self.last_votes@, *rep) == i,
                None => !has_vote_by(self.last_votes@, *rep),
            },
    {
        let mut i: usize = 0;
        while i < self.last_votes.len()
            invariant
                distinct_voters(self.last_votes@),
                i <= self.last_votes@.len(),
                forall|j: int| 0 <= j < i ==> (#[trigger] self.last_votes@[j]).0 != *rep,
            decreases self.last_votes@.len() - i,
        {
            if self.last_votes[i].0.equals(rep) {
                proof {
                    let v = self.last_votes@;
                    let q = vote_position(v, *rep);
                    if q != i as int {
                        if q < i { assert(v[q].0 != v[i as int].0); } else { assert(v[i as int].0 != v[q].0); }
                    }
                }
                return Some(i);
            }
            i = i + 1;
        }
        None
    }

    /// The number of representatives with a vote.
    pub fn vote_count(&self) -> (r: usize)
        ensures
            r == self.last_votes@.len(),
    {
        self.last_votes.len()
    }

    /// Moves from `expected` to `desired` at time `now`. Succeeds exactly when the move is
    /// valid and the election is in the expected state; otherwise nothing changes.
    pub fn state_change(&mut self, expected: ElectionState, desired: ElectionState, now: u64) -> (r: Result<(), ()>)
        ensures
            r.is_ok() == (spec_valid_change(expected, desired) && old(self).state == expected),
            r.is_ok() ==> final(self).state == desired && final(self).state_start == now,
            r.is_err() ==> final(self).state == old(self).state && final(self).state_start == old(self).state_start,
            final(self).same_contents(*old(self)),
    {
        if valid_change(expected, desired) {
            if self.state == expected {
                self.state = desired;
                self.state_start = now;
                return Ok(());
            }
        }
        Err(())
    }

    /// Everything but the state and its start time is the same.
    pub open spec fn same_contents(self, other: Self) -> bool {
        &&& self.status == other.status
        &&& self.same_votes(other)
    }

    /// Everything but the votes is the same.
    pub open spec fn same_contents_but_votes(self, other: Self) -> bool {
        &&& self.status == other.status
        &&& self.state == other.state
        &&& self.state_start == other.state_start
        &&& self.last_blocks@ == other.last_blocks@
        &&& self.final_weight == other.final_weight
        &&& self.last_tally@ == other.last_tally@
        &&& self.last_vote == other.last_vote
        &&& self.last_block_hash == other.last_block_hash
    }

    /// The candidates, votes, tallies and vote and broadcast records are the same.
    pub open spec fn same_votes(self, other: Self) -> bool {
        &&& self.last_blocks@ == other.last_blocks@
        &&& self.last_votes@ == other.last_votes@
        &&& self.final_weight == other.final_weight
        &&& self.last_tally@ == other.last_tally@
        &&& self.last_vote == other.last_vote
        &&& self.last_block_hash == other.last_block_hash
    }

    pub fn set_last_vote(&mut self, now: u64)
        ensures
            final(self).last_vote == Some(now),
            final(self).state == old(self).state,
            final(self).state_start == old(self).state_start,
            final(self).status == old(self).status,
            final(self).last_blocks@ == old(self).last_blocks@,
            final(self).last_votes@ == old(self).last_votes@,
            final(self).final_weight == old(self).final_weight,
            final(self).last_tally@ == old(self).last_tally@,
            final(self).last_block_hash == old(self).last_block_hash,
    {
        self.last_vote = Some(now);
    }

    /// Milliseconds since the last generated vote; a year if there was none.
    pub fn last_vote_elapsed(&self, now: u64) -> (r: u64)
        ensures
            r == match self.last_vote {
                Some(t) => spec_elapsed(t, now),
                None => NEVER_ELAPSED_MS,
            },
    {
        match self.last_vote {
            Some(t) => elapsed(t, now),
            None => NEVER_ELAPSED_MS,
        }
    }

    /// Fills in the final figures of a confirmed election: when it ended, how long it
    /// took, how many confirmation requests were sent, and how many blocks and voters
    /// it saw (counts kept to their low 32 bits).
    pub fn update_status_to_confirmed(&mut self, election_start: u64, confirmation_request_count: u32, now: u64)
        ensures
            final(self).status == (ElectionStatus {
                election_end: now,
                election_duration: spec_elapsed(election_start, now),
                confirmation_request_count,
                block_count: (old(self).last_blocks@.len() % 0x1_0000_0000) as u32,
                voter_count: (old(self).last_votes@.len() % 0x1_0000_0000) as u32,
                ..old(self).status
            }),
            final(self).state == old(self).state,
            final(self).state_start == old(self).state_start,
            final(self).last_blocks@ == old(self).last_blocks@,
            final(self).last_votes@ == old(self).last_votes@,
            final(self).final_weight == old(self).final_weight,
            final(self).last_tally@ == old(self).last_tally@,
            final(self).last_vote == old(self).last_vote,
            final(self).last_block_hash == old(self).last_block_hash,
    {
        self.status.election_end = now;
        self.status.election_duration = elapsed(election_start, now);
        self.status.confirmation_request_count = confirmation_request_count;
        self.status.block_count = (self.last_blocks.len() as u64 % 0x1_0000_0000) as u32;
        self.status.voter_count = (self.last_votes.len() as u64 % 0x1_0000_0000) as u32;
    }

    /// Drops a candidate that is not the winner, with the votes for it. Returns whether
    /// a block was dropped.
    pub fn remove_block(&mut self, hash: &BlockHash) -> (r: bool)
        requires
            old(self).wf(),
        ensures
            final(self).wf(),
            r == block_removable(old(self).last_blocks@, old(self).status.winner, *hash),
            final(self).last_blocks@ == blocks_after_removal(old(self).last_blocks@, old(self).status.winner, *hash),
            final(self).last_votes@ == votes_after_removal(old(self).last_votes@, old(self).last_blocks@,
                old(self).status.winner, *hash),
            final(self).status == old(self).status,
            final(self).state == old(self).state,
            final(self).state_start == old(self).state_start,
            final(self).final_weight == old(self).final_weight,
            final(self).last_tally@ == old(self).last_tally@,
            final(self).last_vote == old(self).last_vote,
            final(self).last_block_hash == old(self).last_block_hash,
    {
        match self.status.winner {
            Some(w) => {
                if w.equals(hash) {
                    return false;
                }
            },
            None => {},
        }
        let i = match self.block_position(hash) {
            Some(i) => i,
            None => { return false; },
        };
        let ghost blocks = self.last_blocks@;
        proof {
            assert(blocks[i as int] == *hash);
            let k = blocks.index_of(*hash);
            assert(0 <= k < blocks.len() && blocks[k] == *hash);
            if k < i { assert(blocks[k] != blocks[i as int]); }
            if k > i { assert(blocks[i as int] != blocks[k]); }
        }
        self.last_blocks.remove(i);
        proof {
            let after = self.last_blocks@;
            assert forall|a: int, b: int| 0 <= a < b < after.len() implies after[a] != after[b] by {
                let a2 = if a < i { a } else { a + 1 };
                let b2 = if b < i { b } else { b + 1 };
                assert(after[a] == blocks[a2] && after[b] == blocks[b2]);
            }
        }
        let ghost votes = self.last_votes@;
        let mut kept: Vec<(PublicKey, VoteInfo)> = Vec::new();
        let mut j: usize = 0;
        while j < self.last_votes.len()
            invariant
                self.last_votes@ == votes,
                distinct_voters(votes),
                j <= votes.len(),
                kept@ == votes.take(j as int).filter(|v: (PublicKey, VoteInfo)| v.1.hash != *hash),
            decreases votes.len() - j,
        {
            let v = self.last_votes[j];
            proof {
                assert(votes.take(j + 1).drop_last() =~= votes.take(j as int));
                reveal_with_fuel(Seq::<_>::filter, 1);
            }
            if !v.1.hash.equals(hash) {
                kept.push(v);
            }
            j = j + 1;
        }
        proof {
            assert(votes.take(votes.len() as int) =~= votes);
            let pred = |v: (PublicKey, VoteInfo)| v.1.hash != *hash;
            lemma_filter_subsequence(votes, pred);
            let f = kept@;
            assert forall|a: int, b: int| 0 <= a < b < f.len() implies f[a].0 != f[b].0 by {
                let (x, y) = choose|x: int, y: int| 0 <= x < y < votes.len() && votes[x] == #[trigger] f[a] && votes[y] == #[trigger] f[b];
            }
        }
        self.last_votes = kept;
        true
    }
}

/// The block an election is started for, as plain values.
#[derive(Clone, Copy, Debug, PartialEq, Eq, Structural)]
pub struct ElectionBlock {
    pub hash: BlockHash,
    pub qualified_root: QualifiedRoot,
    pub height: u64,
}

/// An election between the blocks that share a root (times in milliseconds).
pub struct Election {
    pub id: usize,
    pub data: ElectionData,
    pub root: Root,
    pub qualified_root: QualifiedRoot,
    pub is_quorum: bool,
    pub confirmation_request_count: u32,
    /// When the winner was last broadcast.
    pub last_block: u64,
    pub last_req: Option<u64>,
    pub behavior: ElectionBehavior,
    pub election_start: u64,
    pub height: u64,
}

impl Election {
    /// Everything but the data and the quorum flag is the same.
    pub open spec fn same_frame(self, other: Self) -> bool {
        &&& self.id == other.id
        &&& self.root == other.root
        &&& self.qualified_root == other.qualified_root
        &&& self.confirmation_request_count == other.confirmation_request_count
        &&& self.last_block == other.last_block
        &&& self.last_req == other.last_req
        &&& self.behavior == other.behavior
        &&& self.election_start == other.election_start
        &&& self.height == other.height
    }

    /// A new passive election for the block, started at `now`.
    pub fn new(id: usize, block: ElectionBlock, behavior: ElectionBehavior, not_an_account_key: PublicKey, now: u64) -> (r: Self)
        ensures
            r.id == id,
            r.root == block.qualified_root.root,
            r.qualified_root == block.qualified_root,
            r.height == block.height,
            r.behavior == behavior,
            !r.is_quorum,
            r.confirmation_request_count == 0,
            r.last_block == now,
            r.last_req.is_none(),
            r.election_start == now,
            r.data.wf(),
            r.data.state == ElectionState::Passive,
            r.data.state_start == now,
            r.data.status.winner == Some(block.hash),
            r.data.last_blocks@ == seq![block.hash],
            r.data.last_votes@ == seq![(not_an_account_key, VoteInfo { time: now, timestamp: 0, hash: block.hash })],
    {
        Election {
            id,
            data: ElectionData::new(block.hash, not_an_account_key, now),
            root: block.qualified_root.root,
            qualified_root: block.qualified_root,
            is_quorum: false,
            confirmation_request_count: 0,
            last_block: now,
            last_req: None,
            behavior,
            election_start: now,
            height: block.height,
        }
    }

    /// How long the election has been running.
    pub fn duration(&self, now: u64) -> (r: u64)
        ensures
            r == spec_elapsed(self.election_start, now),
    {
        elapsed(self.election_start, now)
    }

    pub fn state(&self) -> (r: ElectionState)
        ensures
            r == self.data.state,
    {
        self.data.state
    }

    /// Turns a passive election active; any other election is left as it is.
    pub fn transition_active(&mut self, now: u64)
        ensures
            old(self).data.state == ElectionState::Passive ==> final(self).data.state == ElectionState::Active
                && final(self).data.state_start == now,
            old(self).data.state != ElectionState::Passive ==> final(self).data.state == old(self).data.state
                && final(self).data.state_start == old(self).data.state_start,
            final(self).data.same_contents(old(self).data),
    {
        let _ = self.data.state_change(ElectionState::Passive, ElectionState::Active, now);
    }

    /// Cancels a passive or active election; a finished or confirmed one stays as it is.
    pub fn cancel(&mut self, now: u64)
        ensures
            spec_valid_change(old(self).data.state, ElectionState::Cancelled) ==> final(self).data.state
                == ElectionState::Cancelled && final(self).data.state_start == now,
            !spec_valid_change(old(self).data.state, ElectionState::Cancelled) ==> final(self).data.state
                == old(self).data.state && final(self).data.state_start == old(self).data.state_start,
            final(self).data.same_contents(old(self).data),
    {
        let current = self.data.state;
        let _ = self.data.state_change(current, ElectionState::Cancelled, now);
    }

    pub fn set_last_req(&mut self, now: u64)
        ensures
            final(self).last_req == Some(now),
            final(self).data == old(self).data,
            final(self).last_block == old(self).last_block,
            final(self).confirmation_request_count == old(self).confirmation_request_count,
            final(self).is_quorum == old(self).is_quorum,
    {
        self.last_req = Some(now);
    }

    /// Milliseconds since the last confirmation request; a year if there was none.
    pub fn last_req_elapsed(&self, now: u64) -> (r: u64)
        ensures
            r == match self.last_req {
                Some(t) => spec_elapsed(t, now),
                None => NEVER_ELAPSED_MS,
            },
    {
        match self.last_req {
            Some(t) => elapsed(t, now),
            None => NEVER_ELAPSED_MS,
        }
    }

    pub fn set_last_block(&mut self, now: u64)
        ensures
            final(self).last_block == now,
            final(self).last_req == old(self).last_req,
            final(self).data == old(self).data,
            final(self).confirmation_request_count == old(self).confirmation_request_count,
            final(self).is_quorum == old(self).is_quorum,
    {
        self.last_block = now;
    }

    /// Milliseconds since the winner was last broadcast.
    pub fn last_block_elapsed(&self, now: u64) -> (r: u64)
        ensures
            r == spec_elapsed(self.last_block, now),
    {
        elapsed(self.last_block, now)
    }

    /// How long the election has been in its current state.
    pub fn age(&self, now: u64) -> (r: u64)
        ensures
            r == spec_elapsed(self.data.state_start, now),
    {
        elapsed(self.data.state_start, now)
    }

    /// Whether the election expired unconfirmed.
    pub fn failed(&self) -> (r: bool)
        ensures
            r == (self.data.state == ElectionState::ExpiredUnconfirmed),
    {
        match self.data.state {
            ElectionState::ExpiredUnconfirmed => true,
            _ => false,
        }
    }

    pub fn time_to_live(&self) -> (r: u64)
        ensures
            r == spec_time_to_live(self.behavior),
    {
        time_to_live(self.behavior)
    }

    pub fn contains(&self, hash: &BlockHash) -> (r: bool)
        ensures
            r == self.data.last_blocks@.contains(*hash),
    {
        self.data.contains(hash)
    }

    pub fn vote_count(&self) -> (r: usize)
        ensures
            r == self.data.last_votes@.len(),
    {
        self.data.vote_count()
    }

    pub fn winner_hash(&self) -> (r: Option<BlockHash>)
        ensures
            r == self.data.status.winner,
    {
        self.data.winner_hash()
    }
}

/// Finished elections never change state again: no move out of a cancelled or expired
/// state is valid.
pub proof fn lemma_final_states_are_terminal(s: ElectionState, d: ElectionState)
    requires
        s == ElectionState::Cancelled || s == ElectionState::ExpiredConfirmed || s == ElectionState::ExpiredUnconfirmed,
    ensures
        !spec_valid_change(s, d),
{
}

/// A confirmed election stays confirmed: every valid move out of a confirmed state leads
/// to a confirmed state.
pub proof fn lemma_confirmation_is_kept(s: ElectionState, d: ElectionState)
    requires
        s.spec_is_confirmed(),
        spec_valid_change(s, d),
    ensures
        d.spec_is_confirmed(),
{
}

/// Valid moves never return to an earlier stage: the stages passive, active, confirmed
/// and finished only advance.
pub open spec fn stage(s: ElectionState) -> int {
    match s {
        ElectionState::Passive => 0,
        ElectionState::Active => 1,
        ElectionState::Confirmed => 2,
        _ => 3,
    }
}

pub proof fn lemma_changes_advance(s: ElectionState, d: ElectionState)
    requires
        spec_valid_change(s, d),
    ensures
        stage(s) < stage(d),
{
}

} // verus!
