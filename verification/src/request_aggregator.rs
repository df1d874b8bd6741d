//! Which blocks a node votes for when asked for votes on (hash, root) pairs: blocks it
//! already cast final votes for, else the requested block, else the block on the
//! requested root; final votes go to confirmed blocks.

use vstd::prelude::*;
use crate::bootstrap_lazy::{find_key, has_key, key_position, keys_distinct, map_insert, map_insert_exec};
use crate::numbers::{Account, BlockHash, Root};

verus! {

/// The value stored under `k`, if any.
pub open spec fn lookup<V>(s: Seq<(BlockHash, V)>, k: BlockHash) -> Option<V> {
    if has_key(s, k) { Some(s[key_position(s, k)].1) } else { None }
}

/// The parts of the ledger the aggregator reads, as plain values.
pub struct AggregatorLedger {
    /// Each block's account and height.
    blocks: Vec<(BlockHash, (Account, u64))>,
    /// Confirmed height of each account that has one.
    confirmed: Vec<(Account, u64)>,
    /// The block following each root (a previous block's hash, or an account for open blocks).
    successors: Vec<(Root, BlockHash)>,
    /// The blocks a final vote was cast for, by root.
    final_votes: Vec<(Root, Vec<BlockHash>)>,
}

impl AggregatorLedger {
    pub closed spec fn blocks(&self) -> Seq<(BlockHash, (Account, u64))> { self.blocks@ }
    pub closed spec fn confirmed(&self) -> Seq<(Account, u64)> { self.confirmed@ }
    pub closed spec fn successors(&self) -> Seq<(Root, BlockHash)> { self.successors@ }
    pub closed spec fn final_votes(&self) -> Seq<(Root, Vec<BlockHash>)> { self.final_votes@ }

    pub closed spec fn wf(&self) -> bool {
        &&& keys_distinct(self.blocks@)
        &&& keys_distinct(self.confirmed@)
        &&& keys_distinct(self.successors@)
        &&& keys_distinct(self.final_votes@)
    }

    pub open spec fn block(&self, h: BlockHash) -> Option<(Account, u64)> { lookup(self.blocks(), h) }

    /// The confirmed height of an account, zero when none is recorded.
    pub open spec fn confirmed_height(&self, a: Account) -> u64 {
        match lookup(self.confirmed(), a) { Some(h) => h, None => 0 }
    }

    pub open spec fn successor(&self, root: Root) -> Option<BlockHash> { lookup(self.successors(), root) }

    /// The blocks a final vote was cast for on a root, none when nothing is recorded.
    pub open spec fn final_votes_on(&self, root: Root) -> Seq<BlockHash> {
        match lookup(self.final_votes(), root) { Some(v) => v@, None => Seq::empty() }
    }

    /// Every recorded successor is a known block.
    pub open spec fn successors_known(&self) -> bool {
        forall|i: int| 0 <= i < self.successors().len() ==> (#[trigger] self.block(self.successors()[i].1)) is Some
    }

    pub fn new() -> (r: Self)
        ensures
            r.wf(),
            r.blocks().len() == 0,
            r.confirmed().len() == 0,
            r.successors().len() == 0,
            r.final_votes().len() == 0,
    {
        AggregatorLedger { blocks: Vec::new(), confirmed: Vec::new(), successors: Vec::new(), final_votes: Vec::new() }
    }

    /// Records a block of `account` at `height`, replacing an earlier record of it.
    pub fn insert_block(&mut self, hash: BlockHash, account: Account, height: u64)
        requires
            old(self).wf(),
        ensures
            final(self).wf(),
            final(self).blocks() == map_insert(old(self).blocks(), hash, (account, height)),
            final(self).confirmed() == old(self).confirmed(),
            final(self).successors() == old(self).successors(),
            final(self).final_votes() == old(self).final_votes(),
    {
        map_insert_exec(&mut self.blocks, hash, (account, height));
    }

    /// Records the confirmed height of an account.
    pub fn set_confirmed_height(&mut self, account: Account, height: u64)
        requires
            old(self).wf(),
        ensures
            final(self).wf(),
            final(self).confirmed() == map_insert(old(self).confirmed(), account, height),
            final(self).blocks() == old(self).blocks(),
            final(self).successors() == old(self).successors(),
            final(self).final_votes() == old(self).final_votes(),
    {
        map_insert_exec(&mut self.confirmed, account, height);
    }

    /// Records the block following `root`.
    pub fn set_successor(&mut self, root: Root, successor: BlockHash)
        requires
            old(self).wf(),
        ensures
            final(self).wf(),
            final(self).successors() == map_insert(old(self).successors(), root, successor),
            final(self).blocks() == old(self).blocks(),
            final(self).confirmed() == old(self).confirmed(),
            final(self).final_votes() == old(self).final_votes(),
    {
        map_insert_exec(&mut self.successors, root, successor);
    }

    /// Records the blocks a final vote was cast for on `root`.
    pub fn set_final_votes(&mut self, root: Root, hashes: Vec<BlockHash>)
        requires
            old(self).wf(),
        ensures
            final(self).wf(),
            final(self).final_votes() == map_insert(old(self).final_votes(), root, hashes),
            final(self).blocks() == old(self).blocks(),
            final(self).confirmed() == old(self).confirmed(),
            final(self).successors() == old(self).successors(),
    {
        map_insert_exec(&mut self.final_votes, root, hashes);
    }

    fn get_block(&self, h: &BlockHash) -> (r: Option<(Account, u64)>)
        requires
            self.wf(),
        ensures
            r == self.block(*h),
    {
        match find_key(&self.blocks, h) {
            Some(i) => Some(self.blocks[i].1),
            None => None,
        }
    }

    fn get_confirmed_height(&self, a: &Account) -> (r: u64)
        requires
            self.wf(),
        ensures
            r == self.confirmed_height(*a),
    {
        match find_key(&self.confirmed, a) {
            Some(i) => self.confirmed[i].1,
            None => 0,
        }
    }

    fn get_successor(&self, root: &Root) -> (r: Option<BlockHash>)
        requires
            self.wf(),
        ensures
            r == self.successor(*root),
    {
        match find_key(&self.successors, root) {
            Some(i) => Some(self.successors[i].1),
            None => None,
        }
    }
}

/// How a request was answered.
#[derive(Clone, Copy, Debug, PartialEq, Eq, Structural)]
pub enum RequestKind {
    /// A block was found and gets a final vote.
    Final,
    /// A block was found and gets no final vote.
    NonFinal,
    /// No block was found.
    Unknown,
}

/// Whether a found block gets a final vote: its account is confirmed up to its height.
pub open spec fn confirmed_block(l: AggregatorLedger, b: (Account, u64)) -> bool {
    l.confirmed_height(b.0) >= b.1
}

/// The block found through the final votes on `root`: the blocks it already pushed (the
/// first of two), the block found (if any), and whether a final vote is due.
pub open spec fn by_final_votes(l: AggregatorLedger, root: Root) -> (Seq<BlockHash>, Option<BlockHash>, bool) {
    let fv = l.final_votes_on(root);
    if fv.len() == 0 {
        (Seq::empty(), None, false)
    } else if l.block(fv[0]) is None {
        (Seq::empty(), None, true)
    } else if fv.len() > 1 {
        (seq![fv[0]], if l.block(fv[1]) is Some { Some(fv[1]) } else { None }, true)
    } else {
        (Seq::empty(), Some(fv[0]), true)
    }
}

/// What answering one (hash, root) request adds to the final votes to generate, and how
/// the request was answered.
pub open spec fn request_answer(l: AggregatorLedger, hash: BlockHash, root: Root) -> (Seq<BlockHash>, RequestKind) {
    let (pushed, found, final_due) = by_final_votes(l, root);
    let (block, final_vote) = if found is Some {
        (found, final_due)
    } else if l.block(hash) is Some {
        (Some(hash), confirmed_block(l, l.block(hash)->0))
    } else if !root.is_zero_spec() && l.successor(root) is Some {
        let s = l.successor(root)->0;
        (Some(s), confirmed_block(l, l.block(s)->0))
    } else {
        (None, final_due)
    };
    match block {
        Some(b) => if final_vote { (pushed.push(b), RequestKind::Final) } else { (pushed, RequestKind::NonFinal) },
        None => (pushed, RequestKind::Unknown),
    }
}

/// The final votes to generate for a list of requests, in order.
pub open spec fn finals_for(l: AggregatorLedger, requests: Seq<(BlockHash, Root)>) -> Seq<BlockHash>
    decreases requests.len(),
{
    if requests.len() == 0 {
        Seq::empty()
    } else {
        let r = requests.last();
        finals_for(l, requests.drop_last()) + request_answer(l, r.0, r.1).0
    }
}

/// How each request of a list was answered, in order.
pub open spec fn kinds_for(l: AggregatorLedger, requests: Seq<(BlockHash, Root)>) -> Seq<RequestKind> {
    requests.map_values(|r: (BlockHash, Root)| request_answer(l, r.0, r.1).1)
}

/// The blocks to vote for.
pub struct AggregateResult {
    /// Blocks to vote for without a final vote.
    pub remaining_normal: Vec<BlockHash>,
    /// Blocks to cast a final vote for.
    pub remaining_final: Vec<BlockHash>,
}

/// Collects the blocks to vote for over one or more lists of requests.
pub struct RequestAggregatorImpl {
    pub to_generate: Vec<BlockHash>,
    pub to_generate_final: Vec<BlockHash>,
    /// How each request was answered, in order.
    pub answers: Vec<RequestKind>,
}

impl RequestAggregatorImpl {
    pub fn new() -> (r: Self)
        ensures
            r.to_generate@.len() == 0,
            r.to_generate_final@.len() == 0,
            r.answers@.len() == 0,
    {
        RequestAggregatorImpl { to_generate: Vec::new(), to_generate_final: Vec::new(), answers: Vec::new() }
    }

    fn answer(ledger: &AggregatorLedger, hash: &BlockHash, root: &Root) -> (r: (Vec<BlockHash>, RequestKind))
        requires
            ledger.wf(),
            ledger.successors_known(),
        ensures
            r.0@ == request_answer(*ledger, *hash, *root).0,
            r.1 == request_answer(*ledger, *hash, *root).1,
    {
        let mut pushed: Vec<BlockHash> = Vec::new();
        let mut final_vote = false;
        let mut block: Option<BlockHash> = None;
        match find_key(&ledger.final_votes, root) {
            Some(i) => {
                let fv = &ledger.final_votes[i].1;
                if fv.len() > 0 {
                    final_vote = true;
                    if ledger.get_block(&fv[0]).is_some() {
                        if fv.len() > 1 {
                            pushed.push(fv[0]);
                            block = if ledger.get_block(&fv[1]).is_some() { Some(fv[1]) } else { None };
                        } else {
                            block = Some(fv[0]);
                        }
                    }
                }
            },
            None => {},
        }
        if block.is_none() {
            match ledger.get_block(hash) {
                Some(b) => {
                    block = Some(*hash);
                    final_vote = ledger.get_confirmed_height(&b.0) >= b.1;
                },
                None => {
                    if !root.is_zero() {
                        match ledger.get_successor(root) {
                            Some(s) => {
                                proof {
                                    let k = key_position(ledger.successors(), *root);
                                    assert(ledger.block(ledger.successors()[k].1) is Some);
                                }
                                let b = ledger.get_block(&s).unwrap();
                                block = Some(s);
                                final_vote = ledger.get_confirmed_height(&b.0) >= b.1;
                            },
                            None => {},
                        }
                    }
                },
            }
        }
        match block {
            Some(b) => {
                if final_vote {
                    pushed.push(b);
                    (pushed, RequestKind::Final)
                } else {
                    (pushed, RequestKind::NonFinal)
                }
            },
            None => (pushed, RequestKind::Unknown),
        }
    }

    /// Answers each (hash, root) request in turn: a block already given a final vote on
    /// the root (when two are recorded, both are voted for), else the requested block,
    /// else the block following the root; a final vote goes to blocks found through final
    /// votes and to blocks their account has confirmed.
    pub fn add_votes(&mut self, ledger: &AggregatorLedger, requests: &Vec<(BlockHash, Root)>)
        requires
            ledger.wf(),
            ledger.successors_known(),
        ensures
            final(self).to_generate@ == old(self).to_generate@,
            final(self).to_generate_final@ == old(self).to_generate_final@ + finals_for(*ledger, requests@),
            final(self).answers@ == old(self).answers@ + kinds_for(*ledger, requests@),
    {
        let ghost f0 = self.to_generate_final@;
        let ghost a0 = self.answers@;
        let mut i: usize = 0;
        while i < requests.len()
            invariant
                ledger.wf(),
                ledger.successors_known(),
                i <= requests@.len(),
                self.to_generate@ == old(self).to_generate@,
                self.to_generate_final@ == f0 + finals_for(*ledger, requests@.take(i as int)),
                self.answers@ == a0 + kinds_for(*ledger, requests@.take(i as int)),
            decreases requests@.len() - i,
        {
            let (hash, root) = requests[i];
            let (pushed, kind) = Self::answer(ledger, &hash, &root);
            let ghost before = self.to_generate_final@;
            let mut j: usize = 0;
            while j < pushed.len()
                invariant
                    j <= pushed@.len(),
                    self.to_generate_final@ == before + pushed@.take(j as int),
                    self.to_generate@ == old(self).to_generate@,
                    self.answers@ == a0 + kinds_for(*ledger, requests@.take(i as int)),
                decreases pushed@.len() - j,
            {
                self.to_generate_final.push(pushed[j]);
                assert(pushed@.take(j + 1) =~= pushed@.take(j as int).push(pushed@[j as int]));
                j = j + 1;
            }
            self.answers.push(kind);
            proof {
                let t = requests@.take(i + 1);
                assert(t.drop_last() =~= requests@.take(i as int));
                assert(pushed@.take(pushed@.len() as int) =~= pushed@);
                assert(kinds_for(*ledger, t) =~= kinds_for(*ledger, requests@.take(i as int)).push(kind));
            }
            i = i + 1;
        }
        assert(requests@.take(requests@.len() as int) =~= requests@);
    }

    pub fn get_result(self) -> (r: AggregateResult)
        ensures
            r.remaining_normal@ == self.to_generate@,
            r.remaining_final@ == self.to_generate_final@,
    {
        AggregateResult { remaining_normal: self.to_generate, remaining_final: self.to_generate_final }
    }
}

} // verus!
