//! Bulk push: walking back along block ranges handed out by the bootstrap attempt and
//! pushing the blocks one at a time, newest first.

use vstd::prelude::*;
use crate::bootstrap_lazy::{find_key, keys_distinct};
use crate::numbers::{BlockHash, Hash256};
use crate::request_aggregator::lookup;

verus! {

/// What the next push does.
#[derive(Clone, Copy, Debug, PartialEq, Eq, Structural)]
pub enum PushStep {
    /// Push the block with this hash.
    Block(BlockHash),
    /// No range is left: send the end marker.
    Finished,
}

/// A range is used up when its start is zero or reached its end.
pub open spec fn needs_target(current: (BlockHash, BlockHash)) -> bool {
    current.0.is_zero_spec() || current.0 == current.1
}

/// The search for the next block to push, from range `current`, taking new ranges from
/// `targets` in order; `ledger` maps each known block to its previous block. Gives the
/// step, the range afterwards (starting at the pushed block's previous block) and how many
/// ranges were taken.
pub open spec fn push_search(
    current: (BlockHash, BlockHash),
    targets: Seq<(BlockHash, BlockHash)>,
    ledger: Seq<(BlockHash, BlockHash)>,
) -> (PushStep, (BlockHash, BlockHash), nat)
    decreases targets.len(), if needs_target(current) { 0int } else { 1int },
{
    if needs_target(current) && targets.len() == 0 {
        (PushStep::Finished, current, 0)
    } else {
        let taken: nat = if needs_target(current) { 1 } else { 0 };
        let range = if needs_target(current) { targets[0] } else { current };
        let rest = if needs_target(current) { targets.skip(1) } else { targets };
        match lookup(ledger, range.0) {
            Some(previous) => (PushStep::Block(range.0), (previous, range.1), taken),
            None => {
                let (step, after, more) = push_search((Hash256 { hi: 0, lo: 0 }, range.1), rest, ledger);
                (step, after, taken + more)
            },
        }
    }
}

/// The bulk push client's position: the range of blocks it is pushing, from its start
/// back to its end.
pub struct BulkPushClient {
    current_target: (BlockHash, BlockHash),
    result: Option<bool>,
}

impl BulkPushClient {
    pub closed spec fn current_target(&self) -> (BlockHash, BlockHash) { self.current_target }
    pub closed spec fn result(&self) -> Option<bool> { self.result }

    pub fn new() -> (r: Self)
        ensures
            r.current_target() == (Hash256 { hi: 0, lo: 0 }, Hash256 { hi: 0, lo: 0 }),
            r.result() is None,
    {
        BulkPushClient { current_target: (Hash256::zero(), Hash256::zero()), result: None }
    }

    /// The outcome, once set: whether the push failed.
    pub fn get_result(&self) -> (r: Option<bool>)
        ensures
            r == self.result(),
    {
        self.result
    }

    pub fn set_result(&mut self, failed: bool)
        ensures
            final(self).result() == Some(failed),
            final(self).current_target() == old(self).current_target(),
    {
        self.result = Some(failed);
    }

    /// Finds the next block to push: when the current range is used up, takes the next
    /// range from the front of `targets`; a range whose start is not in the ledger is
    /// dropped. A found block is pushed and the range goes on from its previous block.
    pub fn push(&mut self, targets: &mut Vec<(BlockHash, BlockHash)>, ledger: &Vec<(BlockHash, BlockHash)>) -> (r: PushStep)
        requires
            keys_distinct(ledger@),
        ensures
            ({
                let (step, after, taken) = push_search(old(self).current_target(), old(targets)@, ledger@);
                &&& r == step
                &&& final(self).current_target() == after
                &&& taken <= old(targets)@.len()
                &&& final(targets)@ == old(targets)@.skip(taken as int)
            }),
            final(self).result() == old(self).result(),
    {
        let ghost t0 = targets@;
        loop
            invariant
                keys_distinct(ledger@),
                t0 == old(targets)@,
                self.result == old(self).result,
                ({
                    let (step, after, taken) = push_search(self.current_target, targets@, ledger@);
                    let (step0, after0, taken0) = push_search(old(self).current_target, t0, ledger@);
                    &&& t0.len() >= targets@.len()
                    &&& step == step0
                    &&& after == after0
                    &&& taken0 == (t0.len() - targets@.len()) + taken
                    &&& targets@ == t0.skip(t0.len() - targets@.len())
                }),
            decreases targets@.len(), if needs_target(self.current_target) { 0int } else { 1int },
        {
            let ghost before = targets@;
            let needs = self.current_target.0.is_zero() || self.current_target.0.equals(&self.current_target.1);
            if needs {
                if targets.len() == 0 {
                    return PushStep::Finished;
                }
                self.current_target = targets.remove(0);
                proof {
                    assert(targets@ =~= before.skip(1));
                    assert(t0.skip(t0.len() - targets@.len()) =~= before.skip(1));
                }
            }
            match find_key(ledger, &self.current_target.0) {
                Some(i) => {
                    let previous = ledger[i].1;
                    let block = self.current_target.0;
                    self.current_target = (previous, self.current_target.1);
                    return PushStep::Block(block);
                },
                None => {
                    self.current_target = (Hash256::zero(), self.current_target.1);
                },
            }
        }
    }
}

} // verus!
