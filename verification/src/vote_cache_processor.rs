//! Blocks whose cached votes should be replayed: a bounded queue of triggered hashes,
//! taken out in batches without repeats.

use vstd::prelude::*;
use crate::bootstrap_lazy::distinct;
use crate::numbers::BlockHash;

verus! {

/// The hashes of `s` without repeats, each where it first occurs.
pub open spec fn first_occurrences(s: Seq<BlockHash>) -> Seq<BlockHash>
    decreases s.len(),
{
    if s.len() == 0 {
        Seq::empty()
    } else {
        let prev = first_occurrences(s.drop_last());
        if prev.contains(s.last()) { prev } else { prev.push(s.last()) }
    }
}

/// The queue after triggering `hash`: when more than `max_triggered` hashes wait, the
/// oldest leaves first.
pub open spec fn after_trigger(queue: Seq<BlockHash>, max_triggered: usize, hash: BlockHash) -> Seq<BlockHash> {
    (if queue.len() > max_triggered { queue.skip(1) } else { queue }).push(hash)
}

/// The triggered hashes, oldest first.
pub struct TriggerQueue {
    triggered: Vec<BlockHash>,
    max_triggered: usize,
}

impl TriggerQueue {
    pub closed spec fn triggered(&self) -> Seq<BlockHash> { self.triggered@ }
    pub closed spec fn max_triggered(&self) -> usize { self.max_triggered }

    pub fn new(max_triggered: usize) -> (r: Self)
        ensures
            r.triggered().len() == 0,
            r.max_triggered() == max_triggered,
    {
        TriggerQueue { triggered: Vec::new(), max_triggered }
    }

    /// Queues `hash`, dropping the oldest hash when more than the maximum wait. Returns
    /// whether one was dropped.
    pub fn trigger(&mut self, hash: BlockHash) -> (overfill: bool)
        requires
            old(self).triggered().len() < usize::MAX,
        ensures
            overfill == (old(self).triggered().len() > old(self).max_triggered()),
            final(self).triggered() == after_trigger(old(self).triggered(), old(self).max_triggered(), hash),
            final(self).max_triggered() == old(self).max_triggered(),
    {
        let overfill = self.triggered.len() > self.max_triggered;
        if overfill {
            self.triggered.remove(0);
        }
        self.triggered.push(hash);
        proof {
            assert(self.triggered@ =~= after_trigger(old(self).triggered(), old(self).max_triggered(), hash));
        }
        overfill
    }

    pub fn len(&self) -> (r: usize)
        ensures
            r == self.triggered().len(),
    {
        self.triggered.len()
    }

    /// Takes all queued hashes out, without repeats, in the order they were first queued.
    pub fn take_batch(&mut self) -> (r: Vec<BlockHash>)
        ensures
            r@ == first_occurrences(old(self).triggered()),
            final(self).triggered().len() == 0,
            final(self).max_triggered() == old(self).max_triggered(),
    {
        let mut triggered: Vec<BlockHash> = Vec::new();
        std::mem::swap(&mut triggered, &mut self.triggered);
        let mut result: Vec<BlockHash> = Vec::new();
        let mut i: usize = 0;
        while i < triggered.len()
            invariant
                i <= triggered@.len(),
                result@ == first_occurrences(triggered@.take(i as int)),
            decreases triggered@.len() - i,
        {
            let h = triggered[i];
            let mut seen = false;
            let mut j: usize = 0;
            while j < result.len()
                invariant
                    j <= result@.len(),
                    seen == result@.take(j as int).contains(h),
                decreases result@.len() - j,
            {
                if result[j].equals(&h) {
                    seen = true;
                }
                proof {
                    let t0 = result@.take(j as int);
                    let t1 = result@.take(j + 1);
                    assert(t1 =~= t0.push(result@[j as int]));
                    if t1.contains(h) {
                        let k = choose|k: int| 0 <= k < t1.len() && t1[k] == h;
                        if k < j {
                            assert(t0[k] == h);
                        }
                    }
                    if t0.contains(h) {
                        let k = choose|k: int| 0 <= k < t0.len() && t0[k] == h;
                        assert(t1[k] == h);
                    }
                    if result@[j as int] == h {
                        assert(t1[j as int] == h);
                    }
                }
                j = j + 1;
            }
            proof {
                assert(result@.take(result@.len() as int) =~= result@);
                assert(triggered@.take(i + 1).drop_last() =~= triggered@.take(i as int));
            }
            if !seen {
                result.push(h);
            }
            i = i + 1;
        }
        assert(triggered@.take(triggered@.len() as int) =~= triggered@);
        result
    }
}

/// A batch holds each triggered hash once: no repeats, and exactly the hashes that were
/// queued.
pub proof fn lemma_batch_has_each_hash_once(s: Seq<BlockHash>)
    ensures
        distinct(first_occurrences(s)),
        forall|h: BlockHash| first_occurrences(s).contains(h) <==> s.contains(h),
    decreases s.len(),
{
    if s.len() > 0 {
        let prev = first_occurrences(s.drop_last());
        lemma_batch_has_each_hash_once(s.drop_last());
        let d = s.drop_last();
        let l = s.last();
        let fs = first_occurrences(s);
        assert forall|h: BlockHash| fs.contains(h) <==> s.contains(h) by {
            if s.contains(h) {
                let k = choose|k: int| 0 <= k < s.len() && s[k] == h;
                if k < s.len() - 1 {
                    assert(d[k] == h);
                }
            }
            if d.contains(h) {
                let k = choose|k: int| 0 <= k < d.len() && d[k] == h;
                assert(s[k] == h);
            }
            assert(s[s.len() - 1] == l);
            if !prev.contains(l) {
                assert(fs[prev.len() as int] == l);
                if fs.contains(h) {
                    let k = choose|k: int| 0 <= k < fs.len() && fs[k] == h;
                    if k < prev.len() {
                        assert(prev[k] == h);
                    }
                }
                if prev.contains(h) {
                    let k = choose|k: int| 0 <= k < prev.len() && prev[k] == h;
                    assert(fs[k] == h);
                }
            }
        }
        if !prev.contains(s.last()) {
            let q = prev.push(s.last());
            assert forall|i: int, j: int| 0 <= i < j < q.len() implies q[i] != q[j] by {
                if j == prev.len() {
                    assert(prev[i] == q[i]);
                }
            }
        }
    }
}

} // verus!
