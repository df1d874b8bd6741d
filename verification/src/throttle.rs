//! Sample tracker that signals when the ascending bootstrapper should slow down.

use vstd::prelude::*;
use std::collections::VecDeque;

verus! {

/// Number of `true` samples in a sequence.
pub open spec fn count_true(s: Seq<bool>) -> nat
    decreases s.len(),
{
    if s.len() == 0 {
        0
    } else {
        (if s[0] { 1nat } else { 0nat }) + count_true(s.drop_first())
    }
}

/// Appending a sample adds one to the count exactly when the sample is `true`.
pub proof fn lemma_count_true_push(s: Seq<bool>, b: bool)
    ensures
        count_true(s.push(b)) == count_true(s) + (if b { 1nat } else { 0nat }),
    decreases s.len(),
{
    if s.len() == 0 {
        assert(s.push(b).drop_first() =~= Seq::<bool>::empty());
        assert(count_true(Seq::<bool>::empty()) == 0);
        assert(s.push(b)[0] == b);
    } else {
        assert(s.push(b).drop_first() =~= s.drop_first().push(b));
        lemma_count_true_push(s.drop_first(), b);
    }
}

/// The count never exceeds the length.
pub proof fn lemma_count_true_le_len(s: Seq<bool>)
    ensures
        count_true(s) <= s.len(),
    decreases s.len(),
{
    if s.len() > 0 {
        lemma_count_true_le_len(s.drop_first());
    }
}

/// A sequence of `n` copies of `true` counts `n`.
pub proof fn lemma_count_true_all(s: Seq<bool>)
    requires
        forall|i: int| 0 <= i < s.len() ==> s[i],
    ensures
        count_true(s) == s.len(),
    decreases s.len(),
{
    if s.len() > 0 {
        lemma_count_true_all(s.drop_first());
    }
}

/// The tracked samples after one sample is added: the oldest goes, the new one is the newest.
pub open spec fn after_add(s: Seq<bool>, sample: bool) -> Seq<bool> {
    s.drop_first().push(sample)
}

/// The tracked samples after each of `samples` is added in turn.
pub open spec fn after_adds(s: Seq<bool>, samples: Seq<bool>) -> Seq<bool>
    decreases samples.len(),
{
    if samples.len() == 0 {
        s
    } else {
        after_adds(after_add(s, samples[0]), samples.drop_first())
    }
}

/// Adding samples keeps the number tracked, and the tracked samples are the most recent
/// ones: the last `s.len()` of the old samples followed by the added ones.
pub proof fn lemma_after_adds_window(s: Seq<bool>, samples: Seq<bool>)
    requires
        s.len() > 0,
    ensures
        after_adds(s, samples) == (s + samples).subrange(samples.len() as int, (s.len() + samples.len()) as int),
    decreases samples.len(),
{
    if samples.len() == 0 {
        assert((s + samples).subrange(0, s.len() as int) =~= s);
    } else {
        let next = after_add(s, samples[0]);
        let rest = samples.drop_first();
        assert(next =~= (s + samples).subrange(1, (s.len() + 1) as int));
        lemma_after_adds_window(next, rest);
        assert((next + rest) =~= (s + samples).subrange(1, (s.len() + samples.len()) as int));
        assert((next + rest).subrange(rest.len() as int, (next.len() + rest.len()) as int)
            =~= (s + samples).subrange(samples.len() as int, (s.len() + samples.len()) as int));
    }
}

/// As many failed samples in a row as the throttle tracks throttle it: afterwards no
/// tracked sample succeeded.
pub proof fn lemma_failures_throttle(s: Seq<bool>, samples: Seq<bool>)
    requires
        s.len() > 0,
        samples.len() >= s.len(),
        forall|i: int| 0 <= i < samples.len() ==> !samples[i],
    ensures
        count_true(after_adds(s, samples)) == 0,
        after_adds(s, samples).len() == s.len(),
{
    lemma_after_adds_window(s, samples);
    let w = after_adds(s, samples);
    assert forall|i: int| 0 <= i < w.len() implies !w[i] by {
        assert(w[i] == (s + samples)[samples.len() + i]);
        assert((s + samples)[samples.len() + i] == samples[samples.len() + i - s.len()]);
    }
    lemma_throttled_iff_all_failed(w);
}

/// A successful sample lifts the throttle: right after it, a tracked sample succeeded.
pub proof fn lemma_success_unthrottles(s: Seq<bool>)
    requires
        s.len() > 0,
    ensures
        count_true(after_add(s, true)) > 0,
{
    lemma_count_true_push(s.drop_first(), true);
}

/// Used to throttle the ascending bootstrapper once it reaches a steady state.
/// Tracks sample results and signals throttling if no tracked sample got results.
pub struct Throttle {
    /// Sample results, oldest first. True when something was retrieved.
    samples: VecDeque<bool>,
    successes: usize,
}

impl Throttle {
    /// The tracked samples, oldest first.
    pub closed spec fn samples(&self) -> Seq<bool> {
        self.samples@
    }

    /// The number of tracked samples that were successful.
    pub closed spec fn spec_successes(&self) -> nat {
        self.successes as nat
    }

    /// The successes counter agrees with the samples: it is the number of `true` samples.
    pub open spec fn wf(&self) -> bool {
        self.spec_successes() == count_true(self.samples())
    }

    pub fn new(size: usize) -> (t: Self)
        requires
            size > 0,
        ensures
            t.wf(),
            t.samples() =~= Seq::new(size as nat, |i: int| true),
            t.spec_successes() == size,
    {
        let mut samples: VecDeque<bool> = VecDeque::new();
        let mut i: usize = 0;
        while i < size
            invariant
                i <= size,
                samples@ =~= Seq::new(i as nat, |j: int| true),
            decreases size - i,
        {
            samples.push_back(true);
            i = i + 1;
        }
        proof {
            lemma_count_true_all(samples@);
        }
        Throttle { samples, successes: size }
    }

    /// True when none of the tracked samples was successful.
    pub fn throttled(&self) -> (r: bool)
        requires
            self.wf(),
        ensures
            r == (count_true(self.samples()) == 0),
            r == (self.spec_successes() == 0),
    {
        self.successes == 0
    }

    /// Drops the oldest sample and records a new one.
    pub fn add(&mut self, sample: bool)
        requires
            old(self).wf(),
        ensures
            final(self).wf(),
            final(self).samples() =~= (if old(self).samples().len() == 0 {
                old(self).samples()
            } else {
                old(self).samples().drop_first()
            }).push(sample),
            final(self).spec_successes() + (if old(self).samples().len() > 0 && old(self).samples()[0] { 1int } else { 0int })
                == old(self).spec_successes() + (if sample { 1int } else { 0int }),
            old(self).samples().len() > 0 ==> final(self).samples() == after_add(old(self).samples(), sample),
    {
        self.pop();
        proof {
            lemma_count_true_push(self.samples@, sample);
            lemma_count_true_le_len(self.samples@.push(sample));
        }
        self.samples.push_back(sample);
        let _n = self.samples.len();
        if sample {
            self.successes = self.successes + 1;
        }
    }

    /// Resizes the number of samples tracked.
    /// Drops the oldest samples if the size decreases,
    /// adds false samples if the size increases.
    pub fn resize(&mut self, size: usize)
        requires
            old(self).wf(),
            size > 0,
        ensures
            final(self).wf(),
            final(self).samples().len() == size,
            old(self).samples().len() >= size ==> final(self).samples() =~= old(self).samples().subrange(
                old(self).samples().len() - size,
                old(self).samples().len() as int,
            ),
            old(self).samples().len() < size ==> final(self).samples() =~= old(self).samples()
                + Seq::new((size - old(self).samples().len()) as nat, |i: int| false),
            old(self).samples().len() <= size ==> final(self).spec_successes() == old(self).spec_successes(),
    {
        let ghost orig = self.samples@;
        while self.samples.len() > size
            invariant
                self.wf(),
                size > 0,
                orig.len() > size ==> size <= self.samples@.len() <= orig.len()
                    && self.samples@ =~= orig.subrange(orig.len() - self.samples@.len(), orig.len() as int),
                orig.len() <= size ==> self.samples@ == orig,
            decreases self.samples@.len(),
        {
            self.pop();
        }
        let ghost mid = self.samples@;
        let ghost mid_successes = self.spec_successes();
        while self.samples.len() < size
            invariant
                self.wf(),
                self.spec_successes() == mid_successes,
                mid.len() <= self.samples@.len() <= size || (mid.len() > size && self.samples@ == mid),
                mid.len() <= size ==> self.samples@ =~= mid + Seq::new((self.samples@.len() - mid.len()) as nat, |i: int| false),
            decreases size - self.samples@.len(),
        {
            proof {
                lemma_count_true_push(self.samples@, false);
            }
            self.samples.push_back(false);
        }
    }

    /// The number of successes lies between zero and the number of tracked samples.
    pub proof fn lemma_successes_within(&self)
        requires
            self.wf(),
        ensures
            self.spec_successes() <= self.samples().len(),
    {
        lemma_count_true_le_len(self.samples());
    }

    pub fn len(&self) -> (r: usize)
        ensures
            r == self.samples().len(),
    {
        self.samples.len()
    }

    pub fn successes(&self) -> (r: usize)
        requires
            self.wf(),
        ensures
            r == self.spec_successes(),
            r == count_true(self.samples()),
    {
        self.successes
    }

    fn pop(&mut self)
        requires
            old(self).wf(),
        ensures
            final(self).wf(),
            old(self).samples().len() == 0 ==> final(self).samples() == old(self).samples(),
            old(self).samples().len() > 0 ==> final(self).samples() =~= old(self).samples().drop_first(),
            final(self).spec_successes() + (if old(self).samples().len() > 0 && old(self).samples()[0] { 1int } else { 0int })
                == old(self).spec_successes(),
    {
        if let Some(sample) = self.samples.pop_front() {
            if sample {
                self.successes = self.successes - 1;
            }
        }
    }
}

/// Throttling is signalled exactly when every tracked sample failed.
pub proof fn lemma_throttled_iff_all_failed(s: Seq<bool>)
    ensures
        (count_true(s) == 0) <==> (forall|i: int| 0 <= i < s.len() ==> !s[i]),
    decreases s.len(),
{
    if s.len() > 0 {
        lemma_throttled_iff_all_failed(s.drop_first());
        if count_true(s) == 0 {
            assert forall|i: int| 0 <= i < s.len() implies !s[i] by {
                if i > 0 {
                    assert(s[i] == s.drop_first()[i - 1]);
                }
            }
        }
        if forall|i: int| 0 <= i < s.len() ==> !s[i] {
            assert forall|i: int| 0 <= i < s.drop_first().len() implies !s.drop_first()[i] by {
                assert(s.drop_first()[i] == s[i + 1]);
            }
        }
    }
}

} // verus!
