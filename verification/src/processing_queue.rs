//! The queue of a batch processor: bounded enqueueing and batch selection.

use vstd::prelude::*;
use std::collections::VecDeque;

verus! {

/// What a processing thread does next.
pub enum QueueStep<T> {
    /// Processing stopped: the thread ends.
    Stop,
    /// Nothing is queued: the thread waits to be woken.
    Wait,
    /// The thread processes this batch.
    Process(VecDeque<T>),
}

/// The items waiting to be processed in batches, and whether processing stopped.
pub struct SharedState<T> {
    queue: VecDeque<T>,
    stopped: bool,
    max_batch_size: usize,
}

impl<T> SharedState<T> {
    pub closed spec fn queue(&self) -> Seq<T> {
        self.queue@
    }

    pub closed spec fn is_stopped(&self) -> bool {
        self.stopped
    }

    pub closed spec fn max_batch_size(&self) -> nat {
        self.max_batch_size as nat
    }

    /// `max_batch_size` is the largest batch handed out; 0 for unlimited.
    pub fn new(max_batch_size: usize) -> (r: Self)
        ensures
            r.queue().len() == 0,
            !r.is_stopped(),
            r.max_batch_size() == max_batch_size,
    {
        SharedState { queue: VecDeque::new(), stopped: false, max_batch_size }
    }

    /// Queues the item unless `max_queue_size` items are already waiting.
    /// Returns whether it was queued.
    pub fn add(&mut self, item: T, max_queue_size: usize) -> (r: bool)
        ensures
            r == (old(self).queue().len() < max_queue_size),
            r ==> final(self).queue() == old(self).queue().push(item),
            !r ==> final(self).queue() == old(self).queue(),
            final(self).is_stopped() == old(self).is_stopped(),
            final(self).max_batch_size() == old(self).max_batch_size(),
    {
        if self.queue.len() < max_queue_size {
            self.queue.push_back(item);
            true
        } else {
            false
        }
    }

    pub fn len(&self) -> (r: usize)
        ensures
            r == self.queue().len(),
    {
        self.queue.len()
    }

    pub fn stopped(&self) -> (r: bool)
        ensures
            r == self.is_stopped(),
    {
        self.stopped
    }

    pub fn stop(&mut self)
        ensures
            final(self).is_stopped(),
            final(self).queue() == old(self).queue(),
            final(self).max_batch_size() == old(self).max_batch_size(),
    {
        self.stopped = true;
    }

    /// Takes the next batch: nothing once stopped; the whole queue when the batch size is
    /// unlimited or the queue is shorter than it; else the oldest `max_batch_size` items.
    pub fn next_batch(&mut self) -> (r: VecDeque<T>)
        ensures
            final(self).is_stopped() == old(self).is_stopped(),
            final(self).max_batch_size() == old(self).max_batch_size(),
            old(self).is_stopped() ==> r@.len() == 0 && final(self).queue() == old(self).queue(),
            !old(self).is_stopped() && (old(self).max_batch_size() == 0 || old(self).queue().len() < old(self).max_batch_size())
                ==> r@ == old(self).queue() && final(self).queue().len() == 0,
            !old(self).is_stopped() && old(self).max_batch_size() != 0 && old(self).queue().len() >= old(self).max_batch_size()
                ==> r@ == old(self).queue().take(old(self).max_batch_size() as int)
                    && final(self).queue() == old(self).queue().skip(old(self).max_batch_size() as int),
    {
        if self.stopped {
            VecDeque::new()
        } else if self.max_batch_size == 0 || self.queue.len() < self.max_batch_size {
            let mut batch: VecDeque<T> = VecDeque::new();
            std::mem::swap(&mut batch, &mut self.queue);
            batch
        } else {
            let ghost q = self.queue@;
            let mut batch: VecDeque<T> = VecDeque::new();
            let mut i: usize = 0;
            while i < self.max_batch_size
                invariant
                    i <= self.max_batch_size <= q.len(),
                    self.stopped == old(self).stopped,
                    self.max_batch_size == old(self).max_batch_size,
                    batch@ =~= q.take(i as int),
                    self.queue@ =~= q.skip(i as int),
                decreases self.max_batch_size - i,
            {
                match self.queue.pop_front() {
                    Some(item) => {
                        batch.push_back(item);
                    },
                    None => {},
                }
                i = i + 1;
            }
            batch
        }
    }

    /// The next step of a processing thread: stop once processing stopped, wait while
    /// nothing is queued, else take the next batch (see `next_batch`).
    pub fn step(&mut self) -> (r: QueueStep<T>)
        ensures
            final(self).is_stopped() == old(self).is_stopped(),
            final(self).max_batch_size() == old(self).max_batch_size(),
            old(self).is_stopped() ==> r is Stop && final(self).queue() == old(self).queue(),
            !old(self).is_stopped() && old(self).queue().len() == 0 ==> r is Wait && final(self).queue() == old(self).queue(),
            !old(self).is_stopped() && old(self).queue().len() > 0 ==> match r {
                QueueStep::Process(b) => {
                    if old(self).max_batch_size() == 0 || old(self).queue().len() < old(self).max_batch_size() {
                        b@ == old(self).queue() && final(self).queue().len() == 0
                    } else {
                        b@ == old(self).queue().take(old(self).max_batch_size() as int)
                            && final(self).queue() == old(self).queue().skip(old(self).max_batch_size() as int)
                    }
                },
                _ => false,
            },
    {
        if self.stopped {
            QueueStep::Stop
        } else if self.queue.len() == 0 {
            QueueStep::Wait
        } else {
            QueueStep::Process(self.next_batch())
        }
    }
}

/// Batches never exceed the maximum batch size (when it is limited), and no item is lost:
/// the batch followed by what remains is the queue as it was.
pub proof fn lemma_batch_partitions_queue<T>(q: Seq<T>, max_batch_size: nat)
    requires
        max_batch_size > 0,
        q.len() >= max_batch_size,
    ensures
        q.take(max_batch_size as int).len() == max_batch_size,
        q.take(max_batch_size as int) + q.skip(max_batch_size as int) == q,
{
    assert(q.take(max_batch_size as int) + q.skip(max_batch_size as int) =~= q);
}

} // verus!
