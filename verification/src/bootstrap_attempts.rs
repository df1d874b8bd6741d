//! Container for the bootstrap sessions that are active.

use vstd::prelude::*;
use std::collections::HashMap;

verus! {

broadcast use vstd::std_specs::hash::group_hash_axioms;

/// Container for bootstrap sessions that are active, keyed by their incremental id.
pub struct BootstrapAttempts<T> {
    incremental: usize,
    attempts: HashMap<usize, T>,
}

impl<T> BootstrapAttempts<T> {
    /// The active attempts by id.
    pub closed spec fn attempts(&self) -> Map<usize, T> {
        self.attempts@
    }

    /// The number of ids handed out so far.
    pub closed spec fn incremental(&self) -> nat {
        self.incremental as nat
    }

    /// Only finitely many attempts are ever held.
    pub proof fn lemma_finite(&self)
        ensures
            self.attempts().dom().finite(),
    {
        assert(self.attempts.view().dom().finite());
    }

    pub fn new() -> (r: Self)
        ensures
            r.attempts() == Map::<usize, T>::empty(),
            r.attempts().len() == 0,
            r.incremental() == 0,
    {
        BootstrapAttempts { incremental: 0, attempts: HashMap::new() }
    }

    /// Hands out the next id; ids are handed out in order from 0.
    pub fn get_incremental_id(&mut self) -> (id: usize)
        requires
            old(self).incremental() < usize::MAX,
        ensures
            id == old(self).incremental(),
            final(self).incremental() == old(self).incremental() + 1,
            final(self).attempts() == old(self).attempts(),
    {
        let id = self.incremental;
        self.incremental = self.incremental + 1;
        id
    }

    /// Registers an attempt under its incremental id, replacing any attempt with that id.
    pub fn add(&mut self, incremental_id: usize, attempt: T)
        ensures
            final(self).attempts() == old(self).attempts().insert(incremental_id, attempt),
            final(self).attempts().dom().finite(),
            final(self).attempts().len() == old(self).attempts().len()
                + (if old(self).attempts().contains_key(incremental_id) { 0int } else { 1int }),
            final(self).incremental() == old(self).incremental(),
    {
        proof {
            self.lemma_finite();
        }
        self.attempts.insert(incremental_id, attempt);
        proof {
            self.lemma_finite();
        }
    }

    pub fn remove(&mut self, incremental_id: usize)
        ensures
            final(self).attempts() == old(self).attempts().remove(incremental_id),
            final(self).attempts().dom().finite(),
            final(self).attempts().len() == old(self).attempts().len()
                - (if old(self).attempts().contains_key(incremental_id) { 1int } else { 0int }),
            final(self).incremental() == old(self).incremental(),
    {
        proof {
            self.lemma_finite();
        }
        self.attempts.remove(&incremental_id);
        proof {
            self.lemma_finite();
        }
    }

    pub fn clear(&mut self)
        ensures
            final(self).attempts() == Map::<usize, T>::empty(),
            final(self).incremental() == old(self).incremental(),
    {
        self.attempts.clear();
    }

    pub fn find(&self, incremental_id: usize) -> (r: Option<&T>)
        ensures
            match r {
                Some(a) => self.attempts().contains_key(incremental_id) && *a == self.attempts()[incremental_id],
                None => !self.attempts().contains_key(incremental_id),
            },
    {
        self.attempts.get(&incremental_id)
    }

    pub fn size(&self) -> (r: usize)
        ensures
            r == self.attempts().len(),
            self.attempts().dom().finite(),
    {
        proof {
            self.lemma_finite();
        }
        self.attempts.len()
    }

    /// The number of ids handed out so far.
    pub fn total_attempts(&self) -> (r: usize)
        ensures
            r == self.incremental(),
    {
        self.incremental
    }
}

/// A lookup after an `add` finds what was added, and a lookup after a
/// `remove` finds nothing.
pub proof fn lemma_add_then_find<T>(m: Map<usize, T>, id: usize, a: T)
    ensures
        m.insert(id, a).contains_key(id),
        m.insert(id, a)[id] == a,
        !m.insert(id, a).remove(id).contains_key(id),
{
}

} // verus!
