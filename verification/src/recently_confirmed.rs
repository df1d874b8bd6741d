//! A bounded record of recently confirmed elections.

use vstd::prelude::*;
use std::collections::VecDeque;
use crate::numbers::{BlockHash, QualifiedRoot};

verus! {

/// Neither a root nor a hash occurs twice.
pub open spec fn unique_pairs(s: Seq<(QualifiedRoot, BlockHash)>) -> bool {
    forall|i: int, j: int| 0 <= i < j < s.len() ==> s[i].0 != s[j].0 && s[i].1 != s[j].1
}

pub open spec fn has_root(s: Seq<(QualifiedRoot, BlockHash)>, root: QualifiedRoot) -> bool {
    exists|i: int| 0 <= i < s.len() && s[i].0 == root
}

pub open spec fn has_hash(s: Seq<(QualifiedRoot, BlockHash)>, hash: BlockHash) -> bool {
    exists|i: int| 0 <= i < s.len() && s[i].1 == hash
}

pub open spec fn hash_position(s: Seq<(QualifiedRoot, BlockHash)>, hash: BlockHash) -> int {
    choose|i: int| 0 <= i < s.len() && s[i].1 == hash
}

/// The confirmations after recording (root, hash): unchanged if either is known, else
/// appended, the oldest evicted once more than `max_len` are held.
pub open spec fn after_put(s: Seq<(QualifiedRoot, BlockHash)>, max_len: nat, root: QualifiedRoot, hash: BlockHash) -> Seq<(QualifiedRoot, BlockHash)> {
    if has_root(s, root) || has_hash(s, hash) {
        s
    } else if s.len() + 1 > max_len {
        s.push((root, hash)).drop_first()
    } else {
        s.push((root, hash))
    }
}

/// Remembers the most recently confirmed elections (root and winning hash), oldest first,
/// up to a maximum number.
pub struct RecentlyConfirmedCache {
    sequential: VecDeque<(QualifiedRoot, BlockHash)>,
    max_len: usize,
}

impl RecentlyConfirmedCache {
    /// The remembered confirmations, oldest first.
    pub closed spec fn entries(&self) -> Seq<(QualifiedRoot, BlockHash)> {
        self.sequential@
    }

    pub closed spec fn max_len(&self) -> nat {
        self.max_len as nat
    }

    /// No root or hash is remembered twice, and at most `max_len` confirmations are held.
    pub open spec fn wf(&self) -> bool {
        &&& unique_pairs(self.entries())
        &&& self.entries().len() <= self.max_len()
    }

    pub fn new(max_len: usize) -> (r: Self)
        ensures
            r.wf(),
            r.entries() == Seq::<(QualifiedRoot, BlockHash)>::empty(),
            r.max_len() == max_len,
    {
        RecentlyConfirmedCache { sequential: VecDeque::new(), max_len }
    }

    fn find(&self, root: Option<&QualifiedRoot>, hash: Option<&BlockHash>) -> (r: Option<usize>)
        requires
            self.wf(),
        ensures
            match r {
                Some(i) => i < self.entries().len() && (
                    (root matches Some(q) && self.entries()[i as int].0 == *q)
                    || (hash matches Some(h) && self.entries()[i as int].1 == *h)),
                None => (root matches Some(q) ==> !has_root(self.entries(), *q))
                    && (hash matches Some(h) ==> !has_hash(self.entries(), *h)),
            },
    {
        let mut i: usize = 0;
        while i < self.sequential.len()
            invariant
                i <= self.sequential@.len(),
                forall|j: int| #![trigger self.sequential@[j]] 0 <= j < i ==> (root matches Some(q) ==> self.sequential@[j].0 != *q)
                    && (hash matches Some(h) ==> self.sequential@[j].1 != *h),
            decreases self.sequential@.len() - i,
        {
            let (q, h) = self.sequential[i];
            let root_match = match root {
                Some(r) => q.equals(r),
                None => false,
            };
            let hash_match = match hash {
                Some(x) => h.equals(x),
                None => false,
            };
            if root_match || hash_match {
                return Some(i);
            }
            i = i + 1;
        }
        None
    }

    /// Records a confirmation. Returns false, changing nothing, if the root or the hash is
    /// already known. Evicts the oldest confirmation once more than `max_len` are held.
    pub fn put(&mut self, root: QualifiedRoot, hash: BlockHash) -> (r: bool)
        requires
            old(self).wf(),
        ensures
            final(self).wf(),
            final(self).max_len() == old(self).max_len(),
            r == !(has_root(old(self).entries(), root) || has_hash(old(self).entries(), hash)),
            final(self).entries() == after_put(old(self).entries(), old(self).max_len(), root, hash),
            !r ==> final(self).entries() == old(self).entries(),
            r ==> final(self).entries() == (if old(self).entries().len() + 1 > old(self).max_len() {
                old(self).entries().push((root, hash)).drop_first()
            } else {
                old(self).entries().push((root, hash))
            }),
    {
        if self.find(Some(&root), Some(&hash)).is_some() {
            return false;
        }
        let ghost before = self.sequential@;
        self.sequential.push_back((root, hash));
        assert(unique_pairs(self.sequential@)) by {
            assert forall|i: int, j: int| 0 <= i < j < self.sequential@.len()
                implies self.sequential@[i].0 != self.sequential@[j].0 && self.sequential@[i].1 != self.sequential@[j].1 by {
                if j == before.len() {
                    assert(self.sequential@[i] == before[i]);
                }
            }
        }
        if self.sequential.len() > self.max_len {
            let ghost pushed = self.sequential@;
            self.sequential.pop_front();
            assert(self.sequential@ =~= pushed.drop_first());
        }
        true
    }

    /// Forgets the confirmation of the hash, if there is one.
    pub fn erase(&mut self, hash: &BlockHash)
        requires
            old(self).wf(),
        ensures
            final(self).wf(),
            final(self).max_len() == old(self).max_len(),
            has_hash(old(self).entries(), *hash) ==> final(self).entries()
                == old(self).entries().remove(hash_position(old(self).entries(), *hash)),
            !has_hash(old(self).entries(), *hash) ==> final(self).entries() == old(self).entries(),
    {
        let ghost before = self.sequential@;
        match self.find(None, Some(hash)) {
            Some(i) => {
                proof {
                    let k = hash_position(before, *hash);
                    assert(has_hash(before, *hash));
                    assert(k == i as int) by {
                        if k != i as int {
                            if k < i as int {
                                assert(before[k].1 != before[i as int].1);
                            } else {
                                assert(before[i as int].1 != before[k].1);
                            }
                        }
                    }
                }
                self.sequential.remove(i);
                assert forall|a: int, b: int| 0 <= a < b < self.sequential@.len()
                    implies self.sequential@[a].0 != self.sequential@[b].0 && self.sequential@[a].1 != self.sequential@[b].1 by {
                    let a2 = if a < i { a } else { a + 1 };
                    let b2 = if b < i { b } else { b + 1 };
                    assert(self.sequential@[a] == before[a2] && self.sequential@[b] == before[b2]);
                }
            },
            None => {},
        }
    }

    pub fn root_exists(&self, root: &QualifiedRoot) -> (r: bool)
        requires
            self.wf(),
        ensures
            r == has_root(self.entries(), *root),
    {
        self.find(Some(root), None).is_some()
    }

    pub fn hash_exists(&self, hash: &BlockHash) -> (r: bool)
        requires
            self.wf(),
        ensures
            r == has_hash(self.entries(), *hash),
    {
        self.find(None, Some(hash)).is_some()
    }

    pub fn clear(&mut self)
        requires
            old(self).wf(),
        ensures
            final(self).wf(),
            final(self).entries().len() == 0,
            final(self).max_len() == old(self).max_len(),
    {
        self.sequential.clear();
    }

    pub fn len(&self) -> (r: usize)
        ensures
            r == self.entries().len(),
    {
        self.sequential.len()
    }

    /// The most recent confirmation.
    pub fn back(&self) -> (r: Option<(QualifiedRoot, BlockHash)>)
        ensures
            self.entries().len() == 0 ==> r.is_none(),
            self.entries().len() > 0 ==> r == Some(self.entries().last()),
    {
        let n = self.sequential.len();
        if n == 0 {
            None
        } else {
            Some(self.sequential[n - 1])
        }
    }
}

/// After a successful `put`, the root and the hash are known (when the cache holds any entry).
pub proof fn lemma_put_then_exists(s: Seq<(QualifiedRoot, BlockHash)>, root: QualifiedRoot, hash: BlockHash, max_len: nat)
    requires
        max_len > 0,
    ensures
        ({
            let t = if s.len() + 1 > max_len { s.push((root, hash)).drop_first() } else { s.push((root, hash)) };
            has_root(t, root) && has_hash(t, hash)
        }),
{
    let p = s.push((root, hash));
    if s.len() + 1 > max_len {
        assert(p.drop_first()[s.len() - 1] == (root, hash));
    } else {
        assert(p[s.len() as int] == (root, hash));
    }
}

/// After `erase`, the hash is no longer known.
pub proof fn lemma_erase_then_absent(s: Seq<(QualifiedRoot, BlockHash)>, hash: BlockHash)
    requires
        unique_pairs(s),
        has_hash(s, hash),
    ensures
        !has_hash(s.remove(hash_position(s, hash)), hash),
{
    let k = hash_position(s, hash);
    let r = s.remove(k);
    if has_hash(r, hash) {
        let j = choose|j: int| 0 <= j < r.len() && r[j].1 == hash;
        if j < k {
            assert(r[j] == s[j]);
        } else {
            assert(r[j] == s[j + 1]);
        }
    }
}

} // verus!
