//! Blocks whose dependencies are not yet known, kept until the dependency arrives.

use vstd::prelude::*;
use std::collections::VecDeque;
use crate::numbers::{BlockHash, HashOrAccount, lemma_lt_is_numeric};
use crate::seqs::lemma_filter_subsequence;

verus! {

/// Identifies an unchecked block: the dependency it waits for and its own hash.
/// Ordered by dependency first, then by hash.
#[derive(Clone, Copy, Debug, PartialEq, Eq, Structural, Hash)]
pub struct UncheckedKey {
    pub previous: BlockHash,
    pub hash: BlockHash,
}

impl UncheckedKey {
    pub fn new(previous: BlockHash, hash: BlockHash) -> (r: Self)
        ensures
            r.previous == previous,
            r.hash == hash,
    {
        UncheckedKey { previous, hash }
    }

    pub fn equals(&self, other: &Self) -> (r: bool)
        ensures
            r == (*self == *other),
    {
        self.previous.equals(&other.previous) && self.hash.equals(&other.hash)
    }
}

/// An unchecked block with what is known about it.
pub struct Entry<I> {
    pub key: UncheckedKey,
    pub info: I,
}

impl<I> Entry<I> {
    pub fn new(key: UncheckedKey, info: I) -> (r: Self)
        ensures
            r.key == key,
            r.info == info,
    {
        Entry { key, info }
    }
}

/// No key occurs twice.
pub open spec fn unique_keys<I>(s: Seq<Entry<I>>) -> bool {
    forall|i: int, j: int| 0 <= i < j < s.len() ==> s[i].key != s[j].key
}

pub open spec fn has_key<I>(s: Seq<Entry<I>>, key: UncheckedKey) -> bool {
    exists|i: int| 0 <= i < s.len() && s[i].key == key
}

pub open spec fn key_position<I>(s: Seq<Entry<I>>, key: UncheckedKey) -> int {
    choose|i: int| 0 <= i < s.len() && s[i].key == key
}

/// Entry `i` has the smallest block hash.
pub open spec fn is_least<I>(s: Seq<Entry<I>>, i: int) -> bool {
    &&& 0 <= i < s.len()
    &&& forall|j: int| 0 <= j < s.len() && j != i ==> s[i].key.hash.spec_lt(s[j].key.hash)
}

/// The entries in increasing order of block hash (for entries with distinct hashes).
pub open spec fn by_hash_order<I>(s: Seq<Entry<I>>) -> Seq<Entry<I>>
    decreases s.len(),
{
    if exists|i: int| is_least(s, i) {
        let i = choose|i: int| is_least(s, i);
        seq![s[i]] + by_hash_order(s.remove(i))
    } else {
        Seq::empty()
    }
}

/// The entries waiting for the dependency, in increasing order of block hash.
pub open spec fn dependents<I>(s: Seq<Entry<I>>, dependency: HashOrAccount) -> Seq<Entry<I>> {
    by_hash_order(s.filter(|e: Entry<I>| e.key.previous == dependency))
}

/// The entries that wait for none of the dependencies.
pub open spec fn waiting_for_none<I>(s: Seq<Entry<I>>, dependencies: Seq<HashOrAccount>) -> Seq<Entry<I>> {
    s.filter(|e: Entry<I>| !dependencies.contains(e.key.previous))
}

proof fn lemma_filter_all<A>(s: Seq<A>, p: spec_fn(A) -> bool)
    requires
        forall|x: A| #[trigger] p(x),
    ensures
        s.filter(p) == s,
    decreases s.len(),
{
    reveal(Seq::filter);
    if s.len() > 0 {
        lemma_filter_all(s.drop_last(), p);
        assert(s.drop_last().push(s.last()) =~= s);
    } else {
        assert(s.filter(p) =~= s);
    }
}

proof fn lemma_filter_filter<A>(s: Seq<A>, p: spec_fn(A) -> bool, q: spec_fn(A) -> bool)
    ensures
        s.filter(p).filter(q) == s.filter(|x: A| p(x) && q(x)),
    decreases s.len(),
{
    reveal(Seq::filter);
    if s.len() > 0 {
        lemma_filter_filter(s.drop_last(), p, q);
        if p(s.last()) {
            assert(s.filter(p).drop_last() =~= s.drop_last().filter(p));
            assert(s.filter(p).last() == s.last());
        } else {
            assert(s.filter(p) =~= s.drop_last().filter(p));
        }
    } else {
        assert(s.filter(p) =~= s);
    }
}

/// Releasing one more dependency leaves the entries that waited for none of the earlier
/// ones and not for this one either.
proof fn lemma_waiting_for_none_push<I>(s: Seq<Entry<I>>, dependencies: Seq<HashOrAccount>, d: HashOrAccount)
    ensures
        waiting_for_none(s, dependencies).filter(|e: Entry<I>| e.key.previous != d) == waiting_for_none(s, dependencies.push(d)),
{
    let p = |e: Entry<I>| !dependencies.contains(e.key.previous);
    let q = |e: Entry<I>| e.key.previous != d;
    lemma_filter_filter(s, p, q);
    assert forall|x: HashOrAccount| dependencies.push(d).contains(x) == (dependencies.contains(x) || x == d) by {
        if dependencies.contains(x) {
            let i = choose|i: int| 0 <= i < dependencies.len() && dependencies[i] == x;
            assert(dependencies.push(d)[i] == x);
        }
        if x == d {
            assert(dependencies.push(d)[dependencies.len() as int] == x);
        }
        if dependencies.push(d).contains(x) && x != d {
            let i = choose|i: int| 0 <= i < dependencies.push(d).len() && dependencies.push(d)[i] == x;
            assert(i < dependencies.len());
            assert(dependencies[i] == x);
        }
    }
    assert((|x: Entry<I>| p(x) && q(x)) =~= (|e: Entry<I>| !dependencies.push(d).contains(e.key.previous)));
}

/// No entry that waits for none of the dependencies waits for one of them.
pub proof fn lemma_waiting_for_none_is_free<I>(s: Seq<Entry<I>>, dependencies: Seq<HashOrAccount>)
    ensures
        forall|i: int| 0 <= i < waiting_for_none(s, dependencies).len()
            ==> !dependencies.contains(#[trigger] waiting_for_none(s, dependencies)[i].key.previous),
{
    let p = |e: Entry<I>| !dependencies.contains(e.key.previous);
    assert forall|i: int| 0 <= i < waiting_for_none(s, dependencies).len()
        implies !dependencies.contains(#[trigger] waiting_for_none(s, dependencies)[i].key.previous) by {
        s.lemma_filter_pred(p, i);
    }
}

/// A dependency queued once gets every block that waited for it when the queries
/// started: releasing the earlier dependencies removes none of its blocks.
pub proof fn lemma_released_are_the_dependents<I>(s: Seq<Entry<I>>, earlier: Seq<HashOrAccount>, d: HashOrAccount)
    requires
        !earlier.contains(d),
    ensures
        dependents(waiting_for_none(s, earlier), d) == dependents(s, d),
{
    let p = |e: Entry<I>| !earlier.contains(e.key.previous);
    let q = |e: Entry<I>| e.key.previous == d;
    lemma_filter_filter(s, p, q);
    assert((|x: Entry<I>| p(x) && q(x)) =~= q);
}

/// Unchecked blocks in the order they arrived; each gets an increasing id.
pub struct EntriesContainer<I> {
    next_id: usize,
    ids: Vec<usize>,
    entries: Vec<Entry<I>>,
}

impl<I> EntriesContainer<I> {
    /// The entries, oldest first.
    pub closed spec fn entries(&self) -> Seq<Entry<I>> {
        self.entries@
    }

    /// The ids of the entries, oldest first.
    pub closed spec fn ids(&self) -> Seq<usize> {
        self.ids@
    }

    pub closed spec fn spec_next_id(&self) -> nat {
        self.next_id as nat
    }

    pub closed spec fn wf(&self) -> bool {
        &&& self.ids@.len() == self.entries@.len()
        &&& forall|i: int, j: int| 0 <= i < j < self.ids@.len() ==> self.ids@[i] < self.ids@[j]
        &&& forall|i: int| 0 <= i < self.ids@.len() ==> self.ids@[i] < self.next_id
        &&& unique_keys(self.entries@)
    }

    pub fn new() -> (r: Self)
        ensures
            r.wf(),
            r.entries().len() == 0,
            r.spec_next_id() == 0,
    {
        EntriesContainer { next_id: 0, ids: Vec::new(), entries: Vec::new() }
    }

    pub fn next_id(&self) -> (r: usize)
        ensures
            r == self.spec_next_id(),
    {
        self.next_id
    }

    fn position(&self, key: &UncheckedKey) -> (r: Option<usize>)
        requires
            self.wf(),
        ensures
            match r {
                Some(i) => i < self.entries().len() && self.entries()[i as int].key == *key
                    && key_position(self.entries(), *key) == i,
                None => !has_key(self.entries(), *key),
            },
    {
        let mut i: usize = 0;
        while i < self.entries.len()
            invariant
                i <= self.entries@.len(),
                unique_keys(self.entries@),
                forall|j: int| 0 <= j < i ==> (#[trigger] self.entries@[j]).key != *key,
            decreases self.entries@.len() - i,
        {
            if self.entries[i].key.equals(key) {
                assert(has_key(self.entries@, *key));
                let ghost k = key_position(self.entries@, *key);
                assert(k == i as int) by {
                    if k != i as int && k > i as int {
                        assert(self.entries@[i as int].key != self.entries@[k].key);
                    }
                }
                return Some(i);
            }
            i = i + 1;
        }
        None
    }

    /// Adds the entry under the next id unless its key is already present.
    pub fn insert(&mut self, entry: Entry<I>) -> (r: bool)
        requires
            old(self).wf(),
            old(self).spec_next_id() < usize::MAX,
        ensures
            final(self).wf(),
            r == !has_key(old(self).entries(), entry.key),
            r ==> final(self).entries() == old(self).entries().push(entry)
                && final(self).ids() == old(self).ids().push(old(self).spec_next_id() as usize)
                && final(self).spec_next_id() == old(self).spec_next_id() + 1,
            !r ==> final(self).entries() == old(self).entries() && final(self).ids() == old(self).ids()
                && final(self).spec_next_id() == old(self).spec_next_id(),
    {
        if self.position(&entry.key).is_some() {
            return false;
        }
        let ghost before = self.entries@;
        let ghost before_ids = self.ids@;
        self.ids.push(self.next_id);
        self.entries.push(entry);
        self.next_id = self.next_id + 1;
        assert forall|i: int, j: int| 0 <= i < j < self.entries@.len() implies self.entries@[i].key != self.entries@[j].key by {
            if j == before.len() {
                assert(self.entries@[i] == before[i]);
            }
        }
        assert forall|i: int, j: int| 0 <= i < j < self.ids@.len() implies self.ids@[i] < self.ids@[j] by {
            if j == before_ids.len() {
                assert(self.ids@[i] == before_ids[i]);
            }
        }
        true
    }

    pub fn is_empty(&self) -> (r: bool)
        ensures
            r == (self.entries().len() == 0),
    {
        self.entries.len() == 0
    }

    pub fn len(&self) -> (r: usize)
        requires
            self.wf(),
        ensures
            r == self.entries().len(),
    {
        self.entries.len()
    }

    /// Removes and returns the entry of the key.
    pub fn remove(&mut self, key: &UncheckedKey) -> (r: Option<Entry<I>>)
        requires
            old(self).wf(),
        ensures
            final(self).wf(),
            final(self).spec_next_id() == old(self).spec_next_id(),
            match r {
                Some(e) => has_key(old(self).entries(), *key)
                    && e == old(self).entries()[key_position(old(self).entries(), *key)]
                    && final(self).entries() == old(self).entries().remove(key_position(old(self).entries(), *key))
                    && final(self).ids() == old(self).ids().remove(key_position(old(self).entries(), *key)),
                None => !has_key(old(self).entries(), *key) && final(self).entries() == old(self).entries()
                    && final(self).ids() == old(self).ids(),
            },
    {
        match self.position(key) {
            Some(i) => {
                let ghost before = self.entries@;
                let ghost before_ids = self.ids@;
                self.ids.remove(i);
                let e = self.entries.remove(i);
                assert forall|a: int, b: int| 0 <= a < b < self.entries@.len() implies self.entries@[a].key != self.entries@[b].key by {
                    let a2 = if a < i { a } else { a + 1 };
                    let b2 = if b < i { b } else { b + 1 };
                    assert(self.entries@[a] == before[a2] && self.entries@[b] == before[b2]);
                }
                assert forall|a: int, b: int| 0 <= a < b < self.ids@.len() implies self.ids@[a] < self.ids@[b] by {
                    let a2 = if a < i { a } else { a + 1 };
                    let b2 = if b < i { b } else { b + 1 };
                    assert(self.ids@[a] == before_ids[a2] && self.ids@[b] == before_ids[b2]);
                }
                assert forall|a: int| 0 <= a < self.ids@.len() implies self.ids@[a] < self.next_id by {
                    let a2 = if a < i { a } else { a + 1 };
                    assert(self.ids@[a] == before_ids[a2]);
                }
                Some(e)
            },
            None => None,
        }
    }

    /// Removes and returns the oldest entry.
    pub fn pop_front(&mut self) -> (r: Option<Entry<I>>)
        requires
            old(self).wf(),
        ensures
            final(self).wf(),
            final(self).spec_next_id() == old(self).spec_next_id(),
            old(self).entries().len() == 0 ==> r.is_none() && final(self).entries() == old(self).entries()
                && final(self).ids() == old(self).ids(),
            old(self).entries().len() > 0 ==> r == Some(old(self).entries()[0])
                && final(self).entries() == old(self).entries().drop_first()
                && final(self).ids() == old(self).ids().drop_first(),
    {
        if self.entries.len() == 0 {
            return None;
        }
        let ghost before = self.entries@;
        let ghost before_ids = self.ids@;
        self.ids.remove(0);
        let e = self.entries.remove(0);
        assert(self.entries@ =~= before.drop_first());
        assert(self.ids@ =~= before_ids.drop_first());
        assert forall|a: int, b: int| 0 <= a < b < self.entries@.len() implies self.entries@[a].key != self.entries@[b].key by {
            assert(self.entries@[a] == before[a + 1] && self.entries@[b] == before[b + 1]);
        }
        assert forall|a: int, b: int| 0 <= a < b < self.ids@.len() implies self.ids@[a] < self.ids@[b] by {
            assert(self.ids@[a] == before_ids[a + 1] && self.ids@[b] == before_ids[b + 1]);
        }
        Some(e)
    }

    /// Removes all entries and restarts the ids from zero.
    pub fn clear(&mut self)
        ensures
            final(self).wf(),
            final(self).entries().len() == 0,
            final(self).ids().len() == 0,
            final(self).spec_next_id() == 0,
    {
        self.ids.clear();
        self.entries.clear();
        self.next_id = 0;
    }

    pub fn exists_key(&self, key: &UncheckedKey) -> (r: bool)
        requires
            self.wf(),
        ensures
            r == has_key(self.entries(), *key),
    {
        self.position(key).is_some()
    }

    /// The id under which the key is stored.
    pub fn id_of(&self, key: &UncheckedKey) -> (r: Option<usize>)
        requires
            self.wf(),
        ensures
            match r {
                Some(id) => has_key(self.entries(), *key) && id == self.ids()[key_position(self.entries(), *key)],
                None => !has_key(self.entries(), *key),
            },
    {
        match self.position(key) {
            Some(i) => Some(self.ids[i]),
            None => None,
        }
    }

    /// The entry stored under the id.
    pub fn get_by_id(&self, id: usize) -> (r: Option<&Entry<I>>)
        requires
            self.wf(),
        ensures
            match r {
                Some(e) => exists|i: int| 0 <= i < self.ids().len() && #[trigger] self.ids()[i] == id && self.entries()[i] == *e,
                None => forall|i: int| 0 <= i < self.ids().len() ==> self.ids()[i] != id,
            },
    {
        let mut i: usize = 0;
        while i < self.ids.len()
            invariant
                i <= self.ids@.len(),
                self.ids@.len() == self.entries@.len(),
                forall|j: int| 0 <= j < i ==> self.ids@[j] != id,
            decreases self.ids@.len() - i,
        {
            if self.ids[i] == id {
                assert(self.ids()[i as int] == id && self.entries()[i as int] == self.entries@[i as int]);
                return Some(&self.entries[i]);
            }
            i = i + 1;
        }
        None
    }


    /// Removes every entry waiting for the dependency.
    pub fn remove_dependents(&mut self, dependency: &HashOrAccount)
        requires
            old(self).wf(),
        ensures
            final(self).wf(),
            final(self).entries() == old(self).entries().filter(|e: Entry<I>| e.key.previous != *dependency),
            final(self).spec_next_id() == old(self).spec_next_id(),
    {
        let ghost pred = |e: Entry<I>| e.key.previous != *dependency;
        let ghost all = self.entries@;
        let ghost all_ids = self.ids@;
        let mut kept: Vec<Entry<I>> = Vec::new();
        let mut kept_ids: Vec<usize> = Vec::new();
        let ghost mut src: Seq<int> = Seq::empty();
        let mut rest: Vec<Entry<I>> = Vec::new();
        let mut rest_ids: Vec<usize> = Vec::new();
        std::mem::swap(&mut rest, &mut self.entries);
        std::mem::swap(&mut rest_ids, &mut self.ids);
        let n = rest.len();
        let mut i: usize = 0;
        while i < n
            invariant
                n == all.len(),
                all_ids.len() == all.len(),
                i <= n,
                rest@ =~= all.skip(i as int),
                rest_ids@ =~= all_ids.skip(i as int),
                pred == (|e: Entry<I>| e.key.previous != *dependency),
                kept@ =~= all.take(i as int).filter(pred),
                kept_ids@.len() == kept@.len(),
                src.len() == kept@.len(),
                forall|a: int| 0 <= a < src.len() ==> 0 <= #[trigger] src[a] < i && kept_ids@[a] == all_ids[src[a]],
                forall|a: int, b: int| 0 <= a < b < src.len() ==> #[trigger] src[a] < #[trigger] src[b],
            decreases n - i,
        {
            let e = rest.remove(0);
            let id = rest_ids.remove(0);
            assert(e == all[i as int]);
            assert(id == all_ids[i as int]);
            if !e.key.previous.equals(dependency) {
                kept.push(e);
                kept_ids.push(id);
                proof {
                    src = src.push(i as int);
                }
            }
            proof {
                let t = all.take(i + 1);
                reveal_with_fuel(Seq::<_>::filter, 1);
                assert(t.drop_last() =~= all.take(i as int));
                assert(t.last() == all[i as int]);
            }
            i = i + 1;
        }
        assert(all.take(n as int) =~= all);
        proof {
            lemma_filter_subsequence(all, pred);
            let f = all.filter(pred);
            assert forall|a: int, b: int| 0 <= a < b < f.len() implies f[a].key != f[b].key by {
                let (x, y) = choose|x: int, y: int| 0 <= x < y < all.len() && all[x] == #[trigger] f[a] && all[y] == #[trigger] f[b];
            }
            assert forall|a: int, b: int| 0 <= a < b < kept_ids@.len() implies kept_ids@[a] < kept_ids@[b] by {
                assert(src[a] < src[b]);
            }
            assert forall|a: int| 0 <= a < kept_ids@.len() implies kept_ids@[a] < self.next_id by {
                assert(0 <= src[a] < n);
            }
        }
        self.entries = kept;
        self.ids = kept_ids;
    }

    /// All entries, oldest first.
    pub fn iter(&self) -> (r: &Vec<Entry<I>>)
        ensures
            r@ == self.entries(),
    {
        &self.entries
    }
}


impl<I: Copy> EntriesContainer<I> {
    /// The entries waiting for the dependency, in increasing order of block hash.
    pub fn for_each_with_dependency(&self, dependency: &HashOrAccount) -> (r: Vec<Entry<I>>)
        requires
            self.wf(),
        ensures
            r@ == dependents(self.entries(), *dependency),
    {
        let ghost pred = |e: Entry<I>| e.key.previous == *dependency;
        let ghost all = self.entries@;
        let mut work: Vec<Entry<I>> = Vec::new();
        let mut i: usize = 0;
        while i < self.entries.len()
            invariant
                i <= self.entries@.len(),
                all == self.entries@,
                pred == (|e: Entry<I>| e.key.previous == *dependency),
                work@ =~= all.take(i as int).filter(pred),
            decreases self.entries@.len() - i,
        {
            let e = &self.entries[i];
            if e.key.previous.equals(dependency) {
                work.push(Entry { key: e.key, info: e.info });
            }
            proof {
                let t = all.take(i + 1);
                reveal_with_fuel(Seq::<_>::filter, 1);
                assert(t.drop_last() =~= all.take(i as int));
                assert(t.last() == all[i as int]);
            }
            i = i + 1;
        }
        assert(all.take(i as int) =~= all);
        let ghost filtered = work@;
        proof {
            lemma_filter_subsequence(all, pred);
            assert forall|a: int, b: int| 0 <= a < filtered.len() && 0 <= b < filtered.len() && a != b
                implies filtered[a].key.hash != filtered[b].key.hash by {
                let (lo, hi) = if a < b { (a, b) } else { (b, a) };
                let (x, y) = choose|x: int, y: int| 0 <= x < y < all.len() && all[x] == #[trigger] filtered[lo] && all[y] == #[trigger] filtered[hi];
                assert(all[x].key != all[y].key);
                all.lemma_filter_pred(pred, lo);
                all.lemma_filter_pred(pred, hi);
            }
        }
        let ghost mut rest = filtered;
        let ghost mut acc: Seq<Entry<I>> = Seq::empty();
        let mut result: Vec<Entry<I>> = Vec::new();
        while work.len() > 0
            invariant
                work@ == rest,
                forall|a: int, b: int| 0 <= a < rest.len() && 0 <= b < rest.len() && a != b ==> rest[a].key.hash != rest[b].key.hash,
                acc + by_hash_order(rest) == by_hash_order(filtered),
                result@ == acc,
            decreases work@.len(),
        {
            let mut best: usize = 0;
            let mut j: usize = 1;
            while j < work.len()
                invariant
                    1 <= j <= work@.len(),
                    work@ == rest,
                    best < j,
                    forall|k: int| 0 <= k < j && k != best ==> rest[best as int].key.hash.spec_lt(rest[k].key.hash),
                    forall|a: int, b: int| 0 <= a < rest.len() && 0 <= b < rest.len() && a != b ==> rest[a].key.hash != rest[b].key.hash,
                decreases work@.len() - j,
            {
                if work[j].key.hash.less_than(&work[best].key.hash) {
                    proof {
                        assert forall|k: int| 0 <= k < j + 1 && k != j implies rest[j as int].key.hash.spec_lt(rest[k].key.hash) by {
                            if k != best {
                                lemma_lt_is_numeric(rest[j as int].key.hash, rest[best as int].key.hash);
                                lemma_lt_is_numeric(rest[best as int].key.hash, rest[k].key.hash);
                                lemma_lt_is_numeric(rest[j as int].key.hash, rest[k].key.hash);
                            }
                        }
                    }
                    best = j;
                } else {
                    proof {
                        assert(rest[j as int].key.hash != rest[best as int].key.hash);
                        lemma_lt_is_numeric(rest[j as int].key.hash, rest[best as int].key.hash);
                        lemma_lt_is_numeric(rest[best as int].key.hash, rest[j as int].key.hash);
                    }
                }
                j = j + 1;
            }
            proof {
                assert(is_least(rest, best as int));
                let c = choose|c: int| is_least(rest, c);
                assert(c == best as int) by {
                    if c != best as int {
                        lemma_lt_is_numeric(rest[c].key.hash, rest[best as int].key.hash);
                        lemma_lt_is_numeric(rest[best as int].key.hash, rest[c].key.hash);
                    }
                }
                assert(by_hash_order(rest) == seq![rest[best as int]] + by_hash_order(rest.remove(best as int)));
            }
            let e = work.remove(best);
            result.push(e);
            proof {
                assert(acc.push(e) + by_hash_order(rest.remove(best as int)) =~= acc + (seq![e] + by_hash_order(rest.remove(best as int))));
                acc = acc.push(e);
                let old_rest = rest;
                rest = rest.remove(best as int);
                assert forall|a: int, b: int| 0 <= a < rest.len() && 0 <= b < rest.len() && a != b implies rest[a].key.hash != rest[b].key.hash by {
                    let a2 = if a < best { a } else { a + 1 };
                    let b2 = if b < best { b } else { b + 1 };
                    assert(rest[a] == old_rest[a2] && rest[b] == old_rest[b2]);
                }
            }
        }
        proof {
            assert(!exists|i: int| is_least(rest, i));
            assert(acc + Seq::<Entry<I>>::empty() =~= acc);
        }
        result
    }
}

/// What the map holds for a waiting block: the block's hash and when it arrived.
#[derive(Clone, Copy, Debug, PartialEq, Eq, Structural)]
pub struct UncheckedInfo {
    pub block_hash: BlockHash,
    pub modified: u64,
}

/// Blocks waiting for a dependency, with a bounded size, plus the queue of dependencies
/// that arrived and whose waiting blocks are to be released.
pub struct UncheckedMap {
    entries_container: EntriesContainer<UncheckedInfo>,
    buffer: VecDeque<HashOrAccount>,
    max_unchecked_blocks: usize,
    disable_delete: bool,
}

impl UncheckedMap {
    pub closed spec fn container(&self) -> EntriesContainer<UncheckedInfo> {
        self.entries_container
    }

    pub closed spec fn buffer(&self) -> Seq<HashOrAccount> {
        self.buffer@
    }

    pub closed spec fn max_unchecked_blocks(&self) -> nat {
        self.max_unchecked_blocks as nat
    }

    pub closed spec fn disable_delete(&self) -> bool {
        self.disable_delete
    }

    pub closed spec fn wf(&self) -> bool {
        self.entries_container.wf()
    }

    pub fn new(max_unchecked_blocks: usize, disable_delete: bool) -> (r: Self)
        ensures
            r.wf(),
            r.container().entries().len() == 0,
            r.container().spec_next_id() == 0,
            r.buffer().len() == 0,
            r.max_unchecked_blocks() == max_unchecked_blocks,
            r.disable_delete() == disable_delete,
    {
        UncheckedMap {
            entries_container: EntriesContainer::new(),
            buffer: VecDeque::new(),
            max_unchecked_blocks,
            disable_delete,
        }
    }

    pub fn exists_key(&self, key: &UncheckedKey) -> (r: bool)
        requires
            self.wf(),
        ensures
            r == has_key(self.container().entries(), *key),
    {
        self.entries_container.exists_key(key)
    }

    /// Stores a block waiting for `dependency`; evicts the oldest block once more than
    /// the maximum are held. Returns whether the block was new.
    pub fn put(&mut self, dependency: HashOrAccount, info: UncheckedInfo) -> (r: bool)
        requires
            old(self).wf(),
            old(self).container().spec_next_id() < usize::MAX,
        ensures
            final(self).wf(),
            final(self).buffer() == old(self).buffer(),
            final(self).max_unchecked_blocks() == old(self).max_unchecked_blocks(),
            final(self).disable_delete() == old(self).disable_delete(),
            ({
                let key = UncheckedKey { previous: dependency, hash: info.block_hash };
                let old_es = old(self).container().entries();
                let added = if has_key(old_es, key) { old_es } else { old_es.push(Entry { key, info }) };
                &&& r == !has_key(old_es, key)
                &&& final(self).container().entries() == (if added.len() > old(self).max_unchecked_blocks() {
                    added.drop_first() } else { added })
            }),
            final(self).container().entries().len() <= old(self).container().entries().len() + 1,
    {
        let key = UncheckedKey::new(dependency, info.block_hash);
        let inserted = self.entries_container.insert(Entry::new(key, info));
        if self.entries_container.len() > self.max_unchecked_blocks {
            self.entries_container.pop_front();
        }
        inserted
    }

    /// The blocks waiting for the dependency, in increasing order of block hash.
    pub fn get(&self, dependency: &HashOrAccount) -> (r: Vec<UncheckedInfo>)
        requires
            self.wf(),
        ensures
            r@ == dependents(self.container().entries(), *dependency).map_values(|e: Entry<UncheckedInfo>| e.info),
    {
        let es = self.entries_container.for_each_with_dependency(dependency);
        let mut r: Vec<UncheckedInfo> = Vec::new();
        let mut i: usize = 0;
        while i < es.len()
            invariant
                i <= es@.len(),
                r@ =~= es@.take(i as int).map_values(|e: Entry<UncheckedInfo>| e.info),
            decreases es@.len() - i,
        {
            r.push(es[i].info);
            i = i + 1;
        }
        assert(es@.take(i as int) =~= es@);
        r
    }

    pub fn clear(&mut self)
        ensures
            final(self).wf(),
            final(self).container().entries().len() == 0,
            final(self).buffer() == old(self).buffer(),
            final(self).max_unchecked_blocks() == old(self).max_unchecked_blocks(),
            final(self).disable_delete() == old(self).disable_delete(),
    {
        self.entries_container.clear();
    }

    /// The id the next stored block gets.
    pub fn next_id(&self) -> (r: usize)
        ensures
            r == self.container().spec_next_id(),
    {
        self.entries_container.next_id()
    }

    /// Queues a dependency that arrived, so its waiting blocks get released.
    pub fn trigger(&mut self, dependency: &HashOrAccount)
        ensures
            final(self).buffer() == old(self).buffer().push(*dependency),
            final(self).container() == old(self).container(),
            final(self).max_unchecked_blocks() == old(self).max_unchecked_blocks(),
            final(self).disable_delete() == old(self).disable_delete(),
    {
        self.buffer.push_back(*dependency);
    }

    pub fn remove(&mut self, key: &UncheckedKey)
        requires
            old(self).wf(),
        ensures
            final(self).wf(),
            has_key(old(self).container().entries(), *key) ==> final(self).container().entries()
                == old(self).container().entries().remove(key_position(old(self).container().entries(), *key)),
            !has_key(old(self).container().entries(), *key) ==> final(self).container().entries()
                == old(self).container().entries(),
            final(self).buffer() == old(self).buffer(),
            final(self).max_unchecked_blocks() == old(self).max_unchecked_blocks(),
            final(self).disable_delete() == old(self).disable_delete(),
    {
        let _ = self.entries_container.remove(key);
    }

    pub fn len(&self) -> (r: usize)
        requires
            self.wf(),
        ensures
            r == self.container().entries().len(),
    {
        self.entries_container.len()
    }

    pub fn is_empty(&self) -> (r: bool)
        ensures
            r == (self.container().entries().len() == 0),
    {
        self.entries_container.is_empty()
    }

    pub fn buffer_count(&self) -> (r: usize)
        ensures
            r == self.buffer().len(),
    {
        self.buffer.len()
    }

    /// Releases the blocks waiting for one dependency: returns them in increasing order of
    /// block hash and, unless deletion is disabled, removes them.
    pub fn query_impl(&mut self, dependency: &HashOrAccount) -> (r: Vec<UncheckedInfo>)
        requires
            old(self).wf(),
        ensures
            final(self).wf(),
            r@ == dependents(old(self).container().entries(), *dependency).map_values(|e: Entry<UncheckedInfo>| e.info),
            old(self).disable_delete() ==> final(self).container().entries() == old(self).container().entries(),
            !old(self).disable_delete() ==> final(self).container().entries() == old(self).container().entries().filter(
                |e: Entry<UncheckedInfo>| e.key.previous != *dependency),
            final(self).buffer() == old(self).buffer(),
            final(self).max_unchecked_blocks() == old(self).max_unchecked_blocks(),
            final(self).disable_delete() == old(self).disable_delete(),
    {
        let satisfied = self.entries_container.for_each_with_dependency(dependency);
        let mut r: Vec<UncheckedInfo> = Vec::new();
        let mut i: usize = 0;
        while i < satisfied.len()
            invariant
                i <= satisfied@.len(),
                r@ =~= satisfied@.take(i as int).map_values(|e: Entry<UncheckedInfo>| e.info),
            decreases satisfied@.len() - i,
        {
            r.push(satisfied[i].info);
            i = i + 1;
        }
        assert(satisfied@.take(i as int) =~= satisfied@);
        if !self.disable_delete {
            self.entries_container.remove_dependents(dependency);
        }
        r
    }

    /// Releases the blocks of every queued dependency, in queue order, and empties the queue.
    /// Returns the released blocks of each dependency.
    pub fn process_queries(&mut self) -> (r: Vec<Vec<UncheckedInfo>>)
        requires
            old(self).wf(),
        ensures
            final(self).wf(),
            final(self).buffer().len() == 0,
            r@.len() == old(self).buffer().len(),
            old(self).disable_delete() ==> final(self).container().entries() == old(self).container().entries()
                && forall|k: int| 0 <= k < r@.len() ==> (#[trigger] r@[k])@ == dependents(old(self).container().entries(),
                    old(self).buffer()[k]).map_values(|e: Entry<UncheckedInfo>| e.info),
            !old(self).disable_delete() ==> final(self).container().entries()
                    == waiting_for_none(old(self).container().entries(), old(self).buffer())
                && forall|k: int| 0 <= k < r@.len() ==> (#[trigger] r@[k])@ == dependents(
                    waiting_for_none(old(self).container().entries(), old(self).buffer().take(k)),
                    old(self).buffer()[k]).map_values(|e: Entry<UncheckedInfo>| e.info),
            !old(self).disable_delete() ==> forall|i: int| 0 <= i < final(self).container().entries().len()
                ==> !old(self).buffer().contains(#[trigger] final(self).container().entries()[i].key.previous),
            final(self).max_unchecked_blocks() == old(self).max_unchecked_blocks(),
            final(self).disable_delete() == old(self).disable_delete(),
    {
        let mut back_buffer: VecDeque<HashOrAccount> = VecDeque::new();
        std::mem::swap(&mut back_buffer, &mut self.buffer);
        let ghost queued = back_buffer@;
        let ghost es0 = self.entries_container.entries();
        proof {
            assert(queued.take(0) =~= Seq::<HashOrAccount>::empty());
            assert(waiting_for_none(es0, Seq::<HashOrAccount>::empty()) =~= es0) by {
                reveal(Seq::filter);
                lemma_filter_all(es0, |e: Entry<UncheckedInfo>| !Seq::<HashOrAccount>::empty().contains(e.key.previous));
            }
        }
        let mut r: Vec<Vec<UncheckedInfo>> = Vec::new();
        let mut i: usize = 0;
        while i < back_buffer.len()
            invariant
                i <= back_buffer@.len(),
                back_buffer@ == queued,
                self.wf(),
                self.buffer().len() == 0,
                r@.len() == i,
                self.max_unchecked_blocks == old(self).max_unchecked_blocks,
                self.disable_delete == old(self).disable_delete,
                self.disable_delete ==> self.entries_container.entries() == es0,
                self.disable_delete ==> forall|k: int| 0 <= k < i ==> (#[trigger] r@[k])@ == dependents(es0, queued[k]).map_values(|e: Entry<UncheckedInfo>| e.info),
                !self.disable_delete ==> self.entries_container.entries() == waiting_for_none(es0, queued.take(i as int)),
                !self.disable_delete ==> forall|k: int| 0 <= k < i ==> (#[trigger] r@[k])@ == dependents(
                    waiting_for_none(es0, queued.take(k)), queued[k]).map_values(|e: Entry<UncheckedInfo>| e.info),
            decreases back_buffer@.len() - i,
        {
            let dependency = back_buffer[i];
            let released = self.query_impl(&dependency);
            proof {
                lemma_waiting_for_none_push(es0, queued.take(i as int), dependency);
                assert(queued.take(i as int).push(dependency) =~= queued.take(i + 1));
            }
            r.push(released);
            i = i + 1;
        }
        proof {
            assert(queued.take(queued.len() as int) =~= queued);
            lemma_waiting_for_none_is_free(es0, queued);
        }
        r
    }
}

} // verus!
