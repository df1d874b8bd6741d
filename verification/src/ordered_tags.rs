//! The outstanding requests of the ascending bootstrapper, in the order they were sent.

use vstd::prelude::*;
use crate::numbers::{Account, BlockHash, HashOrAccount};

verus! {

#[derive(Clone, Copy, Debug, PartialEq, Eq, Structural)]
pub enum QueryType {
    Invalid,
    BlocksByHash,
    BlocksByAccount,
    AccountInfoByHash,
}

#[derive(Clone, Copy, Debug, PartialEq, Eq, Structural)]
pub enum QuerySource {
    Invalid,
    Priority,
    Database,
    Blocking,
}

/// An outstanding request.
#[derive(Clone, Copy, Debug, PartialEq, Eq, Structural)]
pub struct AsyncTag {
    pub query_type: QueryType,
    pub source: QuerySource,
    pub start: HashOrAccount,
    pub account: Account,
    pub hash: BlockHash,
    pub count: usize,
    pub id: u64,
    /// When the request was sent, in milliseconds.
    pub timestamp: u64,
}

/// No id occurs twice.
pub open spec fn unique_ids(s: Seq<AsyncTag>) -> bool {
    forall|i: int, j: int| 0 <= i < j < s.len() ==> s[i].id != s[j].id
}

pub open spec fn has_id(s: Seq<AsyncTag>, id: u64) -> bool {
    exists|i: int| 0 <= i < s.len() && s[i].id == id
}

pub open spec fn id_position(s: Seq<AsyncTag>, id: u64) -> int {
    choose|i: int| 0 <= i < s.len() && s[i].id == id
}

/// The tags without the one of the given id.
pub open spec fn without_id(s: Seq<AsyncTag>, id: u64) -> Seq<AsyncTag> {
    s.filter(|t: AsyncTag| t.id != id)
}

/// The tags of an account, in order.
pub open spec fn of_account(s: Seq<AsyncTag>, account: Account) -> Seq<AsyncTag> {
    s.filter(|t: AsyncTag| t.account == account)
}

/// The tags of a block hash, in order.
pub open spec fn of_hash(s: Seq<AsyncTag>, hash: BlockHash) -> Seq<AsyncTag> {
    s.filter(|t: AsyncTag| t.hash == hash)
}

/// The outstanding requests, oldest first, at most one per id.
pub struct OrderedTags {
    sequenced: Vec<AsyncTag>,
}

impl OrderedTags {
    pub closed spec fn tags(&self) -> Seq<AsyncTag> {
        self.sequenced@
    }

    /// No id is held twice.
    pub open spec fn wf(&self) -> bool {
        unique_ids(self.tags())
    }

    pub fn new() -> (r: Self)
        ensures
            r.wf(),
            r.tags() == Seq::<AsyncTag>::empty(),
    {
        OrderedTags { sequenced: Vec::new() }
    }

    pub fn len(&self) -> (r: usize)
        ensures
            r == self.tags().len(),
    {
        self.sequenced.len()
    }

    fn position(&self, id: u64) -> (r: Option<usize>)
        requires
            self.wf(),
        ensures
            match r {
                Some(i) => i < self.tags().len() && self.tags()[i as int].id == id && id_position(self.tags(), id) == i,
                None => !has_id(self.tags(), id),
            },
    {
        let mut i: usize = 0;
        while i < self.sequenced.len()
            invariant
                i <= self.sequenced@.len(),
                unique_ids(self.sequenced@),
                forall|j: int| 0 <= j < i ==> (#[trigger] self.sequenced@[j]).id != id,
            decreases self.sequenced@.len() - i,
        {
            if self.sequenced[i].id == id {
                assert(has_id(self.sequenced@, id));
                let ghost k = id_position(self.sequenced@, id);
                assert(k == i as int) by {
                    if k != i as int && k > i as int {
                        assert(self.sequenced@[i as int].id != self.sequenced@[k].id);
                    }
                }
                return Some(i);
            }
            i = i + 1;
        }
        None
    }

    pub fn contains(&self, id: u64) -> (r: bool)
        requires
            self.wf(),
        ensures
            r == has_id(self.tags(), id),
    {
        self.position(id).is_some()
    }

    pub fn get(&self, id: u64) -> (r: Option<AsyncTag>)
        requires
            self.wf(),
        ensures
            match r {
                Some(t) => has_id(self.tags(), id) && t == self.tags()[id_position(self.tags(), id)],
                None => !has_id(self.tags(), id),
            },
    {
        match self.position(id) {
            Some(i) => Some(self.sequenced[i]),
            None => None,
        }
    }

    /// The tags of the account, oldest first.
    pub fn iter_account(&self, account: &Account) -> (r: Vec<AsyncTag>)
        ensures
            r@ == of_account(self.tags(), *account),
    {
        let ghost pred = |t: AsyncTag| t.account == *account;
        let mut r: Vec<AsyncTag> = Vec::new();
        let mut i: usize = 0;
        while i < self.sequenced.len()
            invariant
                i <= self.sequenced@.len(),
                pred == (|t: AsyncTag| t.account == *account),
                r@ =~= self.sequenced@.take(i as int).filter(pred),
            decreases self.sequenced@.len() - i,
        {
            let t = self.sequenced[i];
            if t.account.equals(account) {
                r.push(t);
            }
            proof {
                let s = self.sequenced@.take(i + 1);
                reveal_with_fuel(Seq::<_>::filter, 1);
                assert(s.drop_last() =~= self.sequenced@.take(i as int));
                assert(s.last() == t);
            }
            i = i + 1;
        }
        assert(self.sequenced@.take(i as int) =~= self.sequenced@);
        r
    }

    /// The tags of the block hash, oldest first.
    pub fn iter_hash(&self, hash: &BlockHash) -> (r: Vec<AsyncTag>)
        ensures
            r@ == of_hash(self.tags(), *hash),
    {
        let ghost pred = |t: AsyncTag| t.hash == *hash;
        let mut r: Vec<AsyncTag> = Vec::new();
        let mut i: usize = 0;
        while i < self.sequenced.len()
            invariant
                i <= self.sequenced@.len(),
                pred == (|t: AsyncTag| t.hash == *hash),
                r@ =~= self.sequenced@.take(i as int).filter(pred),
            decreases self.sequenced@.len() - i,
        {
            let t = self.sequenced[i];
            if t.hash.equals(hash) {
                r.push(t);
            }
            proof {
                let s = self.sequenced@.take(i + 1);
                reveal_with_fuel(Seq::<_>::filter, 1);
                assert(s.drop_last() =~= self.sequenced@.take(i as int));
                assert(s.last() == t);
            }
            i = i + 1;
        }
        assert(self.sequenced@.take(i as int) =~= self.sequenced@);
        r
    }

    /// The number of outstanding requests of the account that came from the given source.
    pub fn count_by_account(&self, account: &Account, source: QuerySource) -> (r: usize)
        ensures
            r == of_account(self.tags(), *account).filter(|t: AsyncTag| t.source == source).len(),
    {
        let tags = self.iter_account(account);
        let ghost pred = |t: AsyncTag| t.source == source;
        let mut n: usize = 0;
        let mut i: usize = 0;
        while i < tags.len()
            invariant
                i <= tags@.len(),
                pred == (|t: AsyncTag| t.source == source),
                n == tags@.take(i as int).filter(pred).len(),
                n <= i,
            decreases tags@.len() - i,
        {
            proof {
                let s = tags@.take(i + 1);
                reveal_with_fuel(Seq::<_>::filter, 1);
                assert(s.drop_last() =~= tags@.take(i as int));
                assert(s.last() == tags@[i as int]);
            }
            if tags[i].source == source {
                n = n + 1;
            }
            i = i + 1;
        }
        assert(tags@.take(i as int) =~= tags@);
        n
    }

    /// Removes and returns the tag of the id.
    pub fn remove(&mut self, id: u64) -> (r: Option<AsyncTag>)
        requires
            old(self).wf(),
        ensures
            final(self).wf(),
            match r {
                Some(t) => has_id(old(self).tags(), id) && t == old(self).tags()[id_position(old(self).tags(), id)]
                    && final(self).tags() == old(self).tags().remove(id_position(old(self).tags(), id)),
                None => !has_id(old(self).tags(), id) && final(self).tags() == old(self).tags(),
            },
    {
        let ghost before = self.sequenced@;
        match self.position(id) {
            Some(i) => {
                let t = self.sequenced.remove(i);
                assert forall|a: int, b: int| 0 <= a < b < self.sequenced@.len()
                    implies self.sequenced@[a].id != self.sequenced@[b].id by {
                    let a2 = if a < i { a } else { a + 1 };
                    let b2 = if b < i { b } else { b + 1 };
                    assert(self.sequenced@[a] == before[a2] && self.sequenced@[b] == before[b2]);
                }
                Some(t)
            },
            None => None,
        }
    }

    /// The oldest tag.
    pub fn front(&self) -> (r: Option<AsyncTag>)
        ensures
            self.tags().len() == 0 ==> r.is_none(),
            self.tags().len() > 0 ==> r == Some(self.tags()[0]),
    {
        if self.sequenced.len() == 0 {
            None
        } else {
            Some(self.sequenced[0])
        }
    }

    /// Removes and returns the oldest tag.
    pub fn pop_front(&mut self) -> (r: Option<AsyncTag>)
        requires
            old(self).wf(),
        ensures
            final(self).wf(),
            old(self).tags().len() == 0 ==> r.is_none() && final(self).tags() == old(self).tags(),
            old(self).tags().len() > 0 ==> r == Some(old(self).tags()[0]) && final(self).tags() == old(self).tags().drop_first(),
    {
        if self.sequenced.len() == 0 {
            None
        } else {
            let ghost before = self.sequenced@;
            let t = self.sequenced.remove(0);
            assert(self.sequenced@ =~= before.drop_first());
            Some(t)
        }
    }

    /// Adds a tag as the newest one. Its id must not be held already: ids are handed out
    /// once each, and a second tag under a held id would leave the id in the order without
    /// a tag to look up.
    pub fn insert(&mut self, tag: AsyncTag)
        requires
            old(self).wf(),
            !has_id(old(self).tags(), tag.id),
        ensures
            final(self).wf(),
            final(self).tags() == old(self).tags().push(tag),
    {
        let ghost before = self.sequenced@;
        self.sequenced.push(tag);
        assert forall|a: int, b: int| 0 <= a < b < self.sequenced@.len()
            implies self.sequenced@[a].id != self.sequenced@[b].id by {
            if b == before.len() {
                assert(self.sequenced@[a] == before[a]);
            }
        }
    }
}

/// After `insert`, the tag is the newest one and its id is known.
pub proof fn lemma_insert_then_contains(s: Seq<AsyncTag>, tag: AsyncTag)
    ensures
        has_id(s.push(tag), tag.id),
        s.push(tag).last() == tag,
{
    assert(s.push(tag)[s.len() as int] == tag);
}

} // verus!
