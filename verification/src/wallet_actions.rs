//! Queued wallet actions, grouped by amount and handed out a group at a time, the
//! lowest amount first; within a group, in the order they were queued.

use vstd::prelude::*;

verus! {

/// The amounts of the groups rise strictly.
pub open spec fn amounts_ascending<A>(g: Seq<(u128, Seq<A>)>) -> bool {
    forall|i: int, j: int| 0 <= i < j < g.len() ==> g[i].0 < g[j].0
}

/// `p` is where the groups of amounts below `amount` end.
pub open spec fn is_split<A>(g: Seq<(u128, Seq<A>)>, amount: u128, p: int) -> bool {
    &&& 0 <= p <= g.len()
    &&& forall|i: int| 0 <= i < p ==> (#[trigger] g[i]).0 < amount
    &&& (p == g.len() || g[p].0 >= amount)
}

pub open spec fn split_of<A>(g: Seq<(u128, Seq<A>)>, amount: u128) -> int {
    choose|p: int| is_split(g, amount, p)
}

/// The groups after queueing `action` for `amount`: appended to the group of that amount,
/// or in a new group placed by amount.
pub open spec fn after_queue<A>(g: Seq<(u128, Seq<A>)>, amount: u128, action: A) -> Seq<(u128, Seq<A>)> {
    let p = split_of(g, amount);
    if p < g.len() && g[p].0 == amount {
        g.update(p, (amount, g[p].1.push(action)))
    } else {
        g.insert(p, (amount, seq![action]))
    }
}

/// Actions waiting, by amount.
pub struct WalletActionQueue<A> {
    groups: Vec<(u128, Vec<A>)>,
    stopped: bool,
}

impl<A> WalletActionQueue<A> {
    /// The groups, lowest amount first.
    pub closed spec fn groups(&self) -> Seq<(u128, Seq<A>)> {
        self.groups@.map_values(|g: (u128, Vec<A>)| (g.0, g.1@))
    }

    pub closed spec fn is_stopped(&self) -> bool { self.stopped }

    pub closed spec fn wf(&self) -> bool {
        amounts_ascending(self.groups())
    }

    pub fn new() -> (r: Self)
        ensures
            r.wf(),
            r.groups().len() == 0,
            !r.is_stopped(),
    {
        let r = WalletActionQueue { groups: Vec::new(), stopped: false };
        assert(r.groups() =~= Seq::empty());
        r
    }

    /// Stops handing out actions and drops those waiting.
    pub fn stop(&mut self)
        ensures
            final(self).wf(),
            final(self).is_stopped(),
            final(self).groups().len() == 0,
    {
        self.stopped = true;
        self.groups.clear();
        assert(self.groups() =~= Seq::empty());
    }

    /// Number of distinct amounts waiting.
    pub fn len(&self) -> (r: usize)
        ensures
            r == self.groups().len(),
    {
        self.groups.len()
    }

    pub fn is_stopped_now(&self) -> (r: bool)
        ensures
            r == self.is_stopped(),
    {
        self.stopped
    }

    /// Queues `action` for `amount`.
    pub fn queue_wallet_action(&mut self, amount: u128, action: A)
        requires
            old(self).wf(),
        ensures
            final(self).wf(),
            final(self).groups() == after_queue(old(self).groups(), amount, action),
            final(self).is_stopped() == old(self).is_stopped(),
    {
        let ghost g = self.groups();
        let mut p: usize = 0;
        while p < self.groups.len() && self.groups[p].0 < amount
            invariant
                g == self.groups(),
                p <= g.len(),
                forall|i: int| 0 <= i < p ==> (#[trigger] g[i]).0 < amount,
            decreases g.len() - p,
        {
            assert(g[p as int].0 == self.groups@[p as int].0);
            p = p + 1;
        }
        proof {
            if p < g.len() {
                assert(g[p as int].0 == self.groups@[p as int].0);
            }
            assert(is_split(g, amount, p as int));
            let q = split_of(g, amount);
            assert(is_split(g, amount, q));
            if q < p {
                assert(g[q].0 < amount);
            }
            if p < q {
                assert(g[p as int].0 < amount);
            }
        }
        if p < self.groups.len() && self.groups[p].0 == amount {
            let (a, mut v) = self.groups.remove(p);
            v.push(action);
            self.groups.insert(p, (a, v));
            proof {
                assert(self.groups() =~= g.update(p as int, (amount, g[p as int].1.push(action))));
            }
        } else {
            let mut v = Vec::new();
            v.push(action);
            self.groups.insert(p, (amount, v));
            proof {
                assert(self.groups() =~= g.insert(p as int, (amount, seq![action])));
            }
        }
    }

    /// Takes out the group with the lowest amount.
    pub fn pop_first(&mut self) -> (r: Option<(u128, Vec<A>)>)
        requires
            old(self).wf(),
        ensures
            final(self).wf(),
            final(self).is_stopped() == old(self).is_stopped(),
            old(self).groups().len() == 0 ==> r is None && final(self).groups() == old(self).groups(),
            old(self).groups().len() > 0 ==> (r matches Some(e) && (e.0, e.1@) == old(self).groups()[0]
                && final(self).groups() == old(self).groups().skip(1)),
    {
        if self.groups.len() == 0 {
            None
        } else {
            let ghost g = self.groups();
            let e = self.groups.remove(0);
            proof {
                assert(self.groups() =~= g.skip(1));
            }
            Some(e)
        }
    }
}

/// Groups come out lowest amount first: the group taken has a lower amount than every
/// group left.
pub proof fn lemma_lowest_amount_first<A>(g: Seq<(u128, Seq<A>)>)
    requires
        amounts_ascending(g),
        g.len() > 0,
    ensures
        forall|i: int| 0 <= i < g.skip(1).len() ==> g[0].0 < (#[trigger] g.skip(1)[i]).0,
{
    assert forall|i: int| 0 <= i < g.skip(1).len() implies g[0].0 < (#[trigger] g.skip(1)[i]).0 by {
        assert(g.skip(1)[i] == g[i + 1]);
    }
}

} // verus!
