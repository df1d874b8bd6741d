//! The representatives among a node's wallet accounts: those whose weight reaches the
//! voting minimum, and whether one reaches half the principal representative weight.

use vstd::prelude::*;
use crate::numbers::{Account, PublicKey};

verus! {

pub struct WalletRepresentatives {
    /// Some representative has at least half the principal representative weight.
    half_principal: bool,
    /// The number of representatives with at least the voting minimum.
    voting: u64,
    /// The representatives with at least the voting minimum, each once.
    accounts: Vec<Account>,
    vote_minimum: u128,
}

pub open spec fn distinct_accounts(s: Seq<Account>) -> bool {
    forall|i: int, j: int| 0 <= i < j < s.len() ==> s[i] != s[j]
}

impl WalletRepresentatives {
    /// The voting representatives, in the order they were found.
    pub closed spec fn accounts(&self) -> Seq<Account> {
        self.accounts@
    }

    pub closed spec fn half_principal(&self) -> bool {
        self.half_principal
    }

    pub closed spec fn vote_minimum(&self) -> u128 {
        self.vote_minimum
    }

    pub closed spec fn wf(&self) -> bool {
        &&& distinct_accounts(self.accounts@)
        &&& self.voting == self.accounts@.len()
    }

    pub fn new(vote_minimum: u128) -> (r: Self)
        ensures
            r.wf(),
            r.accounts().len() == 0,
            !r.half_principal(),
            r.vote_minimum() == vote_minimum,
    {
        WalletRepresentatives { half_principal: false, voting: 0, accounts: Vec::new(), vote_minimum }
    }

    pub fn have_half_rep(&self) -> (r: bool)
        ensures
            r == self.half_principal(),
    {
        self.half_principal
    }

    /// The number of voting representatives.
    pub fn voting_reps(&self) -> (r: u64)
        requires
            self.wf(),
        ensures
            r == self.accounts().len(),
    {
        self.voting
    }

    /// Whether the account is a voting representative.
    pub fn exists_rep(&self, rep: &Account) -> (r: bool)
        ensures
            r == self.accounts().contains(*rep),
    {
        let mut i: usize = 0;
        while i < self.accounts.len()
            invariant
                i <= self.accounts@.len(),
                forall|j: int| 0 <= j < i ==> self.accounts@[j] != *rep,
            decreases self.accounts@.len() - i,
        {
            if self.accounts[i].equals(rep) {
                assert(self.accounts@[i as int] == *rep);
                return true;
            }
            i = i + 1;
        }
        false
    }

    /// Forgets every representative.
    pub fn clear(&mut self)
        ensures
            final(self).wf(),
            final(self).accounts().len() == 0,
            !final(self).half_principal(),
            final(self).vote_minimum() == old(self).vote_minimum(),
    {
        self.voting = 0;
        self.half_principal = false;
        self.accounts.clear();
    }

    /// Considers the account with the given voting weight. An account below the voting
    /// minimum is no representative; one reaching `half_principal_weight` marks that a
    /// half principal representative exists. Returns whether a new voting representative
    /// was recorded.
    pub fn check_rep(&mut self, pub_key: PublicKey, weight: u128, half_principal_weight: u128) -> (r: bool)
        requires
            old(self).wf(),
        ensures
            final(self).wf(),
            final(self).vote_minimum() == old(self).vote_minimum(),
            weight < old(self).vote_minimum() ==> !r && final(self).accounts() == old(self).accounts()
                && final(self).half_principal() == old(self).half_principal(),
            weight >= old(self).vote_minimum() ==> final(self).half_principal()
                == (old(self).half_principal() || weight >= half_principal_weight),
            weight >= old(self).vote_minimum() ==> r == !old(self).accounts().contains(pub_key),
            weight >= old(self).vote_minimum() && r ==> final(self).accounts() == old(self).accounts().push(pub_key),
            weight >= old(self).vote_minimum() && !r ==> final(self).accounts() == old(self).accounts(),
    {
        if weight < self.vote_minimum {
            return false;
        }
        if weight >= half_principal_weight {
            self.half_principal = true;
        }
        if self.exists_rep(&pub_key) {
            return false;
        }
        let ghost before = self.accounts@;
        self.accounts.push(pub_key);
        proof {
            assert forall|i: int, j: int| 0 <= i < j < self.accounts@.len() implies self.accounts@[i] != self.accounts@[j] by {
                if j == before.len() {
                    assert(self.accounts@[i] == before[i]);
                    assert(before.contains(before[i]));
                }
            }
        }
        self.voting = self.accounts.len() as u64;
        true
    }
}

} // verus!
