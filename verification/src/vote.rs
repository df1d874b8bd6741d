//! Votes cast by representatives for block hashes.

use vstd::prelude::*;
use crate::numbers::{Account, BlockHash};

verus! {

/// The timestamp that marks a vote as final.
pub const FINAL_TIMESTAMP: u64 = 0xffff_ffff_ffff_ffffu64;

/// A vote of a representative for one or more block hashes.
pub struct Vote {
    pub voting_account: Account,
    pub timestamp: u64,
    pub hashes: Vec<BlockHash>,
}

impl Vote {
    /// A final vote carries the maximal timestamp.
    pub open spec fn spec_is_final(&self) -> bool {
        self.timestamp == FINAL_TIMESTAMP
    }

    pub fn new(voting_account: Account, timestamp: u64, hashes: Vec<BlockHash>) -> (r: Self)
        ensures
            r.voting_account == voting_account,
            r.timestamp == timestamp,
            r.hashes@ == hashes@,
    {
        Vote { voting_account, timestamp, hashes }
    }

    pub fn new_final(voting_account: Account, hashes: Vec<BlockHash>) -> (r: Self)
        ensures
            r.voting_account == voting_account,
            r.timestamp == FINAL_TIMESTAMP,
            r.spec_is_final(),
            r.hashes@ == hashes@,
    {
        Vote { voting_account, timestamp: FINAL_TIMESTAMP, hashes }
    }

    pub fn timestamp(&self) -> (r: u64)
        ensures
            r == self.timestamp,
    {
        self.timestamp
    }

    pub fn is_final(&self) -> (r: bool)
        ensures
            r == self.spec_is_final(),
    {
        self.timestamp == FINAL_TIMESTAMP
    }
}

} // verus!
