//! Housekeeping decisions of a running node.

use vstd::prelude::*;
use crate::numbers::{Account, Hash256, PublicKey};

verus! {

/// One week, in nanoseconds.
pub const ONE_WEEK_NS: u64 = 7 * 24 * 60 * 60 * 1_000_000_000;

/// Whether the records of peers and online weight are dropped at start-up: when the
/// newest online weight sample (nanoseconds since the epoch) is more than a week older
/// than `now_ns`. Nothing is dropped when no sample was taken.
pub fn needs_inactivity_cleanup(newest_sample_ns: Option<u64>, now_ns: u64) -> (r: bool)
    requires
        now_ns >= ONE_WEEK_NS,
    ensures
        r == (match newest_sample_ns { Some(t) => t < now_ns - ONE_WEEK_NS, None => false }),
{
    match newest_sample_ns {
        Some(t) => t < now_ns - ONE_WEEK_NS,
        None => false,
    }
}

/// A representative the node has a direct connection to.
#[derive(Clone, Copy, Debug, PartialEq, Eq)]
pub struct PeeredRep {
    pub account: PublicKey,
    pub channel_id: usize,
    /// When it was last asked for a vote, in milliseconds.
    pub last_request: u64,
}

impl PeeredRep {
    pub fn new(account: PublicKey, channel_id: usize, last_request: u64) -> (r: Self)
        ensures
            r == (PeeredRep { account, channel_id, last_request }),
    {
        PeeredRep { account, channel_id, last_request }
    }
}

/// `rand::random::<u128>()`: 128 bits from the thread-local random generator. Nothing is
/// promised of the value.
#[verifier::external_body]
fn random_u128() -> (r: u128) {
    rand::random::<u128>()
}

/// Values drawn at random once per process: an account that no one holds (a placeholder
/// where an account is needed but none applies), the same value as a key, and 128 random
/// bits.
#[derive(Clone, Copy, Debug, PartialEq, Eq)]
pub struct HardenedConstants {
    pub not_an_account: Account,
    pub not_an_account_key: PublicKey,
    pub random_128: u128,
}

impl HardenedConstants {
    /// Draws the values.
    pub fn generate() -> (r: Self)
        ensures
            r.not_an_account_key == r.not_an_account,
    {
        let hi = random_u128();
        let lo = random_u128();
        let not_an_account = Hash256::new(hi, lo);
        HardenedConstants { not_an_account, not_an_account_key: not_an_account, random_128: random_u128() }
    }
}

} // verus!
