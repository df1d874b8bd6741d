//! A monotonic clock, read in milliseconds since an epoch taken when a component starts.

use vstd::prelude::*;
use std::time::Instant;

verus! {

/// `std::time::Instant`: a reading of the monotonic clock. Opaque here; it is only carried
/// as the epoch that times are counted from.
#[verifier::external_type_specification]
#[verifier::external_body]
pub struct ExInstant(Instant);

/// `Instant::now()`: the current reading of the monotonic clock. Nothing is promised of it.
#[verifier::external_body]
pub(crate) fn instant_now() -> (r: Instant) {
    Instant::now()
}

/// `epoch.elapsed()` in whole milliseconds (`Duration::as_millis`), or `u64::MAX` when that
/// does not fit in 64 bits. Nothing is promised of the value: it depends on when it is read.
#[verifier::external_body]
pub(crate) fn millis_since(epoch: &Instant) -> (r: u64) {
    u64::try_from(epoch.elapsed().as_millis()).unwrap_or(u64::MAX)
}

} // verus!
