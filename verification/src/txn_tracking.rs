//! Tracking of open database transactions, to report those held open too long.

use vstd::prelude::*;
use std::collections::HashMap;
use crate::config::TxnTrackingConfig;
use crate::clock::{instant_now, millis_since};
use std::time::Instant;

verus! {

broadcast use vstd::std_specs::hash::group_hash_axioms;

/// The name of the thread whose writes are exempt below the batch time.
pub open spec fn block_processing_thread() -> Seq<char> {
    "Blck processing"@
}

/// Slack on top of the block processor's batch time, in milliseconds.
pub const BATCH_TIME_SLACK_MS: u64 = 3000;

/// An open transaction.
pub struct TxnStats {
    pub is_write: bool,
    /// When it was opened, in milliseconds.
    pub start_ms: u64,
    /// The name of the thread that opened it.
    pub thread_name: Option<String>,
}

/// A transaction that was held open too long: what a report says of it.
pub struct HeldTooLong {
    pub time_open_ms: u64,
    pub is_write: bool,
    pub thread_name: Option<String>,
}

pub open spec fn on_block_processing_thread(thread_name: Option<String>) -> bool {
    match thread_name {
        Some(n) => n@ == block_processing_thread(),
        None => false,
    }
}

/// Whether a transaction open for `time_open_ms` is reported. Writes of the block
/// processing thread within the batch time (plus slack) are exempt when configured so;
/// otherwise writes and reads are reported from their own minimum times on.
pub open spec fn held_too_long(
    config: TxnTrackingConfig,
    batch_max_ms: u64,
    is_write: bool,
    on_block_processing: bool,
    time_open_ms: u64,
) -> bool {
    let exempt = config.ignore_writes_below_block_processor_max_time && on_block_processing && is_write
        && time_open_ms <= batch_max_ms + BATCH_TIME_SLACK_MS;
    &&& !exempt
    &&& ((is_write && time_open_ms >= config.min_write_txn_time_ms as u64)
        || (!is_write && time_open_ms >= config.min_read_txn_time_ms as u64))
}

/// The time between `start` and `now`, or 0 if the clock went back.
pub open spec fn elapsed_ms(start: u64, now: u64) -> u64 {
    if now >= start { (now - start) as u64 } else { 0 }
}

pub struct LongRunningTransactionLogger {
    stats: HashMap<u64, TxnStats>,
    config: TxnTrackingConfig,
    block_processor_batch_max_time_ms: u64,
    /// Times are counted in milliseconds from this reading of the monotonic clock.
    epoch: Instant,
}

fn is_block_processing_thread(thread_name: &Option<String>) -> (r: bool)
    ensures
        r == on_block_processing_thread(*thread_name),
{
    match thread_name {
        Some(n) => {
            let expected = "Blck processing".to_owned();
            *n == expected
        },
        None => false,
    }
}

impl LongRunningTransactionLogger {
    /// The open transactions by id.
    pub closed spec fn open_transactions(&self) -> Map<u64, TxnStats> {
        self.stats@
    }

    pub closed spec fn config(&self) -> TxnTrackingConfig {
        self.config
    }

    pub closed spec fn batch_max_ms(&self) -> u64 {
        self.block_processor_batch_max_time_ms
    }

    pub fn new(config: TxnTrackingConfig, block_processor_batch_max_time_ms: u64) -> (r: Self)
        ensures
            r.open_transactions() == Map::<u64, TxnStats>::empty(),
            r.config() == config,
            r.batch_max_ms() == block_processor_batch_max_time_ms,
    {
        LongRunningTransactionLogger { stats: HashMap::new(), config, block_processor_batch_max_time_ms, epoch: instant_now() }
    }

    /// Records that the transaction was opened at `now` on the named thread.
    pub fn add_at(&mut self, txn_id: u64, is_write: bool, thread_name: Option<String>, now: u64)
        ensures
            final(self).open_transactions() == old(self).open_transactions().insert(
                txn_id,
                TxnStats { is_write, start_ms: now, thread_name },
            ),
            final(self).config() == old(self).config(),
            final(self).batch_max_ms() == old(self).batch_max_ms(),
    {
        self.stats.insert(txn_id, TxnStats { is_write, start_ms: now, thread_name });
    }

    /// Records that the transaction was opened now, on the monotonic clock.
    pub fn add(&mut self, txn_id: u64, is_write: bool, thread_name: Option<String>)
        ensures
            exists|now: u64| final(self).open_transactions() == old(self).open_transactions().insert(
                txn_id,
                TxnStats { is_write, start_ms: now, thread_name },
            ),
            final(self).config() == old(self).config(),
            final(self).batch_max_ms() == old(self).batch_max_ms(),
    {
        let now = millis_since(&self.epoch);
        self.add_at(txn_id, is_write, thread_name, now);
    }

    /// Records that the transaction was closed at `now`. Returns the report to make when
    /// it was held open too long.
    pub fn erase_at(&mut self, txn_id: u64, is_write: bool, now: u64) -> (r: Option<HeldTooLong>)
        ensures
            final(self).open_transactions() == old(self).open_transactions().remove(txn_id),
            final(self).config() == old(self).config(),
            final(self).batch_max_ms() == old(self).batch_max_ms(),
            !old(self).open_transactions().contains_key(txn_id) ==> r is None,
            old(self).open_transactions().contains_key(txn_id) ==> ({
                let t = old(self).open_transactions()[txn_id];
                let open = elapsed_ms(t.start_ms, now);
                if held_too_long(old(self).config(), old(self).batch_max_ms(), t.is_write,
                    on_block_processing_thread(t.thread_name), open) {
                    r matches Some(h) && h.time_open_ms == open && h.is_write == t.is_write
                        && h.thread_name == t.thread_name
                } else {
                    r is None
                }
            }),
    {
        let entry = self.stats.remove(&txn_id);
        match entry {
            Some(t) => {
                let open = if now >= t.start_ms { now - t.start_ms } else { 0 };
                if self.should_report(&t, open) {
                    Some(HeldTooLong { time_open_ms: open, is_write: t.is_write, thread_name: t.thread_name })
                } else {
                    None
                }
            },
            None => None,
        }
    }

    /// Records that the transaction was closed now, on the monotonic clock.
    pub fn erase(&mut self, txn_id: u64, is_write: bool) -> (r: Option<HeldTooLong>)
        ensures
            final(self).open_transactions() == old(self).open_transactions().remove(txn_id),
            final(self).config() == old(self).config(),
            final(self).batch_max_ms() == old(self).batch_max_ms(),
            !old(self).open_transactions().contains_key(txn_id) ==> r is None,
            r matches Some(h) ==> h.is_write == old(self).open_transactions()[txn_id].is_write
                && h.thread_name == old(self).open_transactions()[txn_id].thread_name,
    {
        let now = millis_since(&self.epoch);
        self.erase_at(txn_id, is_write, now)
    }

    fn should_report(&self, t: &TxnStats, time_open_ms: u64) -> (r: bool)
        ensures
            r == held_too_long(self.config, self.block_processor_batch_max_time_ms, t.is_write,
                on_block_processing_thread(t.thread_name), time_open_ms),
    {
        let below_max_time = time_open_ms <= BATCH_TIME_SLACK_MS
            || time_open_ms - BATCH_TIME_SLACK_MS <= self.block_processor_batch_max_time_ms;
        if self.config.ignore_writes_below_block_processor_max_time
            && is_block_processing_thread(&t.thread_name)
            && t.is_write
            && below_max_time
        {
            return false;
        }
        (t.is_write && time_open_ms >= self.config.min_write_txn_time_ms as u64)
            || (!t.is_write && time_open_ms >= self.config.min_read_txn_time_ms as u64)
    }
}

} // verus!
