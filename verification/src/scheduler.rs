//! Scheduler bookkeeping: the batched, offset-paginated walk over active
//! feeds, and the aggregation of per-batch successes and errors. The tick
//! loop and the persistence reads are the caller's.

use vstd::prelude::*;

verus! {

/// How many feeds one batch holds.
pub const BATCH_SIZE: i64 = 50;

/// Progress of one pass over the active feeds: the pagination offset and
/// the running totals.
pub struct BatchRun {
    pub offset: i64,
    pub total_feeds: usize,
    pub total_success: usize,
    pub total_errors: usize,
}

impl BatchRun {
    /// A fresh pass starts at offset zero with zero totals.
    pub fn new() -> (r: BatchRun)
        ensures
            r.offset == 0,
            r.total_feeds == 0,
            r.total_success == 0,
            r.total_errors == 0,
    {
        BatchRun { offset: 0, total_feeds: 0, total_success: 0, total_errors: 0 }
    }

    /// Record one processed batch and decide whether another follows: the
    /// offset advances by the batch size, the totals grow, and a batch
    /// shorter than the batch size — or an empty one — signals the end.
    pub fn record_batch(&mut self, batch_len: usize, successes: usize, errors: usize) -> (more:
        bool)
        requires
            successes + errors == batch_len,
            batch_len <= BATCH_SIZE,
            old(self).offset + BATCH_SIZE <= i64::MAX,
            old(self).total_feeds + batch_len <= usize::MAX,
            old(self).total_success + successes <= usize::MAX,
            old(self).total_errors + errors <= usize::MAX,
        ensures
            final(self).offset == old(self).offset + BATCH_SIZE,
            final(self).total_feeds == old(self).total_feeds + batch_len,
            final(self).total_success == old(self).total_success + successes,
            final(self).total_errors == old(self).total_errors + errors,
            more == (batch_len == BATCH_SIZE),
    {
        self.offset = self.offset + BATCH_SIZE;
        self.total_feeds = self.total_feeds + batch_len;
        self.total_success = self.total_success + successes;
        self.total_errors = self.total_errors + errors;
        batch_len as i64 == BATCH_SIZE
    }
}

} // verus!
