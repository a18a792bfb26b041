//! The progress tracker: success/failure counters shared by every in-flight
//! job, snapshots that derive throughput and an estimated time remaining,
//! and the periodic reporter, which must be cancelled when the batch
//! completes and emits nothing afterwards.

use vstd::prelude::*;

verus! {

/// Counters for one batch: how many jobs succeeded and failed so far, out
/// of a fixed total. Created at batch start, updated by every finishing
/// job, read by the reporter, and discarded after the final summary.
#[derive(Clone, Copy, Debug, PartialEq, Eq, Structural)]
pub struct ProgressState {
    pub succeeded: usize,
    pub failed: usize,
    pub total: usize,
}

impl ProgressState {
    /// The tracker's invariant: never more outcomes than jobs. The two
    /// counts reach the total exactly once, when the batch completes.
    pub open spec fn wf(self) -> bool {
        self.succeeded + self.failed <= self.total
    }

    /// How many jobs have settled, one way or the other.
    pub open spec fn processed(self) -> int {
        self.succeeded + self.failed
    }

    pub fn new(total: usize) -> (r: Self)
        ensures
            r.wf(),
            r == (ProgressState { succeeded: 0, failed: 0, total }),
    {
        ProgressState { succeeded: 0, failed: 0, total }
    }

    /// Records one successful job.
    pub fn record_success(&mut self)
        requires
            old(self).wf(),
            old(self).processed() < old(self).total,
        ensures
            final(self).wf(),
            *final(self) == (ProgressState {
                succeeded: (old(self).succeeded + 1) as usize,
                ..*old(self)
            }),
    {
        self.succeeded = self.succeeded + 1;
    }

    /// Records one failed job.
    pub fn record_failure(&mut self)
        requires
            old(self).wf(),
            old(self).processed() < old(self).total,
        ensures
            final(self).wf(),
            *final(self) == (ProgressState {
                failed: (old(self).failed + 1) as usize,
                ..*old(self)
            }),
    {
        self.failed = self.failed + 1;
    }

    /// Records `n` failed jobs at once (for lines rejected before any
    /// remote work starts).
    pub fn record_failures(&mut self, n: usize)
        requires
            old(self).wf(),
            old(self).processed() + n <= old(self).total,
        ensures
            final(self).wf(),
            *final(self) == (ProgressState {
                failed: (old(self).failed + n) as usize,
                ..*old(self)
            }),
    {
        self.failed = self.failed + n;
    }

    /// Takes a point-in-time snapshot, as `snapshot_model` describes.
    pub fn snapshot(&self, elapsed_seconds: u64) -> (r: Snapshot)
        requires
            self.wf(),
        ensures
            r == snapshot_model(*self, elapsed_seconds),
    {
        let processed = self.succeeded + self.failed;
        let rate: u64 = if elapsed_seconds == 0 {
            0
        } else {
            processed as u64 / elapsed_seconds
        };
        let remaining_seconds: u64 = if processed == 0 || elapsed_seconds == 0 {
            0
        } else {
            let rem = (self.total - processed) as u128;
            proof {
                assert((rem as int) * (elapsed_seconds as int) <= 0xFFFFFFFFFFFFFFFFu64 as int
                    * 0xFFFFFFFFFFFFFFFFu64 as int) by (nonlinear_arith)
                    requires
                        0 <= rem as int <= 0xFFFFFFFFFFFFFFFFu64 as int,
                        0 <= elapsed_seconds as int <= 0xFFFFFFFFFFFFFFFFu64 as int,
                ;
            }
            let q = rem * (elapsed_seconds as u128) / (processed as u128);
            if q > u64::MAX as u128 {
                u64::MAX
            } else {
                q as u64
            }
        };
        Snapshot {
            succeeded: self.succeeded,
            failed: self.failed,
            total: self.total,
            elapsed_seconds,
            rate_per_second: rate,
            remaining_seconds,
        }
    }
}

/// A point-in-time view of a batch: the counts, how long the batch has
/// been running, and what they imply about throughput and time remaining.
#[derive(Clone, Copy, Debug, PartialEq, Eq, Structural)]
pub struct Snapshot {
    pub succeeded: usize,
    pub failed: usize,
    pub total: usize,
    pub elapsed_seconds: u64,
    pub rate_per_second: u64,
    pub remaining_seconds: u64,
}

/// Throughput in whole jobs per second: processed count divided by elapsed
/// seconds, and 0 before any time has passed.
pub open spec fn spec_rate(processed: int, elapsed: int) -> int {
    if elapsed == 0 {
        0
    } else {
        processed / elapsed
    }
}

/// Estimated seconds remaining: the unprocessed count divided by the rate
/// `processed / elapsed`, evaluated without intermediate rounding as
/// `(total - processed) * elapsed / processed`; 0 while nothing has been
/// processed or no time has passed, and capped at `u64::MAX`.
pub open spec fn spec_remaining(total: int, processed: int, elapsed: int) -> int {
    if processed == 0 || elapsed == 0 {
        0
    } else {
        let eta = (total - processed) * elapsed / processed;
        if eta > u64::MAX {
            u64::MAX as int
        } else {
            eta
        }
    }
}

/// What a snapshot of the given tracker at the given elapsed time holds.
pub open spec fn snapshot_model(p: ProgressState, elapsed_seconds: u64) -> Snapshot {
    Snapshot {
        succeeded: p.succeeded,
        failed: p.failed,
        total: p.total,
        elapsed_seconds,
        rate_per_second: spec_rate(p.processed(), elapsed_seconds as int) as u64,
        remaining_seconds: spec_remaining(
            p.total as int,
            p.processed(),
            elapsed_seconds as int,
        ) as u64,
    }
}

/// The periodic reporter. While the batch runs it emits a snapshot on each
/// tick; once cancelled it emits nothing, ever. Cancelling it is an
/// explicit step the executor takes immediately after the last job
/// settles, never a side effect of anything else.
#[derive(Clone, Copy, Debug, PartialEq, Eq, Structural)]
pub struct Reporter {
    pub cancelled: bool,
}

/// What one tick of the reporter emits: a snapshot while it is live,
/// nothing once it has been cancelled.
pub open spec fn tick_model(rep: Reporter, p: ProgressState, elapsed_seconds: u64) -> Option<
    Snapshot,
> {
    if rep.cancelled {
        None
    } else {
        Some(snapshot_model(p, elapsed_seconds))
    }
}

impl Reporter {
    pub fn new() -> (r: Self)
        ensures
            !r.cancelled,
    {
        Reporter { cancelled: false }
    }

    /// Stops the reporter for good.
    pub fn cancel(&mut self)
        ensures
            final(self).cancelled,
    {
        self.cancelled = true;
    }

    /// One timer tick, as `tick_model` describes.
    pub fn tick(&self, progress: &ProgressState, elapsed_seconds: u64) -> (r: Option<Snapshot>)
        requires
            progress.wf(),
        ensures
            r == tick_model(*self, *progress, elapsed_seconds),
    {
        if self.cancelled {
            None
        } else {
            Some(progress.snapshot(elapsed_seconds))
        }
    }
}

/// Once the reporter has been cancelled, no tick emits anything: the
/// periodic output stops for good when the batch completes.
pub proof fn lemma_cancelled_reporter_is_silent(
    rep: Reporter,
    p: ProgressState,
    elapsed_seconds: u64,
)
    requires
        rep.cancelled,
    ensures
        tick_model(rep, p, elapsed_seconds) is None,
{
}

} // verus!
