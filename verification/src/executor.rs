//! The batch executor: fans a list of transfer jobs out under a
//! concurrency cap, records each job's outcome, and aggregates the final
//! result. The admission gate is a counting state: a job must take one of
//! `cap` slots before its remote call and gives the slot back when the
//! call settles, whatever the outcome. No single job's failure ever
//! unwinds the batch.

use vstd::prelude::*;

use crate::jobs::TransferJob;
use crate::progress::Reporter;

verus! {

/// What the remote storage client reported for one job. A copy that came
/// back without a result object or without an ETag is still a success:
/// the absence is only warned about, preserving the tool's tolerance for
/// partial responses.
#[derive(Clone, Copy, Debug, PartialEq, Eq, Structural)]
pub enum RemoteOutcome {
    /// The remote call failed; the job is counted as failed.
    Failed,
    /// The remote call succeeded and the response was complete.
    Done,
    /// The copy succeeded but the response held no result object.
    DoneMissingResult,
    /// The copy succeeded but the result object held no ETag.
    DoneMissingETag,
}

/// Whether an outcome counts as a success. Everything but an outright
/// failure does.
pub open spec fn outcome_succeeded(o: RemoteOutcome) -> bool {
    !(o is Failed)
}

/// Returns whether the outcome counts as a success.
pub fn is_success(o: &RemoteOutcome) -> (r: bool)
    ensures
        r == outcome_succeeded(*o),
{
    match o {
        RemoteOutcome::Failed => false,
        _ => true,
    }
}

/// The warning an incomplete successful response deserves, if any.
pub fn outcome_warning(o: &RemoteOutcome) -> (r: Option<String>)
    ensures
        match *o {
            RemoteOutcome::DoneMissingResult => r matches Some(m) && m@
                == "No CopyObjectResult found"@,
            RemoteOutcome::DoneMissingETag => r matches Some(m) && m@ == "No ETag found"@,
            _ => r is None,
        },
{
    match o {
        RemoteOutcome::DoneMissingResult => Some(String::from_str("No CopyObjectResult found")),
        RemoteOutcome::DoneMissingETag => Some(String::from_str("No ETag found")),
        _ => None,
    }
}

/// An incomplete response is warned about, never counted as a failure.
pub proof fn lemma_lenient_success(o: RemoteOutcome)
    requires
        o is DoneMissingResult || o is DoneMissingETag,
    ensures
        outcome_succeeded(o),
{
}

/// How many of the outcomes count as successes.
pub open spec fn success_count(outcomes: Seq<RemoteOutcome>) -> nat
    decreases outcomes.len(),
{
    if outcomes.len() == 0 {
        0
    } else {
        (if outcome_succeeded(outcomes[0]) {
            1nat
        } else {
            0
        }) + success_count(outcomes.drop_first())
    }
}

pub proof fn lemma_success_count_bound(outcomes: Seq<RemoteOutcome>)
    ensures
        success_count(outcomes) <= outcomes.len(),
    decreases outcomes.len(),
{
    if outcomes.len() > 0 {
        lemma_success_count_bound(outcomes.drop_first());
    }
}

proof fn lemma_success_count_push(outcomes: Seq<RemoteOutcome>, o: RemoteOutcome)
    ensures
        success_count(outcomes.push(o)) == success_count(outcomes) + (if outcome_succeeded(o) {
            1nat
        } else {
            0
        }),
    decreases outcomes.len(),
{
    if outcomes.len() == 0 {
        assert(outcomes.push(o)[0] == o);
        assert(outcomes.push(o).drop_first() =~= Seq::<RemoteOutcome>::empty());
    } else {
        assert(outcomes.push(o)[0] == outcomes[0]);
        assert(outcomes.push(o).drop_first() =~= outcomes.drop_first().push(o));
        lemma_success_count_push(outcomes.drop_first(), o);
        assert(success_count(outcomes.push(o)) == (if outcome_succeeded(outcomes[0]) {
            1nat
        } else {
            0
        }) + success_count(outcomes.drop_first().push(o)));
    }
}

/// When every outcome succeeded, every job is counted as a success.
pub proof fn lemma_success_count_all(outcomes: Seq<RemoteOutcome>)
    requires
        forall|i: int| 0 <= i < outcomes.len() ==> outcome_succeeded(outcomes[i]),
    ensures
        success_count(outcomes) == outcomes.len(),
    decreases outcomes.len(),
{
    if outcomes.len() > 0 {
        assert(forall|i: int|
            0 <= i < outcomes.drop_first().len() ==> #[trigger] outcomes.drop_first()[i]
                == outcomes[i + 1]);
        lemma_success_count_all(outcomes.drop_first());
    }
}

/// The executor's bookkeeping for one batch of `total` jobs under a cap of
/// `cap` concurrent slots: how many jobs were launched (took a slot), how
/// many are in flight (past the acquire step, not yet settled), and how
/// many settled each way.
#[derive(Clone, Copy, Debug, PartialEq, Eq, Structural)]
pub struct BatchState {
    pub cap: usize,
    pub total: usize,
    pub launched: usize,
    pub in_flight: usize,
    pub succeeded: usize,
    pub failed: usize,
}

impl BatchState {
    /// The executor's invariant. In particular `in_flight <= cap`: at no
    /// point are more than `cap` jobs past the acquire step.
    pub open spec fn wf(self) -> bool {
        &&& self.cap >= 1
        &&& self.launched <= self.total
        &&& self.succeeded + self.failed + self.in_flight == self.launched
        &&& self.in_flight <= self.cap
    }

    /// All jobs launched and none left in flight.
    pub open spec fn done(self) -> bool {
        self.launched == self.total && self.in_flight == 0
    }

    pub fn new(total: usize, cap: usize) -> (r: Self)
        requires
            cap >= 1,
        ensures
            r.wf(),
            r == (BatchState { cap, total, launched: 0, in_flight: 0, succeeded: 0, failed: 0 }),
    {
        BatchState { cap, total, launched: 0, in_flight: 0, succeeded: 0, failed: 0 }
    }

    /// Admits the next job when one is pending and a slot is free; the
    /// admitted job is then past the acquire step. Returns whether a job
    /// was admitted.
    pub fn try_launch(&mut self) -> (admitted: bool)
        requires
            old(self).wf(),
        ensures
            final(self).wf(),
            admitted == (old(self).launched < old(self).total && old(self).in_flight < old(
                self,
            ).cap),
            admitted ==> *final(self) == (BatchState {
                launched: (old(self).launched + 1) as usize,
                in_flight: (old(self).in_flight + 1) as usize,
                ..*old(self)
            }),
            !admitted ==> *final(self) == *old(self),
    {
        if self.launched < self.total && self.in_flight < self.cap {
            self.launched = self.launched + 1;
            self.in_flight = self.in_flight + 1;
            true
        } else {
            false
        }
    }

    /// Settles one in-flight job, giving its slot back whatever the
    /// outcome was.
    pub fn complete(&mut self, success: bool)
        requires
            old(self).wf(),
            old(self).in_flight > 0,
        ensures
            final(self).wf(),
            success ==> *final(self) == (BatchState {
                in_flight: (old(self).in_flight - 1) as usize,
                succeeded: (old(self).succeeded + 1) as usize,
                ..*old(self)
            }),
            !success ==> *final(self) == (BatchState {
                in_flight: (old(self).in_flight - 1) as usize,
                failed: (old(self).failed + 1) as usize,
                ..*old(self)
            }),
    {
        self.in_flight = self.in_flight - 1;
        if success {
            self.succeeded = self.succeeded + 1;
        } else {
            self.failed = self.failed + 1;
        }
    }

    pub fn is_done(&self) -> (r: bool)
        ensures
            r == self.done(),
    {
        self.launched == self.total && self.in_flight == 0
    }

    /// A finished batch accounts for every job: exactly `total` outcomes,
    /// split between successes and failures.
    pub proof fn lemma_done_accounts(self)
        requires
            self.wf(),
            self.done(),
        ensures
            self.succeeded + self.failed == self.total,
    {
    }
}

/// One scheduling event: a job is admitted past the acquire step, or an
/// in-flight job settles with the given success.
pub enum BatchEvent {
    Launch,
    Complete(bool),
}

/// Whether an event can fire in the given state: a launch needs a pending
/// job and a free slot, a completion needs an in-flight job.
pub open spec fn event_enabled(s: BatchState, e: BatchEvent) -> bool {
    match e {
        BatchEvent::Launch => s.launched < s.total && s.in_flight < s.cap,
        BatchEvent::Complete(_) => s.in_flight > 0,
    }
}

/// The state after one event fires.
pub open spec fn step(s: BatchState, e: BatchEvent) -> BatchState {
    match e {
        BatchEvent::Launch => BatchState {
            launched: (s.launched + 1) as usize,
            in_flight: (s.in_flight + 1) as usize,
            ..s
        },
        BatchEvent::Complete(success) => if success {
            BatchState {
                in_flight: (s.in_flight - 1) as usize,
                succeeded: (s.succeeded + 1) as usize,
                ..s
            }
        } else {
            BatchState {
                in_flight: (s.in_flight - 1) as usize,
                failed: (s.failed + 1) as usize,
                ..s
            }
        },
    }
}

/// Whether a whole schedule is admissible from `s`: each event is enabled
/// in the state the previous ones produced.
pub open spec fn events_ok(s: BatchState, es: Seq<BatchEvent>) -> bool
    decreases es.len(),
{
    es.len() == 0 || (event_enabled(s, es[0]) && events_ok(step(s, es[0]), es.drop_first()))
}

/// The state a whole schedule produces from `s`.
pub open spec fn run_events(s: BatchState, es: Seq<BatchEvent>) -> BatchState
    decreases es.len(),
{
    if es.len() == 0 {
        s
    } else {
        run_events(step(s, es[0]), es.drop_first())
    }
}

proof fn lemma_step_preserves_wf(s: BatchState, e: BatchEvent)
    requires
        s.wf(),
        event_enabled(s, e),
    ensures
        step(s, e).wf(),
        step(s, e).cap == s.cap,
        step(s, e).total == s.total,
{
}

/// Bounded concurrency: under any admissible schedule, the executor never
/// has more than `cap` jobs simultaneously past the acquire step — the
/// invariant, `in_flight <= cap` included, holds in every reachable state,
/// and the cap and total never change.
pub proof fn lemma_concurrency_bounded(s: BatchState, es: Seq<BatchEvent>)
    requires
        s.wf(),
        events_ok(s, es),
    ensures
        run_events(s, es).wf(),
        run_events(s, es).in_flight <= s.cap,
        run_events(s, es).cap == s.cap,
        run_events(s, es).total == s.total,
    decreases es.len(),
{
    if es.len() > 0 {
        lemma_step_preserves_wf(s, es[0]);
        lemma_concurrency_bounded(step(s, es[0]), es.drop_first());
    }
}

/// How many of the schedule's completions succeeded.
pub open spec fn completed_successes(es: Seq<BatchEvent>) -> nat
    decreases es.len(),
{
    if es.len() == 0 {
        0
    } else {
        (if es[0] == BatchEvent::Complete(true) {
            1nat
        } else {
            0
        }) + completed_successes(es.drop_first())
    }
}

/// How many of the schedule's completions failed.
pub open spec fn completed_failures(es: Seq<BatchEvent>) -> nat
    decreases es.len(),
{
    if es.len() == 0 {
        0
    } else {
        (if es[0] == BatchEvent::Complete(false) {
            1nat
        } else {
            0
        }) + completed_failures(es.drop_first())
    }
}

/// Order independence of the tally: whatever order an admissible schedule
/// interleaves launches and completions in, the final counts are the
/// starting counts plus the number of successful and failed completions.
pub proof fn lemma_counts_from_events(s: BatchState, es: Seq<BatchEvent>)
    requires
        s.wf(),
        events_ok(s, es),
    ensures
        run_events(s, es).succeeded == s.succeeded + completed_successes(es),
        run_events(s, es).failed == s.failed + completed_failures(es),
    decreases es.len(),
{
    if es.len() > 0 {
        lemma_step_preserves_wf(s, es[0]);
        lemma_counts_from_events(step(s, es[0]), es.drop_first());
    }
}

/// The final tally of a batch: how many jobs succeeded and failed, and how
/// long the whole batch took. Derived once, after every job settled.
#[derive(Clone, Copy, Debug, PartialEq, Eq, Structural)]
pub struct BatchResult {
    pub succeeded: usize,
    pub failed: usize,
    pub elapsed_seconds: u64,
}

/// The result a batch must produce: a pure function of the job count, the
/// failures recorded before any remote work (rejected lines), the
/// outcomes, and the elapsed time. Because the result is a function of
/// these inputs alone, two runs over the same inputs give the same result.
pub open spec fn batch_result_model(
    n_jobs: nat,
    initial_failed: nat,
    outcomes: Seq<RemoteOutcome>,
    elapsed_seconds: u64,
) -> BatchResult {
    BatchResult {
        succeeded: success_count(outcomes) as usize,
        failed: (initial_failed + n_jobs - success_count(outcomes)) as usize,
        elapsed_seconds,
    }
}

/// Runs one batch to completion: admits each job under the concurrency
/// cap, settles it with its outcome (`outcomes[i]` is what the remote call
/// returned for `jobs[i]`), cancels the periodic reporter once every job
/// has settled, and returns the tally. Every job is accounted for:
/// `succeeded + failed` equals the rejected-line count plus the job count,
/// for every input, including an empty job list.
pub fn execute(
    jobs: &Vec<TransferJob>,
    outcomes: &Vec<RemoteOutcome>,
    max_concurrent: usize,
    initial_failed: usize,
    elapsed_seconds: u64,
    reporter: &mut Reporter,
) -> (r: BatchResult)
    requires
        max_concurrent >= 1,
        outcomes@.len() == jobs@.len(),
        initial_failed + jobs@.len() <= usize::MAX,
    ensures
        r == batch_result_model(
            jobs@.len() as nat,
            initial_failed as nat,
            outcomes@,
            elapsed_seconds,
        ),
        r.succeeded == success_count(outcomes@),
        r.succeeded + r.failed == initial_failed + jobs@.len(),
        final(reporter).cancelled,
{
    let total = jobs.len();
    let mut st = BatchState::new(total, max_concurrent);
    let mut c: usize = 0;
    proof {
        assert(outcomes@.take(0) =~= Seq::<RemoteOutcome>::empty());
    }
    while c < total
        invariant
            st.wf(),
            st.cap == max_concurrent,
            st.total == total,
            total == jobs@.len(),
            total == outcomes@.len(),
            0 <= c <= total,
            c <= st.launched,
            st.succeeded + st.failed == c,
            st.succeeded == success_count(outcomes@.take(c as int)),
        decreases total - c,
    {
        loop
            invariant
                st.wf(),
                st.cap == max_concurrent,
                st.total == total,
                c <= st.launched,
                st.succeeded + st.failed == c,
                st.succeeded == success_count(outcomes@.take(c as int)),
            ensures
                st.launched == st.total || st.in_flight == st.cap,
            decreases st.total - st.launched,
        {
            if !st.try_launch() {
                break ;
            }
        }
        let success = is_success(&outcomes[c]);
        st.complete(success);
        proof {
            assert(outcomes@.take(c + 1) =~= outcomes@.take(c as int).push(outcomes@[c as int]));
            lemma_success_count_push(outcomes@.take(c as int), outcomes@[c as int]);
        }
        c = c + 1;
    }
    proof {
        assert(outcomes@.take(total as int) =~= outcomes@);
        lemma_success_count_bound(outcomes@);
    }
    reporter.cancel();
    BatchResult {
        succeeded: st.succeeded,
        failed: initial_failed + st.failed,
        elapsed_seconds,
    }
}

/// Idempotence: when every outcome succeeds, the tally is exactly the job
/// count succeeded and only the pre-recorded failures failed — and since
/// `execute` returns `batch_result_model` of its inputs, running the same
/// batch twice gives this same result both times.
pub proof fn lemma_all_success_result(
    n_jobs: nat,
    initial_failed: nat,
    outcomes: Seq<RemoteOutcome>,
    elapsed_seconds: u64,
)
    requires
        outcomes.len() == n_jobs,
        forall|i: int| 0 <= i < outcomes.len() ==> outcome_succeeded(outcomes[i]),
        initial_failed + n_jobs <= usize::MAX,
    ensures
        batch_result_model(n_jobs, initial_failed, outcomes, elapsed_seconds) == (BatchResult {
            succeeded: n_jobs as usize,
            failed: initial_failed as usize,
            elapsed_seconds,
        }),
{
    lemma_success_count_all(outcomes);
}

} // verus!
