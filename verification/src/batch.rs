//! Per-job lifecycle and batch accounting: a job moves from pending
//! through running to exactly one terminal state, and every job of a
//! finished batch is accounted for, failures included.
use vstd::prelude::*;
use vstd::string::*;

verus! {

/// The lifecycle of one conversion job.
#[derive(PartialEq, Eq, Structural, Clone, Copy, Debug)]
pub enum JobState {
    Pending,
    Running,
    Succeeded,
    Failed,
}

/// The transitions a job may take: it starts once and ends once, in
/// success or in failure; there is no retry and no cancellation.
pub open spec fn step_ok(from: JobState, to: JobState) -> bool {
    ||| (from == JobState::Pending && to == JobState::Running)
    ||| (from == JobState::Running && (to == JobState::Succeeded || to == JobState::Failed))
}

/// Whether a job has finished, in success or in failure.
pub open spec fn is_terminal(s: JobState) -> bool {
    s == JobState::Succeeded || s == JobState::Failed
}

/// Marks a pending job as launched.
pub fn start_job(s: JobState) -> (r: JobState)
    requires
        s == JobState::Pending,
    ensures
        r == JobState::Running,
        step_ok(s, r),
{
    JobState::Running
}

/// Marks a running job with its invocation's outcome.
pub fn finish_job(s: JobState, exit_ok: bool) -> (r: JobState)
    requires
        s == JobState::Running,
    ensures
        step_ok(s, r),
        is_terminal(r),
        r == (if exit_ok { JobState::Succeeded } else { JobState::Failed }),
{
    if exit_ok {
        JobState::Succeeded
    } else {
        JobState::Failed
    }
}

/// Whether every job of a batch has finished; the driver returns only
/// once this holds.
pub fn all_done(states: &Vec<JobState>) -> (r: bool)
    ensures
        r == forall|i: int| 0 <= i < states@.len() ==> is_terminal(#[trigger] states@[i]),
{
    let mut i: usize = 0;
    while i < states.len()
        invariant
            i <= states@.len(),
            forall|k: int| 0 <= k < i ==> is_terminal(#[trigger] states@[k]),
        decreases states@.len() - i,
    {
        let s = states[i];
        if !(s == JobState::Succeeded || s == JobState::Failed) {
            return false;
        }
        i = i + 1;
    }
    true
}

/// What one finished invocation produced: the concatenated output streams
/// on success, the captured error stream on failure.
pub enum JobOutcome {
    Succeeded(String),
    Failed(String),
}

/// Classifies one invocation's result: a zero exit status succeeds with
/// standard output and standard error concatenated; a non-zero one fails
/// with the captured error stream.
pub fn classify_outcome(exit_ok: bool, stdout: String, stderr: String) -> (r: JobOutcome)
    ensures
        exit_ok ==> (r matches JobOutcome::Succeeded(out) && out@ == stdout@ + stderr@),
        !exit_ok ==> (r matches JobOutcome::Failed(e) && e@ == stderr@),
{
    if exit_ok {
        let mut out = stdout;
        out.append(stderr.as_str());
        JobOutcome::Succeeded(out)
    } else {
        JobOutcome::Failed(stderr)
    }
}

/// How many entries of a sequence of job results succeeded.
pub open spec fn count_ok(s: Seq<bool>) -> nat
    decreases s.len(),
{
    if s.len() == 0 {
        0
    } else {
        count_ok(s.drop_last()) + (if s.last() {
            1nat
        } else {
            0nat
        })
    }
}

proof fn count_ok_le_len(s: Seq<bool>)
    ensures
        count_ok(s) <= s.len(),
    decreases s.len(),
{
    if s.len() > 0 {
        count_ok_le_len(s.drop_last());
    }
}

/// Totals of a finished batch.
pub struct BatchSummary {
    pub total: usize,
    pub succeeded: usize,
    pub failed: usize,
}

/// Accounts for every job of a finished batch: each result is counted as
/// a success or as a failure, so failed jobs never hide their siblings;
/// an empty batch summarizes to zero jobs of either kind.
pub fn summarize(results: &Vec<bool>) -> (s: BatchSummary)
    ensures
        s.total == results@.len(),
        s.succeeded == count_ok(results@),
        s.failed + s.succeeded == s.total,
{
    let mut succ: usize = 0;
    let mut i: usize = 0;
    while i < results.len()
        invariant
            i <= results@.len(),
            succ == count_ok(results@.subrange(0, i as int)),
            succ <= i,
        decreases results@.len() - i,
    {
        proof {
            assert(results@.subrange(0, i + 1).drop_last() =~= results@.subrange(0, i as int));
            assert(results@.subrange(0, i + 1).last() == results@[i as int]);
        }
        if results[i] {
            succ = succ + 1;
        }
        i = i + 1;
    }
    proof {
        assert(results@.subrange(0, results@.len() as int) =~= results@);
        count_ok_le_len(results@);
    }
    BatchSummary { total: results.len(), succeeded: succ, failed: results.len() - succ }
}

} // verus!
