//! Retry policy of the download pipeline: exponential backoff over a bounded
//! number of attempts, where only transport errors are retried.
use vstd::arithmetic::power::pow;
use vstd::prelude::*;

verus! {

/// The first backoff delay, in milliseconds.
pub const BACKOFF_BASE_MS: u64 = 10;

/// Attempts made for one download, the first one included.
pub const MAX_ATTEMPTS: usize = 3;

/// Delay number `k` (from zero) of an exponential backoff that starts at `base`
/// milliseconds: `base` to the power `k + 1`, saturating at `u64::MAX`.
pub open spec fn backoff_delay(base: u64, k: nat) -> u64 {
    if pow(base as int, k + 1) <= u64::MAX as int {
        pow(base as int, k + 1) as u64
    } else {
        u64::MAX
    }
}

/// Relies on tokio_retry::strategy::ExponentialBackoff::from_millis: its k-th
/// delay is `base` to the power `k + 1` milliseconds, saturating at `u64::MAX`,
/// and the iterator never ends.
#[verifier::external_body]
fn exponential_backoff(base: u64, count: usize) -> (r: Vec<u64>)
    ensures
        r@.len() == count,
        forall|k: int| 0 <= k < count ==> r@[k] == backoff_delay(base, k as nat),
{
    tokio_retry::strategy::ExponentialBackoff::from_millis(base)
        .take(count)
        .map(|d| d.as_millis() as u64)
        .collect()
}

/// What one attempt at a source came to.
#[derive(Clone, Copy, Debug, PartialEq, Eq, Structural)]
pub enum AttemptOutcome {
    /// The source answered with the object.
    Found,
    /// The source answered that it does not hold the object.
    Absent,
    /// The transport failed (timeout, reset, server error).
    TransportError,
}

/// What the pipeline does after an attempt.
#[derive(Clone, Copy, Debug, PartialEq, Eq, Structural)]
pub enum RetryStep {
    /// Stop: the object was found.
    Found,
    /// Stop: the source confirmed that the object is absent.
    Absent,
    /// Wait this many milliseconds (before jitter), then try again.
    RetryAfter(u64),
    /// Stop: every attempt failed in transport; the source failed for this request.
    Exhausted,
}

/// The backoff schedule of the download pipeline: one delay before each attempt
/// after the first.
pub struct RetryPolicy {
    delays: Vec<u64>,
}

impl RetryPolicy {
    pub closed spec fn wf(&self) -> bool {
        &&& self.delays@.len() == MAX_ATTEMPTS - 1
        &&& forall|k: int|
            0 <= k < MAX_ATTEMPTS - 1 ==> self.delays@[k] == backoff_delay(BACKOFF_BASE_MS, k as nat)
    }

    /// The policy of every source: three attempts, waiting 10 ms, then 100 ms.
    pub fn new() -> (r: RetryPolicy)
        ensures
            r.wf(),
    {
        RetryPolicy { delays: exponential_backoff(BACKOFF_BASE_MS, MAX_ATTEMPTS - 1) }
    }

    /// The step after attempt number `attempt` (from one) came to `outcome`.
    pub fn next_step(&self, attempt: usize, outcome: AttemptOutcome) -> (r: RetryStep)
        requires
            self.wf(),
            1 <= attempt <= MAX_ATTEMPTS,
        ensures
            outcome == AttemptOutcome::Found ==> r == RetryStep::Found,
            outcome == AttemptOutcome::Absent ==> r == RetryStep::Absent,
            outcome == AttemptOutcome::TransportError && attempt < MAX_ATTEMPTS ==> r
                == RetryStep::RetryAfter(backoff_delay(BACKOFF_BASE_MS, (attempt - 1) as nat)),
            outcome == AttemptOutcome::TransportError && attempt == MAX_ATTEMPTS ==> r
                == RetryStep::Exhausted,
    {
        match outcome {
            AttemptOutcome::Found => RetryStep::Found,
            AttemptOutcome::Absent => RetryStep::Absent,
            AttemptOutcome::TransportError => {
                if attempt < MAX_ATTEMPTS {
                    RetryStep::RetryAfter(self.delays[attempt - 1])
                } else {
                    RetryStep::Exhausted
                }
            },
        }
    }
}

} // verus!
