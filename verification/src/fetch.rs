use vstd::prelude::*;

use crate::closing::ClosingFlag;
use crate::errors::SyncError;

verus! {

/// The fixed number of additional attempts after a first failed fetch.
pub const RETRY_BUDGET: u8 = 3;

/// What the page fetcher asks of its driver next.
#[derive(Debug, PartialEq, Eq)]
pub enum FetchStep {
    /// Issue the request and report back how many bytes were written, or the
    /// transport failure.
    Issue,
    /// The fetch is over, with this outcome.
    Finished(Result<(), SyncError>),
}

/// How one attempt went, as the retry logic judges it: a body of zero bytes
/// is a transient upstream fault, not success.
pub open spec fn attempt_failure(outcome: Result<u64, SyncError>) -> Option<SyncError> {
    match outcome {
        Ok(n) => if n == 0 {
            Some(SyncError::EmptyBody)
        } else {
            None
        },
        Err(e) => Some(e),
    }
}

/// The retry state machine of one page fetch: a plain bounded loop with an
/// attempt counter and last-error capture. The driver performs the network
/// attempt whenever the machine asks for one and reports each outcome back.
pub struct PageFetch {
    /// Failed attempts so far, at most one more than the retry budget.
    pub failures: u8,
    /// The final outcome, once decided.
    pub outcome: Option<Result<(), SyncError>>,
}

/// What recording one attempt outcome does to the retry state: success
/// finishes the fetch; a failure within the retry budget asks for another
/// attempt; the failure after the last budgeted retry finishes the fetch
/// with that last error.
pub open spec fn record_spec(s: PageFetch, outcome: Result<u64, SyncError>) -> PageFetch {
    match attempt_failure(outcome) {
        None => PageFetch { failures: s.failures, outcome: Some(Ok(())) },
        Some(e) => if s.failures < RETRY_BUDGET {
            PageFetch { failures: (s.failures + 1) as u8, outcome: None }
        } else {
            PageFetch { failures: (s.failures + 1) as u8, outcome: Some(Err(e)) }
        },
    }
}

impl PageFetch {
    /// A fetch that still awaits its outcome and may still issue attempts.
    pub open spec fn pending(&self) -> bool {
        self.outcome is None && self.failures <= RETRY_BUDGET
    }

    /// A fresh fetch: no attempts made, no outcome yet.
    pub fn new() -> (r: PageFetch)
        ensures
            r.pending(),
            r.failures == 0,
    {
        PageFetch { failures: 0, outcome: None }
    }

    /// What to do next: fail fast with `Closed` before issuing any request
    /// once the process is shutting down, hand out the decided outcome, or
    /// ask for one more attempt.
    pub fn next_step(&self, flag: &ClosingFlag) -> (s: FetchStep)
        requires
            self.outcome is Some || self.failures <= RETRY_BUDGET,
        ensures
            self.outcome matches Some(r) ==> s == FetchStep::Finished(r),
            self.outcome is None && flag.is_closed() ==> s == FetchStep::Finished(
                Err(SyncError::Closed),
            ),
            self.outcome is None && !flag.is_closed() ==> s == FetchStep::Issue,
    {
        match &self.outcome {
            Some(r) => {
                let copy: Result<(), SyncError> = match r {
                    Ok(u) => Ok(*u),
                    Err(e) => Err(e.duplicate()),
                };
                FetchStep::Finished(copy)
            },
            None => {
                if crate::closing::err_if_closed(flag).is_err() {
                    FetchStep::Finished(Err(SyncError::Closed))
                } else {
                    FetchStep::Issue
                }
            },
        }
    }

    /// Records the outcome of one attempt. A non-empty body succeeds; an
    /// empty body or a transport failure consumes one unit of the retry
    /// budget, and the failure after the last budgeted retry becomes the
    /// fetch's final error — the last error seen, not the first.
    pub fn record_attempt(&mut self, outcome: Result<u64, SyncError>)
        requires
            old(self).pending(),
        ensures
            *final(self) == record_spec(*old(self), outcome),
            attempt_failure(outcome) is None ==> final(self).outcome == Some(
                Ok::<(), SyncError>(()),
            ),
            (attempt_failure(outcome) is Some && old(self).failures < RETRY_BUDGET)
                ==> final(self).pending(),
            (attempt_failure(outcome) is Some && old(self).failures == RETRY_BUDGET)
                ==> final(self).outcome == Some(Err::<(), SyncError>(attempt_failure(outcome)->0)),
    {
        let failed: Option<SyncError> = match outcome {
            Ok(n) => if n == 0 {
                Some(SyncError::EmptyBody)
            } else {
                None
            },
            Err(e) => Some(e),
        };
        match failed {
            None => {
                self.outcome = Some(Ok(()));
            },
            Some(e) => {
                self.failures = self.failures + 1;
                if self.failures > RETRY_BUDGET {
                    self.outcome = Some(Err(e));
                }
            },
        }
    }
}

/// A fetch whose first attempt and all three budgeted retries return empty
/// bodies is retried exactly three additional times and then fails with the
/// last underlying error: after each of the first three failures the machine
/// still issues another attempt, and the fourth failure is final.
pub proof fn lemma_empty_body_retry_budget(
    r1: Result<u64, SyncError>,
    r2: Result<u64, SyncError>,
    r3: Result<u64, SyncError>,
    r4: Result<u64, SyncError>,
)
    requires
        attempt_failure(r1) is Some,
        attempt_failure(r2) is Some,
        attempt_failure(r3) is Some,
        attempt_failure(r4) is Some,
    ensures
        ({
            let s0 = PageFetch { failures: 0, outcome: None };
            let s1 = record_spec(s0, r1);
            let s2 = record_spec(s1, r2);
            let s3 = record_spec(s2, r3);
            let s4 = record_spec(s3, r4);
            s1.pending() && s2.pending() && s3.pending() && s4.outcome == Some(
                Err::<(), SyncError>(attempt_failure(r4)->0),
            )
        }),
{
}

} // verus!
