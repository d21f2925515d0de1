//! The downloader: the shared permit pool and downloader-wide cancellation
//! signal every transfer of an engine instance goes through, and the retry
//! policy wrapped around each attempt.

use vstd::prelude::*;

use crate::limiter::Limiter;
use crate::model::{DownloadStatus, Settings};

verus! {

/// The shared state of one download engine instance: a permit pool bounding
/// simultaneous transfers, and a signal that cancels them all.
pub struct Downloader {
    pub semaphore: Limiter,
    pub cancel_token: tokio_util::sync::CancellationToken,
}

impl Downloader {
    pub open spec fn wf(&self) -> bool {
        self.semaphore.wf()
    }

    /// An engine sized to the settings' configured concurrency, never below
    /// one.
    pub fn new(settings: &Settings) -> (r: Self)
        ensures
            r.wf(),
            r.semaphore.capacity == if settings.max_concurrent >= 1 {
                settings.max_concurrent as int
            } else {
                1
            },
            r.semaphore.available == r.semaphore.capacity,
    {
        Downloader {
            semaphore: Limiter::new(settings.max_concurrent),
            cancel_token: tokio_util::sync::CancellationToken::new(),
        }
    }

    /// An engine sized to an explicit concurrency, never below one.
    pub fn with_concurrency(settings: &Settings, concurrency: usize) -> (r: Self)
        ensures
            r.wf(),
            r.semaphore.capacity == if concurrency >= 1 {
                concurrency as int
            } else {
                1
            },
            r.semaphore.available == r.semaphore.capacity,
    {
        let _ = settings;
        Downloader {
            semaphore: Limiter::new(concurrency),
            cancel_token: tokio_util::sync::CancellationToken::new(),
        }
    }

    /// Trips the engine-wide cancellation signal.
    pub fn cancel_all(&self) {
        self.cancel_token.cancel();
    }
}

/// What one attempt of a transfer came to: a terminal status, or a
/// transport-level error worth retrying.
pub enum AttemptResult {
    Finished(DownloadStatus),
    Errored(String),
}

/// What the retry policy orders after an attempt: stop with a terminal
/// status, or back off for some milliseconds and try again.
pub enum NextMove {
    Stop(DownloadStatus),
    Backoff(u64),
}

/// The backoff before attempt number `n`: `n` times the base delay, capped
/// at the largest representable value.
pub open spec fn spec_backoff(n: int, backoff_ms: u64) -> u64 {
    (if backoff_ms * n > u64::MAX {
        u64::MAX as int
    } else {
        backoff_ms * n
    }) as u64
}

/// The decision after one attempt: success and terminal outcomes stop; an
/// error retries with backoff until the configured count is exhausted, then
/// fails with the error's message.
pub open spec fn spec_retry_decide(
    attempt: u32,
    outcome: AttemptResult,
    retries: u32,
    backoff_ms: u64,
) -> NextMove {
    match outcome {
        AttemptResult::Finished(st) => NextMove::Stop(st),
        AttemptResult::Errored(msg) => if attempt + 1 > retries {
            NextMove::Stop(DownloadStatus::Failed(msg))
        } else {
            NextMove::Backoff(spec_backoff(attempt + 1, backoff_ms))
        },
    }
}

/// Decides what follows the attempt numbered `attempt` (counting from
/// zero) given its outcome.
pub fn retry_decide(attempt: u32, outcome: AttemptResult, retries: u32, backoff_ms: u64) -> (r:
    NextMove)
    requires
        attempt < u32::MAX,
    ensures
        r == spec_retry_decide(attempt, outcome, retries, backoff_ms),
{
    match outcome {
        AttemptResult::Finished(st) => NextMove::Stop(st),
        AttemptResult::Errored(msg) => {
            let next = attempt + 1;
            if next > retries {
                NextMove::Stop(DownloadStatus::Failed(msg))
            } else {
                proof {
                    assert((backoff_ms as int) * (next as int) <= (u64::MAX as int) * (
                    u32::MAX as int)) by (nonlinear_arith)
                        requires
                            backoff_ms <= u64::MAX,
                            next <= u32::MAX,
                    ;
                }
                let wide: u128 = (backoff_ms as u128) * (next as u128);
                let delay: u64 = if wide > u64::MAX as u128 {
                    u64::MAX
                } else {
                    wide as u64
                };
                NextMove::Backoff(delay)
            }
        },
    }
}

/// Checked before each attempt: a tripped cancellation signal
/// short-circuits the remaining retries.
pub fn pre_attempt(cancelled: bool) -> (r: Option<DownloadStatus>)
    ensures
        cancelled ==> (r matches Some(st) && st is Canceled),
        !cancelled ==> r is None,
{
    if cancelled {
        Some(DownloadStatus::Canceled)
    } else {
        None
    }
}

/// Law: a transfer that fails once and then succeeds, with at least one
/// retry allowed, backs off by one base delay after the failure and ends
/// Completed with the bytes of the successful attempt.
pub proof fn lemma_retry_then_success(
    err: String,
    size: u64,
    path: String,
    retries: u32,
    backoff_ms: u64,
)
    requires
        retries >= 1,
    ensures
        spec_retry_decide(0, AttemptResult::Errored(err), retries, backoff_ms)
            == NextMove::Backoff(backoff_ms),
        spec_retry_decide(
            1,
            AttemptResult::Finished(DownloadStatus::Completed { size, path }),
            retries,
            backoff_ms,
        ) == NextMove::Stop(DownloadStatus::Completed { size, path }),
{
    assert(spec_backoff(1, backoff_ms) == backoff_ms);
}

} // verus!
