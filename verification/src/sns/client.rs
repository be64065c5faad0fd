//! The decisions of publishing to SNS: whether to retry a failed publish and
//! how long to wait, and what follows a delivery.

use vstd::prelude::*;

use crate::sns::models::{classify_error, SnsError, SnsErrorView};
use crate::text::has_infix;

verus! {

/// Where a publish stands: how many retries were made, and how long the
/// next wait is.
#[derive(Clone, Copy, Debug, PartialEq, Eq, Structural)]
pub struct RetryState {
    pub retries: u32,
    pub delay_ms: u64,
}

/// The first wait before a retry, in milliseconds.
pub const INITIAL_DELAY_MS: u64 = 100;

impl RetryState {
    /// No retry made yet; the first wait is 100 ms.
    pub fn initial() -> (r: RetryState)
        ensures
            r == (RetryState { retries: 0, delay_ms: INITIAL_DELAY_MS }),
    {
        RetryState { retries: 0, delay_ms: INITIAL_DELAY_MS }
    }
}

/// What to do after a failed publish.
#[derive(Debug)]
pub enum PublishStep {
    /// Stop and report the error.
    GiveUp(SnsError),
    /// Wait `delay_ms`, then publish again from `next`.
    Retry { delay_ms: u64, next: RetryState },
}

/// Errors worth another try: all but an invalid endpoint and a refused
/// authorization.
pub open spec fn retryable(e: SnsErrorView) -> bool {
    !(e is InvalidEndpoint) && !(e is AuthError)
}

/// Whether a failed publish is tried again: not once the retries are used
/// up, nor for an error that no retry can mend.
pub open spec fn retries_again(state: RetryState, max_retries: u32, error_text: Seq<char>) -> bool {
    state.retries < max_retries && retryable(classify_error(error_text))
}

/// Whether a failed publish with the error text `error_text` is tried again.
pub fn will_retry(state: RetryState, max_retries: u32, error_text: &str) -> (r: bool)
    ensures
        r == retries_again(state, max_retries, error_text@),
        r <==> state.retries < max_retries && !(classify_error(error_text@) is InvalidEndpoint)
            && !(classify_error(error_text@) is AuthError),
{
    if state.retries >= max_retries {
        return false;
    }
    match SnsError::classify(error_text) {
        SnsError::InvalidEndpoint(_) => false,
        SnsError::AuthError(_) => false,
        _ => true,
    }
}

/// Decides what follows a failed publish with the error text `error_text`:
/// give up with the classified error, or wait the current delay and retry
/// with the delay doubled.
pub fn after_failure(state: RetryState, max_retries: u32, error_text: &str) -> (step: PublishStep)
    requires
        retries_again(state, max_retries, error_text@) ==> state.delay_ms <= u64::MAX / 2,
    ensures
        !retries_again(state, max_retries, error_text@) ==> (step matches PublishStep::GiveUp(e) && e@
            == classify_error(error_text@)),
        retries_again(state, max_retries, error_text@) ==> step == (PublishStep::Retry {
            delay_ms: state.delay_ms,
            next: RetryState { retries: (state.retries + 1) as u32, delay_ms: (state.delay_ms * 2) as u64 },
        }),
        step is Retry <==> state.retries < max_retries && !(classify_error(error_text@) is InvalidEndpoint)
            && !(classify_error(error_text@) is AuthError),
{
    let error = SnsError::classify(error_text);
    if state.retries >= max_retries {
        return PublishStep::GiveUp(error);
    }
    match error {
        SnsError::InvalidEndpoint(_) => PublishStep::GiveUp(error),
        SnsError::AuthError(_) => PublishStep::GiveUp(error),
        _ => PublishStep::Retry {
            delay_ms: state.delay_ms,
            next: RetryState { retries: state.retries + 1, delay_ms: state.delay_ms * 2 },
        },
    }
}

/// What follows a delivery attempt.
#[derive(Clone, Copy, Debug, PartialEq, Eq, Structural)]
pub enum DeliveryFollowUp {
    /// The notification was published.
    Delivered,
    /// The endpoint is invalid: the device is to be marked inactive and
    /// taken out of the device cache.
    DeactivateDevice,
    /// The publish failed for another reason; the device stays.
    Failed,
}

/// Decides what follows the outcome of a delivery.
pub fn follow_up(outcome: &Result<(), SnsError>) -> (r: DeliveryFollowUp)
    ensures
        outcome is Ok ==> r == DeliveryFollowUp::Delivered,
        outcome matches Err(e) ==> r == if e is InvalidEndpoint {
            DeliveryFollowUp::DeactivateDevice
        } else {
            DeliveryFollowUp::Failed
        },
{
    match outcome {
        Ok(()) => DeliveryFollowUp::Delivered,
        Err(SnsError::InvalidEndpoint(_)) => DeliveryFollowUp::DeactivateDevice,
        Err(_) => DeliveryFollowUp::Failed,
    }
}

/// With retries left, a failed publish is tried again exactly when its error
/// text names neither an invalid or disabled endpoint nor, short of a
/// throttling, a refused authorization: throttling, networking and unknown
/// failures are retried.
pub proof fn law_retry_unless_endpoint_or_auth(state: RetryState, max_retries: u32, t: Seq<char>)
    requires
        state.retries < max_retries,
    ensures
        retries_again(state, max_retries, t) <==> !(has_infix(t, "InvalidEndpointException"@) || has_infix(
            t,
            "EndpointDisabled"@,
        )) && (has_infix(t, "ThrottlingException"@) || !(has_infix(t, "AuthorizationError"@) || has_infix(
            t,
            "AccessDenied"@,
        ))),
        classify_error(t) is Throttled ==> retries_again(state, max_retries, t),
        classify_error(t) is NetworkError ==> retries_again(state, max_retries, t),
        classify_error(t) is Unknown ==> retries_again(state, max_retries, t),
        classify_error(t) is InvalidEndpoint ==> !retries_again(state, max_retries, t),
        classify_error(t) is AuthError ==> !retries_again(state, max_retries, t),
{
}

/// A publish is tried at most `max_retries + 1` times: each retry raises the
/// retry count by one, and none comes once the count reaches `max_retries`.
pub proof fn law_retries_bounded(state: RetryState, max_retries: u32, error_text: Seq<char>)
    ensures
        retries_again(state, max_retries, error_text) ==> state.retries + 1 <= max_retries,
        state.retries >= max_retries ==> !retries_again(state, max_retries, error_text),
{
}


/// The largest batch the SNS worker publishes at once.
pub const MAX_BATCH: usize = 256;

/// Whether a batch of deliveries is complete by its size.
pub fn batch_complete(len: usize) -> (r: bool)
    ensures
        r == (len >= MAX_BATCH),
{
    len >= MAX_BATCH
}

/// What the SNS worker's channel gave it.
#[derive(Clone, Copy, Debug, PartialEq, Eq, Structural)]
pub enum WorkerEvent {
    /// A delivery arrived.
    Received,
    /// No sender is left: the channel is closed.
    Closed,
    /// The worker fell behind and this many deliveries were skipped.
    Lagged(u64),
    /// The batch's time ran out before anything arrived.
    TimedOut,
}

/// What the SNS worker does next.
#[derive(Clone, Copy, Debug, PartialEq, Eq, Structural)]
pub enum WorkerStep {
    /// Add the delivery to the batch and keep collecting.
    Add,
    /// Add the delivery to the batch, which is then full: publish it.
    AddAndFlush,
    /// Count the skipped deliveries as lagged and keep going.
    CountLagged(u64),
    /// Publish the batch collected so far.
    Flush,
    /// Nothing to do: keep waiting for the first delivery.
    Wait,
    /// The channel is closed and no batch is open: stop the worker.
    Stop,
}

/// Decides the SNS worker's next step from the size of the batch being
/// collected (`0`: none open, waiting for a first delivery) and what the
/// channel gave. A first delivery opens a batch; an open batch is published
/// once it holds `MAX_BATCH` deliveries, when its time runs out, or when the
/// channel closes; a closed channel with no open batch stops the worker.
pub fn next_worker_step(batch_len: usize, event: WorkerEvent) -> (step: WorkerStep)
    ensures
        event == WorkerEvent::Received ==> step == if batch_len + 1 >= MAX_BATCH {
            WorkerStep::AddAndFlush
        } else {
            WorkerStep::Add
        },
        event == WorkerEvent::Closed ==> step == if batch_len == 0 {
            WorkerStep::Stop
        } else {
            WorkerStep::Flush
        },
        event matches WorkerEvent::Lagged(n) ==> step == WorkerStep::CountLagged(n),
        event == WorkerEvent::TimedOut ==> step == if batch_len == 0 {
            WorkerStep::Wait
        } else {
            WorkerStep::Flush
        },
{
    match event {
        WorkerEvent::Received => {
            if batch_len == usize::MAX || batch_complete(batch_len + 1) {
                WorkerStep::AddAndFlush
            } else {
                WorkerStep::Add
            }
        },
        WorkerEvent::Closed => {
            if batch_len == 0 {
                WorkerStep::Stop
            } else {
                WorkerStep::Flush
            }
        },
        WorkerEvent::Lagged(n) => WorkerStep::CountLagged(n),
        WorkerEvent::TimedOut => {
            if batch_len == 0 {
                WorkerStep::Wait
            } else {
                WorkerStep::Flush
            }
        },
    }
}

} // verus!
