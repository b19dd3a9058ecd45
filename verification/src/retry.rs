//! How long a request may take, when it is sent again, and what its answer comes to.
use vstd::prelude::*;
use crate::error::CapxError;
use crate::text::copy;

verus! {

/// Seconds a request may take before it is given up.
pub const REQUEST_TIMEOUT_SECS: u64 = 30;

/// How many times one request is sent at most.
pub const MAX_ATTEMPTS: u32 = 3;

/// An answer worth asking again: rate limited (429) or a server error (5xx).
pub open spec fn is_transient(status: u16) -> bool {
    status == 429 || (500 <= status && status <= 599)
}

/// Whether, and after how many milliseconds, a request is sent again once its attempt number
/// `attempt` (counted from 1) was answered with `status`: again after a transient answer while
/// attempts are left, waiting one second more for each attempt made; else not.
pub open spec fn retry_wait(status: u16, attempt: u32) -> Option<u64> {
    if is_transient(status) && 1 <= attempt && attempt < MAX_ATTEMPTS {
        Some((1000 * attempt) as u64)
    } else {
        None::<u64>
    }
}

/// The pause before a request is sent again, where it is (see `retry_wait`).
pub fn retry_delay(status: u16, attempt: u32) -> (r: Option<u64>)
    ensures
        r == retry_wait(status, attempt),
{
    if (status == 429 || (500 <= status && status <= 599)) && 1 <= attempt && attempt < MAX_ATTEMPTS {
        Some(1000 * (attempt as u64))
    } else {
        None
    }
}

/// An answer in the success range (2xx).
pub open spec fn is_success(status: u16) -> bool {
    200 <= status && status <= 299
}

/// What one answer of the service comes to.
pub enum Answer {
    /// Its body is the result.
    Accepted,
    /// The request is sent again after so many milliseconds.
    Retry { wait_ms: u64 },
    /// The request failed with this error, which names the endpoint.
    Failed { error: CapxError },
}

/// What the answer `status`, with body `body`, to attempt number `attempt` of a request to
/// `endpoint` comes to: accepted in the success range; else sent again where `retry_wait`
/// says so; else an API error that gives the status, the endpoint and the body.
pub fn judge_answer(status: u16, attempt: u32, endpoint: &str, body: &str) -> (r: Answer)
    ensures
        is_success(status) ==> r is Accepted,
        !is_success(status) && retry_wait(status, attempt) is Some ==> r == (Answer::Retry {
            wait_ms: retry_wait(status, attempt)->Some_0,
        }),
        !is_success(status) && retry_wait(status, attempt) is None ==> match r {
            Answer::Failed { error: CapxError::Api { status: s, message, endpoint: e } } => s == status
                && message@ == body@ && e@ == endpoint@,
            _ => false,
        },
{
    if 200 <= status && status <= 299 {
        Answer::Accepted
    } else {
        match retry_delay(status, attempt) {
            Some(ms) => Answer::Retry { wait_ms: ms },
            None => Answer::Failed {
                error: CapxError::Api {
                    status,
                    message: copy(body),
                    endpoint: copy(endpoint),
                },
            },
        }
    }
}

} // verus!
