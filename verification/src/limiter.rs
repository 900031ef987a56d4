use vstd::prelude::*;
use crate::error::{RateLimitExceeded, SubmitError};

verus! {

/// Seconds between `last` and `now`; a clock that reads earlier than `last`
/// counts as no time passed.
pub open spec fn elapsed(last: u64, now: u64) -> int {
    if now >= last {
        now - last
    } else {
        0
    }
}

/// Seconds a submitter still has to wait at `now`, 0 when it may submit.
pub open spec fn wait_time(last: Option<u64>, window_seconds: u64, now: u64) -> int {
    match last {
        None => 0,
        Some(t) => if elapsed(t, now) < window_seconds {
            window_seconds - elapsed(t, now)
        } else {
            0
        },
    }
}

/// The limiter's verdict as a value.
pub open spec fn verdict(last: Option<u64>, window_seconds: u64, now: u64) -> Result<
    (),
    SubmitError,
> {
    if wait_time(last, window_seconds, now) == 0 {
        Ok(())
    } else {
        Err(
            SubmitError::RateLimited(
                RateLimitExceeded { wait_time: wait_time(last, window_seconds, now) as u64 },
            ),
        )
    }
}

/// Decides whether a submitter whose latest accepted submission was at `last`
/// may submit again at `now`.
pub fn rate_limit(last: Option<u64>, window_seconds: u64, now: u64) -> (r: Result<(), SubmitError>)
    ensures
        r == verdict(last, window_seconds, now),
{
    match last {
        None => Ok(()),
        Some(t) => {
            let passed: u64 = now.saturating_sub(t);
            if passed < window_seconds {
                Err(SubmitError::RateLimited(RateLimitExceeded { wait_time: window_seconds - passed }))
            } else {
                Ok(())
            }
        },
    }
}

} // verus!
