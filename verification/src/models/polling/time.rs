//! The pacing rule: the sleep range between requests and the request
//! timeout, all in milliseconds.

use crate::random::random_in_range;
use vstd::prelude::*;

verus! {

/// The pacing rule. The invariant expected of a well-formed value is
/// `min_sleep_between_requests <= max_sleep_between_requests`.
#[derive(Debug, Clone, Copy, PartialEq, Eq, Structural)]
pub struct Time {
    pub min_sleep_between_requests: u64,
    pub max_sleep_between_requests: u64,
    pub request_timeout: u64,
}

impl Time {
    /// Whether the sleep range is non-empty.
    pub open spec fn wf(&self) -> bool {
        self.min_sleep_between_requests <= self.max_sleep_between_requests
    }

    pub fn new(
        min_sleep_between_requests: u64,
        max_sleep_between_requests: u64,
        request_timeout: u64,
    ) -> (r: Self)
        ensures
            r.min_sleep_between_requests == min_sleep_between_requests,
            r.max_sleep_between_requests == max_sleep_between_requests,
            r.request_timeout == request_timeout,
    {
        Self { min_sleep_between_requests, max_sleep_between_requests, request_timeout }
    }

    /// A sleep drawn uniformly from the configured range, in milliseconds:
    /// never below the minimum, never above the maximum.
    pub fn get_random_sleep_between_requests(&self) -> (r: u64)
        requires
            self.wf(),
        ensures
            self.min_sleep_between_requests <= r <= self.max_sleep_between_requests,
    {
        random_in_range(self.min_sleep_between_requests, self.max_sleep_between_requests)
    }
}

impl Default for Time {
    /// Between three seconds and one minute of sleep, with a timeout of
    /// seven seconds.
    fn default() -> (r: Self)
        ensures
            r.min_sleep_between_requests == 3000,
            r.max_sleep_between_requests == 60000,
            r.request_timeout == 7000,
            r.wf(),
    {
        Self::new(3000, 60000, 7000)
    }
}

} // verus!
