//! Whether the crawl honors the Robots Exclusion Protocol.

use vstd::prelude::*;

verus! {

/// The switch for honoring `robots.txt`.
#[derive(Debug, Clone, Copy, PartialEq, Eq, Structural)]
pub struct FollowRobotsExclusionProtocol {
    pub value: bool,
}

impl FollowRobotsExclusionProtocol {
    pub fn new(value: bool) -> (r: Self)
        ensures
            r.value == value,
    {
        Self { value }
    }
}

impl Default for FollowRobotsExclusionProtocol {
    /// The protocol is honored by default.
    fn default() -> (r: Self)
        ensures
            r.value,
    {
        Self::new(true)
    }
}

} // verus!
