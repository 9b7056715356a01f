//! The crawl depth rule: a switch and a cap. The effective cap is the
//! configured maximum when depth is acceptable, and zero otherwise.

use vstd::prelude::*;

verus! {

/// The depth rule.
#[derive(Debug, Clone, Copy, PartialEq, Eq, Structural)]
pub struct Depth {
    acceptable: bool,
    max_depth: u16,
}

impl Depth {
    /// The depth cap in force: the configured maximum when depth is
    /// acceptable, otherwise zero.
    pub closed spec fn effective_cap(&self) -> u16 {
        if self.acceptable {
            self.max_depth
        } else {
            0
        }
    }

    /// Whether descending is acceptable at all.
    pub closed spec fn spec_acceptable(&self) -> bool {
        self.acceptable
    }

    pub fn new(acceptable: bool, max_depth: u16) -> (r: Self)
        ensures
            r.spec_acceptable() == acceptable,
            r.effective_cap() == if acceptable {
                max_depth
            } else {
                0u16
            },
    {
        Self { acceptable, max_depth }
    }

    /// A rule under which no depth matches.
    pub fn new_unacceptable() -> (r: Self)
        ensures
            !r.spec_acceptable(),
            r.effective_cap() == 0,
    {
        Self::new(false, 0)
    }

    /// A rule that allows depths below `max_depth`.
    pub fn new_acceptable(max_depth: u16) -> (r: Self)
        ensures
            r.spec_acceptable(),
            r.effective_cap() == max_depth,
    {
        Self::new(true, max_depth)
    }

    pub fn acceptable(&self) -> (r: bool)
        ensures
            r == self.spec_acceptable(),
    {
        self.acceptable
    }

    /// The depth cap in force.
    pub fn max_depth(&self) -> (r: u16)
        ensures
            r == self.effective_cap(),
    {
        if self.acceptable {
            self.max_depth
        } else {
            0
        }
    }

    /// Whether a crawl at `depth` is still within the cap: exactly when
    /// `depth` is below the effective cap.
    pub fn matches(&self, depth: u16) -> (r: bool)
        ensures
            r == (depth < self.effective_cap()),
    {
        depth < self.max_depth()
    }
}

impl Default for Depth {
    /// Depth is acceptable by default, with a cap of seven.
    fn default() -> (r: Self)
        ensures
            r.spec_acceptable(),
            r.effective_cap() == 7,
    {
        Self::new(true, 7)
    }
}

} // verus!
