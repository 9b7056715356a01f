//! The redirection rule: a switch and a cap. The effective cap is the
//! configured maximum when redirections are acceptable, and zero otherwise.

use vstd::prelude::*;

verus! {

/// The redirection rule.
#[derive(Debug, Clone, Copy, PartialEq, Eq, Structural)]
pub struct Redirections {
    acceptable: bool,
    max_redirects: u16,
}

impl Redirections {
    /// The redirect cap in force: the configured maximum when redirections
    /// are acceptable, otherwise zero.
    pub closed spec fn effective_cap(&self) -> u16 {
        if self.acceptable {
            self.max_redirects
        } else {
            0
        }
    }

    /// Whether redirections are acceptable at all.
    pub closed spec fn spec_acceptable(&self) -> bool {
        self.acceptable
    }

    pub fn new(acceptable: bool, max_redirects: u16) -> (r: Self)
        ensures
            r.spec_acceptable() == acceptable,
            r.effective_cap() == if acceptable {
                max_redirects
            } else {
                0u16
            },
    {
        Self { acceptable, max_redirects }
    }

    pub fn acceptable(&self) -> (r: bool)
        ensures
            r == self.spec_acceptable(),
    {
        self.acceptable
    }

    /// The redirect cap in force.
    pub fn max_redirects(&self) -> (r: u16)
        ensures
            r == self.effective_cap(),
    {
        if self.acceptable {
            self.max_redirects
        } else {
            0
        }
    }
}

impl Default for Redirections {
    /// Redirections are acceptable by default, five at most.
    fn default() -> (r: Self)
        ensures
            r.spec_acceptable(),
            r.effective_cap() == 5,
    {
        Self::new(true, 5)
    }
}

} // verus!
