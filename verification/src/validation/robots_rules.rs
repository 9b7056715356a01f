//! The robots decision for one URL.

use vstd::prelude::*;

verus! {

/// Relies on `texting_robots::Robot::allowed`: whether the table lets the
/// configured user agent fetch the URL. Nothing more is known of the
/// answer; callers treat both outcomes.
#[verifier::external_body]
pub fn validate_robots_rules(url: &str, robots: &texting_robots::Robot) -> bool {
    robots.allowed(url)
}

} // verus!
