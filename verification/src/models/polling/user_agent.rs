//! The user agent string presented with each request.

use vstd::prelude::*;

verus! {

/// A user agent string.
#[derive(Debug, Clone, PartialEq, Eq)]
pub struct UserAgent {
    pub value: String,
}

impl UserAgent {
    pub fn new(value: String) -> (r: Self)
        ensures
            r.value == value,
    {
        Self { value }
    }
}

} // verus!
