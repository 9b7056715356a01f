//! The URL of a proxy that requests are sent through.

use vstd::prelude::*;

verus! {

/// A proxy URL.
#[derive(Debug, Clone, PartialEq, Eq)]
pub struct Proxy {
    pub value: String,
}

impl Proxy {
    pub fn new(value: String) -> (r: Self)
        ensures
            r.value == value,
    {
        Self { value }
    }
}

} // verus!
