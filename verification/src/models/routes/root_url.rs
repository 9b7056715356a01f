//! A seed URL the crawl starts from.

use crate::urls::{url_parts_of, InvalidUrl, UrlParts};
use vstd::prelude::*;

verus! {

/// A parsed seed URL.
#[derive(Debug, Clone, PartialEq, Eq)]
pub struct RootUrl {
    pub value: UrlParts,
}

impl RootUrl {
    /// Parse a seed URL; a string that is not an absolute URL is refused.
    pub fn new(value: &str) -> (r: Result<Self, InvalidUrl>)
        ensures
            r matches Ok(u) ==> url_parts_of(value@) == Some(u.value@),
            r is Err <==> url_parts_of(value@) is None,
    {
        match UrlParts::parse(value) {
            Ok(parts) => Ok(Self { value: parts }),
            Err(e) => Err(e),
        }
    }
}

} // verus!
