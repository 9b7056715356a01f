//! Scheme matchers: a closed set of supported schemes, matched without
//! regard to letter case.

use super::permission::Kind as PermissionKind;
use crate::text::{chars_eq_str, chars_of, lower, lower_vec};
use vstd::prelude::*;

verus! {

/// One way of recognising a scheme. `AnySupported` stands for every
/// supported scheme, that is `http` and `https`.
#[derive(Debug, Clone, Copy, PartialEq, Eq, Structural)]
pub enum Kind {
    Http,
    Https,
    AnySupported,
}

/// A scheme outside the supported set; it carries the lowercased scheme.
#[derive(Debug, Clone, PartialEq, Eq)]
pub struct UnsupportedSchemeError(pub String);

/// What it means for one scheme matcher to accept a scheme, on the
/// lowercased form of the input.
pub open spec fn kind_matches(k: Kind, scheme: Seq<char>) -> bool {
    match k {
        Kind::Http => lower(scheme) == "http"@,
        Kind::Https => lower(scheme) == "https"@,
        Kind::AnySupported => lower(scheme) == "http"@ || lower(scheme) == "https"@,
    }
}

/// The matcher a scheme name denotes, or `None` outside the supported set.
pub open spec fn kind_of_scheme(s: Seq<char>) -> Option<Kind> {
    if lower(s) == "http"@ {
        Some(Kind::Http)
    } else if lower(s) == "https"@ {
        Some(Kind::Https)
    } else {
        None
    }
}

impl Kind {
    /// Whether this matcher accepts the scheme, without regard to case.
    pub fn matches(&self, scheme: &str) -> (r: bool)
        ensures
            r == kind_matches(*self, scheme@),
    {
        let v = chars_of(scheme);
        self.matches_chars(&v)
    }

    /// `matches` on an already decomposed scheme.
    pub fn matches_chars(&self, scheme: &Vec<char>) -> (r: bool)
        ensures
            r == kind_matches(*self, scheme@),
    {
        let lowered = lower_vec(scheme);
        match self {
            Kind::Http => chars_eq_str(&lowered, "http"),
            Kind::Https => chars_eq_str(&lowered, "https"),
            Kind::AnySupported => chars_eq_str(&lowered, "http") || chars_eq_str(
                &lowered,
                "https",
            ),
        }
    }

    /// The matcher for a scheme name; a scheme outside the supported set is
    /// refused, and the error carries the lowercased name.
    pub fn try_from(value: &str) -> (r: Result<Self, UnsupportedSchemeError>)
        ensures
            r matches Ok(k) ==> Some(k) == kind_of_scheme(value@),
            r is Err <==> kind_of_scheme(value@) is None,
            r matches Err(e) ==> e.0@ == lower(value@),
    {
        let v = chars_of(value);
        let lowered = lower_vec(&v);
        if chars_eq_str(&lowered, "http") {
            Ok(Kind::Http)
        } else if chars_eq_str(&lowered, "https") {
            Ok(Kind::Https)
        } else {
            Err(UnsupportedSchemeError(crate::text::chars_to_string(&lowered)))
        }
    }
}

/// A scheme matcher together with its role in the bucket.
#[derive(Debug, Clone, Copy)]
pub struct Matcher {
    pub permission: PermissionKind,
    pub kind: Kind,
}

impl Matcher {
    pub fn new(permission: PermissionKind, kind: Kind) -> (r: Self)
        ensures
            r.permission == permission,
            r.kind == kind,
    {
        Self { permission, kind }
    }
}

/// Scheme matching is case-insensitive: an input and its lowercased form
/// are accepted by exactly the same matchers.
pub proof fn lemma_scheme_case_insensitive(k: Kind, s: Seq<char>)
    ensures
        kind_matches(k, s) == kind_matches(k, lower(s)),
{
    crate::text::lemma_lower_idempotent(s);
}

} // verus!
