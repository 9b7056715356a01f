//! Method matchers: a closed set of HTTP methods, matched without regard
//! to letter case.

use super::permission::Kind as PermissionKind;
use crate::text::{chars_eq_str, chars_of, lower, lower_vec};
use vstd::prelude::*;

verus! {

/// One way of recognising a method. `AnySupported` stands for every
/// supported method.
#[derive(Debug, Clone, Copy, PartialEq, Eq, Structural)]
pub enum Kind {
    Get,
    Post,
    Put,
    Patch,
    Delete,
    Head,
    Options,
    AnySupported,
}

/// A method outside the supported set; it carries the lowercased method.
#[derive(Debug, Clone, PartialEq, Eq)]
pub struct UnsupportedMethodError(pub String);

/// Whether the lowercased input names any supported method.
pub open spec fn is_supported_method(l: Seq<char>) -> bool {
    l == "get"@ || l == "post"@ || l == "put"@ || l == "patch"@ || l == "delete"@ || l == "head"@
        || l == "options"@
}

/// What it means for one method matcher to accept a method, on the
/// lowercased form of the input.
pub open spec fn kind_matches(k: Kind, method: Seq<char>) -> bool {
    match k {
        Kind::Get => lower(method) == "get"@,
        Kind::Post => lower(method) == "post"@,
        Kind::Put => lower(method) == "put"@,
        Kind::Patch => lower(method) == "patch"@,
        Kind::Delete => lower(method) == "delete"@,
        Kind::Head => lower(method) == "head"@,
        Kind::Options => lower(method) == "options"@,
        Kind::AnySupported => is_supported_method(lower(method)),
    }
}

/// The matcher a method name denotes, or `None` outside the supported set.
pub open spec fn kind_of_method(s: Seq<char>) -> Option<Kind> {
    if lower(s) == "get"@ {
        Some(Kind::Get)
    } else if lower(s) == "post"@ {
        Some(Kind::Post)
    } else if lower(s) == "put"@ {
        Some(Kind::Put)
    } else if lower(s) == "patch"@ {
        Some(Kind::Patch)
    } else if lower(s) == "delete"@ {
        Some(Kind::Delete)
    } else if lower(s) == "head"@ {
        Some(Kind::Head)
    } else if lower(s) == "options"@ {
        Some(Kind::Options)
    } else {
        None
    }
}

impl Kind {
    /// Whether this matcher accepts the method, without regard to case.
    pub fn matches(&self, method: &str) -> (r: bool)
        ensures
            r == kind_matches(*self, method@),
    {
        let v = chars_of(method);
        self.matches_chars(&v)
    }

    /// `matches` on an already decomposed method.
    pub fn matches_chars(&self, method: &Vec<char>) -> (r: bool)
        ensures
            r == kind_matches(*self, method@),
    {
        let lowered = lower_vec(method);
        match self {
            Kind::Get => chars_eq_str(&lowered, "get"),
            Kind::Post => chars_eq_str(&lowered, "post"),
            Kind::Put => chars_eq_str(&lowered, "put"),
            Kind::Patch => chars_eq_str(&lowered, "patch"),
            Kind::Delete => chars_eq_str(&lowered, "delete"),
            Kind::Head => chars_eq_str(&lowered, "head"),
            Kind::Options => chars_eq_str(&lowered, "options"),
            Kind::AnySupported => chars_eq_str(&lowered, "get") || chars_eq_str(&lowered, "post")
                || chars_eq_str(&lowered, "put") || chars_eq_str(&lowered, "patch") || chars_eq_str(
                &lowered,
                "delete",
            ) || chars_eq_str(&lowered, "head") || chars_eq_str(&lowered, "options"),
        }
    }

    /// The matcher for a method name; a method outside the supported set is
    /// refused, and the error carries the lowercased name.
    pub fn try_from(value: &str) -> (r: Result<Self, UnsupportedMethodError>)
        ensures
            r matches Ok(k) ==> Some(k) == kind_of_method(value@),
            r is Err <==> kind_of_method(value@) is None,
            r matches Err(e) ==> e.0@ == lower(value@),
    {
        let v = chars_of(value);
        let lowered = lower_vec(&v);
        if chars_eq_str(&lowered, "get") {
            Ok(Kind::Get)
        } else if chars_eq_str(&lowered, "post") {
            Ok(Kind::Post)
        } else if chars_eq_str(&lowered, "put") {
            Ok(Kind::Put)
        } else if chars_eq_str(&lowered, "patch") {
            Ok(Kind::Patch)
        } else if chars_eq_str(&lowered, "delete") {
            Ok(Kind::Delete)
        } else if chars_eq_str(&lowered, "head") {
            Ok(Kind::Head)
        } else if chars_eq_str(&lowered, "options") {
            Ok(Kind::Options)
        } else {
            Err(UnsupportedMethodError(crate::text::chars_to_string(&lowered)))
        }
    }
}

/// A method matcher together with its role in the bucket.
#[derive(Debug, Clone, Copy)]
pub struct Matcher {
    pub permission: PermissionKind,
    pub kind: Kind,
}

impl Matcher {
    pub fn new(permission: PermissionKind, kind: Kind) -> (r: Self)
        ensures
            r.permission == permission,
            r.kind == kind,
    {
        Self { permission, kind }
    }
}

/// Method matching is case-insensitive: an input and its lowercased form
/// are accepted by exactly the same matchers.
pub proof fn lemma_method_case_insensitive(k: Kind, s: Seq<char>)
    ensures
        kind_matches(k, s) == kind_matches(k, lower(s)),
{
    crate::text::lemma_lower_idempotent(s);
}

} // verus!
