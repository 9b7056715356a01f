//! Host matchers. An exact host is parsed and normalized when the matcher
//! is built, and later compared against the host's string form; a glob
//! matches against that string form directly.

use super::permission::Kind as PermissionKind;
use crate::globs::{compile_spec, glob_match, Pattern, PatternError};
use crate::text::chars_of;
use vstd::prelude::*;

verus! {

/// A host that `url::Host::parse` refuses.
#[derive(Debug, Clone, Copy, PartialEq, Eq, Structural)]
pub struct InvalidHost;

/// The normalized string form of a host, or `None` where the host cannot
/// be parsed. This is what `url::Host::parse` followed by rendering
/// produces: domains come out IDNA-mapped and lowercased, IPv4 literals as
/// the dotted quad, IPv6 literals bracketed.
pub uninterp spec fn normalized_host(s: Seq<char>) -> Option<Seq<char>>;

/// Relies on `url::Host::parse` for host validation and normalization, and
/// on the display form of the parsed host. Both depend on the input alone.
#[verifier::external_body]
fn host_normalize(host: &str) -> (r: Result<String, InvalidHost>)
    ensures
        r matches Ok(h) ==> normalized_host(host@) == Some(h@),
        r is Err <==> normalized_host(host@) is None,
{
    match url::Host::parse(host) {
        Ok(url::Host::Domain(d)) => Ok(d),
        Ok(h) => Ok(h.to_string()),
        Err(_) => Err(InvalidHost),
    }
}

/// One way of recognising a host: a glob over its string form, the
/// normalized form of a literal host, or anything.
#[derive(Debug, Clone, PartialEq, Eq)]
pub enum Kind {
    Glob(Pattern),
    Exact(String),
    Any,
}

/// The mathematical form of a host matcher.
pub enum KindModel {
    Glob(Seq<crate::globs::TokenModel>),
    Exact(Seq<char>),
    Any,
}

impl View for Kind {
    type V = KindModel;

    open spec fn view(&self) -> KindModel {
        match self {
            Kind::Glob(g) => KindModel::Glob(g@),
            Kind::Exact(e) => KindModel::Exact(e@),
            Kind::Any => KindModel::Any,
        }
    }
}

/// What it means for one host matcher to accept a host string.
pub open spec fn kind_matches(k: Kind, host: Seq<char>) -> bool {
    match k {
        Kind::Glob(g) => glob_match(g@, host),
        Kind::Exact(e) => e@ == host,
        Kind::Any => true,
    }
}

impl Kind {
    /// Compile a glob host matcher.
    pub fn glob(pattern: &str) -> (r: Result<Self, PatternError>)
        ensures
            r matches Ok(k) ==> (k matches Kind::Glob(g) && compile_spec(pattern@) == Some(g@)),
            r is Err <==> compile_spec(pattern@) is None,
    {
        match Pattern::new(pattern) {
            Ok(g) => Ok(Kind::Glob(g)),
            Err(e) => Err(e),
        }
    }

    /// A literal host matcher; the host is parsed and normalized here, and
    /// an unparseable host is refused.
    pub fn exact(host: &str) -> (r: Result<Self, InvalidHost>)
        ensures
            r matches Ok(k) ==> (k matches Kind::Exact(e) && Some(e@) == normalized_host(host@)),
            r is Err <==> normalized_host(host@) is None,
    {
        match host_normalize(host) {
            Ok(h) => Ok(Kind::Exact(h)),
            Err(e) => Err(e),
        }
    }

    /// Whether this matcher accepts the host string.
    pub fn matches(&self, host: &str) -> (r: bool)
        ensures
            r == kind_matches(*self, host@),
    {
        let v = chars_of(host);
        self.matches_chars(&v)
    }

    /// `matches` on an already decomposed host string.
    pub fn matches_chars(&self, host: &Vec<char>) -> (r: bool)
        ensures
            r == kind_matches(*self, host@),
    {
        match self {
            Kind::Glob(g) => g.matches_chars(host),
            Kind::Exact(e) => crate::text::chars_eq_str(host, e.as_str()),
            Kind::Any => true,
        }
    }
}

/// A host matcher together with its role in the bucket.
#[derive(Debug, Clone)]
pub struct Matcher {
    pub permission: PermissionKind,
    pub kind: Kind,
}

impl Matcher {
    pub fn new(permission: PermissionKind, kind: Kind) -> (r: Self)
        ensures
            r.permission == permission,
            r.kind == kind,
    {
        Self { permission, kind }
    }
}


/// Two matchers with the same mathematical form accept the same inputs.
pub proof fn lemma_same_view_same_matches(k1: Kind, k2: Kind, host: Seq<char>)
    requires
        k1@ == k2@,
    ensures
        kind_matches(k1, host) == kind_matches(k2, host),
{
    match (k1, k2) {
        (Kind::Glob(g1), Kind::Glob(g2)) => {
            assert(g1@ == g2@);
        },
        (Kind::Exact(e1), Kind::Exact(e2)) => {
        },
        (Kind::Any, Kind::Any) => {
        },
        _ => {
            assert(false);
        },
    }
}

} // verus!
