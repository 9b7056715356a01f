//! Port matchers. An exact port is a number; it also matches its own
//! decimal string form. A glob matches against the decimal string form.

use super::permission::Kind as PermissionKind;
use crate::globs::{compile_spec, glob_match, Pattern, PatternError};
use crate::text::{chars_of, dec_chars, eq_chars, parse_u16_chars, parse_u16_spec, u16_to_chars};
use vstd::prelude::*;

verus! {

/// A string that does not denote a port number, in the way `str::parse`
/// reads one.
#[derive(Debug, Clone, Copy, PartialEq, Eq, Structural)]
pub struct InvalidPort;

/// One way of recognising a port: a glob over its decimal string form, a
/// port number, or anything.
#[derive(Debug, Clone, PartialEq, Eq)]
pub enum Kind {
    Glob(Pattern),
    Exact(u16),
    Any,
}

/// The mathematical form of a port matcher.
pub enum KindModel {
    Glob(Seq<crate::globs::TokenModel>),
    Exact(u16),
    Any,
}

impl View for Kind {
    type V = KindModel;

    open spec fn view(&self) -> KindModel {
        match self {
            Kind::Glob(g) => KindModel::Glob(g@),
            Kind::Exact(e) => KindModel::Exact(*e),
            Kind::Any => KindModel::Any,
        }
    }
}

/// What it means for one port matcher to accept a port number.
pub open spec fn kind_matches(k: Kind, port: u16) -> bool {
    match k {
        Kind::Glob(g) => glob_match(g@, dec_chars(port as nat)),
        Kind::Exact(e) => e == port,
        Kind::Any => true,
    }
}

/// What it means for one port matcher to accept a port's string form.
pub open spec fn kind_matches_str(k: Kind, port: Seq<char>) -> bool {
    match k {
        Kind::Glob(g) => glob_match(g@, port),
        Kind::Exact(e) => dec_chars(e as nat) == port,
        Kind::Any => true,
    }
}

impl Kind {
    /// Compile a glob port matcher.
    pub fn glob(pattern: &str) -> (r: Result<Self, PatternError>)
        ensures
            r matches Ok(k) ==> (k matches Kind::Glob(g) && compile_spec(pattern@) == Some(g@)),
            r is Err <==> compile_spec(pattern@) is None,
    {
        match Pattern::new(pattern) {
            Ok(g) => Ok(Kind::Glob(g)),
            Err(e) => Err(e),
        }
    }

    /// An exact port matcher.
    pub fn exact(port: u16) -> (r: Self)
        ensures
            r == Kind::Exact(port),
    {
        Kind::Exact(port)
    }

    /// An exact port matcher built from the port's decimal string form.
    pub fn exact_str(port: &str) -> (r: Result<Self, InvalidPort>)
        ensures
            r matches Ok(k) ==> (k matches Kind::Exact(p) && parse_u16_spec(port@) == Some(p)),
            r is Err <==> parse_u16_spec(port@) is None,
    {
        let v = chars_of(port);
        match parse_u16_chars(&v) {
            Some(p) => Ok(Kind::Exact(p)),
            None => Err(InvalidPort),
        }
    }

    /// Whether this matcher accepts the port number.
    pub fn matches(&self, port: u16) -> (r: bool)
        ensures
            r == kind_matches(*self, port),
    {
        match self {
            Kind::Glob(g) => {
                let s = u16_to_chars(port);
                g.matches_chars(&s)
            },
            Kind::Exact(e) => *e == port,
            Kind::Any => true,
        }
    }

    /// Whether this matcher accepts the port's string form.
    pub fn matches_str(&self, port: &str) -> (r: bool)
        ensures
            r == kind_matches_str(*self, port@),
    {
        let v = chars_of(port);
        self.matches_str_chars(&v)
    }

    /// `matches_str` on an already decomposed string.
    pub fn matches_str_chars(&self, port: &Vec<char>) -> (r: bool)
        ensures
            r == kind_matches_str(*self, port@),
    {
        match self {
            Kind::Glob(g) => g.matches_chars(port),
            Kind::Exact(e) => {
                let s = u16_to_chars(*e);
                eq_chars(&s, port)
            },
            Kind::Any => true,
        }
    }
}

/// A port matcher together with its role in the bucket.
#[derive(Debug, Clone)]
pub struct Matcher {
    pub permission: PermissionKind,
    pub kind: Kind,
}

impl Matcher {
    pub fn new(permission: PermissionKind, kind: Kind) -> (r: Self)
        ensures
            r.permission == permission,
            r.kind == kind,
    {
        Self { permission, kind }
    }
}

/// An exact port matcher accepts a port's decimal string form exactly when
/// it accepts the port itself.
pub proof fn lemma_exact_port_matches_own_string(p: u16)
    ensures
        kind_matches(Kind::Exact(p), p),
        kind_matches_str(Kind::Exact(p), dec_chars(p as nat)),
{
}


/// Two matchers with the same mathematical form accept the same inputs.
pub proof fn lemma_same_view_same_matches(k1: Kind, k2: Kind, port: u16)
    requires
        k1@ == k2@,
    ensures
        kind_matches(k1, port) == kind_matches(k2, port),
{
    match (k1, k2) {
        (Kind::Glob(g1), Kind::Glob(g2)) => {
            assert(g1@ == g2@);
        },
        (Kind::Exact(e1), Kind::Exact(e2)) => {
        },
        (Kind::Any, Kind::Any) => {
        },
        _ => {
            assert(false);
        },
    }
}

} // verus!
