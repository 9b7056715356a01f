//! Path matchers. Before any comparison the input path loses one trailing
//! slash, unless the input is exactly `/`, so `/foo` and `/foo/` are the
//! same path.

use super::permission::Kind as PermissionKind;
use crate::globs::{compile_spec, glob_match, Pattern, PatternError};
use crate::text::{chars_eq_str, chars_of};
use vstd::prelude::*;

verus! {

/// One way of recognising a path: a glob over the path text, a literal
/// path, or anything.
#[derive(Debug, Clone, PartialEq, Eq)]
pub enum Kind {
    Glob(Pattern),
    Exact(String),
    Any,
}

/// The mathematical form of a path matcher.
pub enum KindModel {
    Glob(Seq<crate::globs::TokenModel>),
    Exact(Seq<char>),
    Any,
}

impl View for Kind {
    type V = KindModel;

    open spec fn view(&self) -> KindModel {
        match self {
            Kind::Glob(g) => KindModel::Glob(g@),
            Kind::Exact(e) => KindModel::Exact(e@),
            Kind::Any => KindModel::Any,
        }
    }
}

/// The trailing-slash normalization applied to every input path: one
/// trailing `/` is removed, except from the one-character path `/`.
pub open spec fn norm_path(p: Seq<char>) -> Seq<char> {
    if p.len() > 1 && p.last() == '/' {
        p.drop_last()
    } else {
        p
    }
}

/// What it means for one path matcher to accept an input path.
pub open spec fn kind_matches(k: Kind, path: Seq<char>) -> bool {
    match k {
        Kind::Glob(g) => glob_match(g@, norm_path(path)),
        Kind::Exact(e) => e@ == norm_path(path),
        Kind::Any => true,
    }
}

impl Kind {
    /// Compile a glob path matcher.
    pub fn glob(pattern: &str) -> (r: Result<Self, PatternError>)
        ensures
            r matches Ok(k) ==> (k matches Kind::Glob(g) && compile_spec(pattern@) == Some(g@)),
            r is Err <==> compile_spec(pattern@) is None,
    {
        match Pattern::new(pattern) {
            Ok(g) => Ok(Kind::Glob(g)),
            Err(e) => Err(e),
        }
    }

    /// A literal path matcher.
    pub fn exact(path: &str) -> (r: Self)
        ensures
            r matches Kind::Exact(e) && e@ == path@,
    {
        Kind::Exact(path.to_owned())
    }

    /// Whether this matcher accepts the path, on its normalized form.
    pub fn matches(&self, path: &str) -> (r: bool)
        ensures
            r == kind_matches(*self, path@),
    {
        let v = chars_of(path);
        self.matches_chars(&v)
    }

    /// `matches` on an already decomposed path.
    pub fn matches_chars(&self, path: &Vec<char>) -> (r: bool)
        ensures
            r == kind_matches(*self, path@),
    {
        let n: usize = if path.len() > 1 && path[path.len() - 1] == '/' {
            path.len() - 1
        } else {
            path.len()
        };
        let ghost norm = norm_path(path@);
        proof {
            assert(path@.take(n as int) =~= norm);
        }
        let mut v: Vec<char> = Vec::new();
        let mut i: usize = 0;
        while i < n
            invariant
                i <= n <= path@.len(),
                norm == path@.take(n as int),
                v@ == path@.take(i as int),
            decreases n - i,
        {
            v.push(path[i]);
            i = i + 1;
            proof {
                assert(v@ =~= path@.take(i as int));
            }
        }
        proof {
            assert(path@.take(i as int) =~= path@.take(n as int));
        }
        match self {
            Kind::Glob(g) => g.matches_chars(&v),
            Kind::Exact(e) => chars_eq_str(&v, e.as_str()),
            Kind::Any => true,
        }
    }
}

/// A path matcher together with its role in the bucket.
#[derive(Debug, Clone)]
pub struct Matcher {
    pub permission: PermissionKind,
    pub kind: Kind,
}

impl Matcher {
    pub fn new(permission: PermissionKind, kind: Kind) -> (r: Self)
        ensures
            r.permission == permission,
            r.kind == kind,
    {
        Self { permission, kind }
    }
}

/// A path pattern and the same pattern with one trailing slash added are
/// accepted by exactly the same matchers, except for the bare input `/`.
pub proof fn lemma_trailing_slash_insensitive(k: Kind, p: Seq<char>)
    requires
        p.len() > 0,
        p.last() != '/',
    ensures
        kind_matches(k, p) == kind_matches(k, p.push('/')),
{
    assert(norm_path(p) == p);
    assert(p.push('/').drop_last() =~= p);
    assert(norm_path(p.push('/')) == p);
}


/// Two matchers with the same mathematical form accept the same inputs.
pub proof fn lemma_same_view_same_matches(k1: Kind, k2: Kind, path: Seq<char>)
    requires
        k1@ == k2@,
    ensures
        kind_matches(k1, path) == kind_matches(k2, path),
{
    match (k1, k2) {
        (Kind::Glob(g1), Kind::Glob(g2)) => {
            assert(g1@ == g2@);
        },
        (Kind::Exact(e1), Kind::Exact(e2)) => {
        },
        (Kind::Any, Kind::Any) => {
        },
        _ => {
            assert(false);
        },
    }
}

} // verus!
