//! The method permission bucket: an ordered pair of acceptable and
//! unacceptable method matchers. An input is admitted when some acceptable
//! matcher accepts it and no unacceptable matcher does.

use super::method::{kind_matches, Kind, Matcher};
use super::permission::Kind as PermissionKind;
use vstd::prelude::*;

verus! {

/// The kinds of the acceptable matchers among `ms`, in order.
pub open spec fn acceptable_kinds(ms: Seq<Matcher>) -> Seq<Kind>
    decreases ms.len(),
{
    if ms.len() == 0 {
        Seq::empty()
    } else if ms.last().permission is Acceptable {
        acceptable_kinds(ms.drop_last()).push(ms.last().kind)
    } else {
        acceptable_kinds(ms.drop_last())
    }
}

/// The kinds of the unacceptable matchers among `ms`, in order.
pub open spec fn unacceptable_kinds(ms: Seq<Matcher>) -> Seq<Kind>
    decreases ms.len(),
{
    if ms.len() == 0 {
        Seq::empty()
    } else if ms.last().permission is Unacceptable {
        unacceptable_kinds(ms.drop_last()).push(ms.last().kind)
    } else {
        unacceptable_kinds(ms.drop_last())
    }
}

/// Whether some matcher kind in `ks` accepts the method.
pub open spec fn any_matches(ks: Seq<Kind>, method: Seq<char>) -> bool {
    exists|i: int| 0 <= i < ks.len() && kind_matches(#[trigger] ks[i], method)
}

/// The compound bucket decision: some acceptable matcher accepts the input
/// and no unacceptable matcher does.
pub open spec fn bucket_matches(acc: Seq<Kind>, unacc: Seq<Kind>, method: Seq<char>) -> bool {
    any_matches(acc, method) && !any_matches(unacc, method)
}

/// The method permission bucket.
#[derive(Debug)]
pub struct Methods {
    pub acceptable: Vec<Kind>,
    pub unacceptable: Vec<Kind>,
}

/// Whether some kind in the vector accepts the already decomposed path.
fn any_matches_chars(ks: &Vec<Kind>, method: &Vec<char>) -> (r: bool)
    ensures
        r == any_matches(ks@, method@),
{
    let mut i: usize = 0;
    while i < ks.len()
        invariant
            i <= ks@.len(),
            forall|j: int| 0 <= j < i ==> !kind_matches(#[trigger] ks@[j], method@),
        decreases ks@.len() - i,
    {
        if ks[i].matches_chars(method) {
            return true;
        }
        i = i + 1;
    }
    false
}

/// Split matchers by permission and append their kinds to the two lists.
fn push_kinds(acc: &mut Vec<Kind>, unacc: &mut Vec<Kind>, matchers: Vec<Matcher>)
    ensures
        final (acc)@ == old(acc)@ + acceptable_kinds(matchers@),
        final (unacc)@ == old(unacc)@ + unacceptable_kinds(matchers@),
{
    let ghost all = matchers@;
    let ghost acc0 = acc@;
    let ghost unacc0 = unacc@;
    let mut ms = matchers;
    let total: usize = ms.len();
    let mut k: usize = 0;
    proof {
        assert(all.take(0) =~= Seq::<Matcher>::empty());
        assert(acc@ =~= acc0 + acceptable_kinds(all.take(0)));
        assert(unacc@ =~= unacc0 + unacceptable_kinds(all.take(0)));
        assert(ms@ =~= all.skip(0));
    }
    while ms.len() > 0
        invariant
            all.len() == total,
            k <= all.len(),
            ms@ == all.skip(k as int),
            acc@ == acc0 + acceptable_kinds(all.take(k as int)),
            unacc@ == unacc0 + unacceptable_kinds(all.take(k as int)),
        decreases ms@.len(),
    {
        proof {
            assert(all.skip(k as int).len() == all.len() - k);
            assert(k < all.len());
        }
        let m = ms.remove(0);
        proof {
            assert(m == all[k as int]);
            assert(ms@ =~= all.skip(k + 1));
            assert(all.take(k + 1).drop_last() =~= all.take(k as int));
            assert(all.take(k + 1).last() == all[k as int]);
        }
        match m.permission {
            PermissionKind::Acceptable => {
                acc.push(m.kind);
                proof {
                    assert(acc@ =~= acc0 + acceptable_kinds(all.take(k + 1)));
                    assert(unacc@ =~= unacc0 + unacceptable_kinds(all.take(k + 1)));
                }
            },
            PermissionKind::Unacceptable => {
                unacc.push(m.kind);
                proof {
                    assert(acc@ =~= acc0 + acceptable_kinds(all.take(k + 1)));
                    assert(unacc@ =~= unacc0 + unacceptable_kinds(all.take(k + 1)));
                }
            },
        }
        k = k + 1;
    }
    proof {
        assert(all.take(k as int) =~= all);
    }
}

impl Methods {
    /// An empty bucket; it admits every supported method.
    pub fn default() -> (r: Self)
        ensures
            r.acceptable@ =~= Seq::<Kind>::empty(),
            r.unacceptable@ =~= Seq::<Kind>::empty(),
    {
        Self { acceptable: Vec::new(), unacceptable: Vec::new() }
    }

    /// Build a bucket from matchers; an empty acceptable list is seeded
    /// with `AnySupported`, so an absent configuration admits every
    /// supported method.
    pub fn new(matchers: Vec<Matcher>) -> (r: Self)
        ensures
            r.acceptable@ == if acceptable_kinds(matchers@).len() == 0 {
                seq![Kind::AnySupported]
            } else {
                acceptable_kinds(matchers@)
            },
            r.unacceptable@ == unacceptable_kinds(matchers@),
    {
        let mut acceptable: Vec<Kind> = Vec::new();
        let mut unacceptable: Vec<Kind> = Vec::new();
        push_kinds(&mut acceptable, &mut unacceptable, matchers);
        proof {
            assert(Seq::<Kind>::empty() + acceptable_kinds(matchers@) =~= acceptable_kinds(
                matchers@,
            ));
            assert(Seq::<Kind>::empty() + unacceptable_kinds(matchers@) =~= unacceptable_kinds(
                matchers@,
            ));
        }
        if acceptable.len() == 0 {
            acceptable.push(Kind::AnySupported);
            proof {
                assert(acceptable@ =~= seq![Kind::AnySupported]);
            }
        }
        Self { acceptable, unacceptable }
    }

    /// Append matchers to the bucket, keeping their order.
    pub fn extend(&mut self, matchers: Vec<Matcher>)
        ensures
            final (self).acceptable@ == old(self).acceptable@ + acceptable_kinds(matchers@),
            final (self).unacceptable@ == old(self).unacceptable@ + unacceptable_kinds(matchers@),
    {
        push_kinds(&mut self.acceptable, &mut self.unacceptable, matchers);
    }

    /// The compound decision over the method string.
    pub fn matches(&self, method: &str) -> (r: bool)
        ensures
            r == bucket_matches(self.acceptable@, self.unacceptable@, method@),
    {
        let v = crate::text::chars_of(method);
        self.matches_chars(&v)
    }

    /// `matches` on an already decomposed path.
    pub fn matches_chars(&self, method: &Vec<char>) -> (r: bool)
        ensures
            r == bucket_matches(self.acceptable@, self.unacceptable@, method@),
    {
        let matched_any = any_matches_chars(&self.acceptable, method);
        if !matched_any {
            return false;
        }
        let matched_none = any_matches_chars(&self.unacceptable, method);
        !matched_none
    }
}


/// The kinds contributed by a single matcher: its own kind, on the side of
/// its permission.
pub proof fn lemma_kinds_of_single(m: Matcher)
    ensures
        acceptable_kinds(seq![m]) == if m.permission is Acceptable {
            seq![m.kind]
        } else {
            Seq::<Kind>::empty()
        },
        unacceptable_kinds(seq![m]) == if m.permission is Unacceptable {
            seq![m.kind]
        } else {
            Seq::<Kind>::empty()
        },
{
    assert(seq![m].drop_last() =~= Seq::<Matcher>::empty());
    assert(seq![m].last() == m);
    assert(acceptable_kinds(Seq::<Matcher>::empty()) == Seq::<Kind>::empty());
    assert(unacceptable_kinds(Seq::<Matcher>::empty()) == Seq::<Kind>::empty());
    assert(Seq::<Kind>::empty().push(m.kind) =~= seq![m.kind]);
    if m.permission is Acceptable {
        assert(acceptable_kinds(seq![m]) =~= seq![m.kind]);
        assert(unacceptable_kinds(seq![m]) =~= Seq::<Kind>::empty());
    } else {
        assert(acceptable_kinds(seq![m]) =~= Seq::<Kind>::empty());
        assert(unacceptable_kinds(seq![m]) =~= seq![m.kind]);
    }
}


/// A positive bucket decision means: some acceptable matcher accepts the
/// input, and no unacceptable matcher accepts it.
pub proof fn lemma_bucket_matches_means(acc: Seq<Kind>, unacc: Seq<Kind>, method: Seq<char>)
    requires
        bucket_matches(acc, unacc, method),
    ensures
        any_matches(acc, method),
        !any_matches(unacc, method),
{
}

/// A bucket built from no matchers is seeded with `AnySupported` and
/// admits every supported method, in any letter case.
pub proof fn lemma_default_bucket_admits_all(method: Seq<char>)
    requires
        super::method::is_supported_method(crate::text::lower(method)),
    ensures
        bucket_matches(seq![Kind::AnySupported], Seq::<Kind>::empty(), method),
{
    assert(kind_matches(seq![Kind::AnySupported][0], method));
}

/// Case-insensitivity lifts from single matchers to the whole bucket.
pub proof fn lemma_bucket_case_insensitive(acc: Seq<Kind>, unacc: Seq<Kind>, s: Seq<char>)
    ensures
        bucket_matches(acc, unacc, s) == bucket_matches(acc, unacc, crate::text::lower(s)),
{
    assert forall|i: int| 0 <= i < acc.len() implies kind_matches(#[trigger] acc[i], s)
        == kind_matches(acc[i], crate::text::lower(s)) by {
        super::method::lemma_method_case_insensitive(acc[i], s);
    }
    assert forall|i: int| 0 <= i < unacc.len() implies kind_matches(#[trigger] unacc[i], s)
        == kind_matches(unacc[i], crate::text::lower(s)) by {
        super::method::lemma_method_case_insensitive(unacc[i], s);
    }
    assert(any_matches(acc, s) == any_matches(acc, crate::text::lower(s)));
    assert(any_matches(unacc, s) == any_matches(unacc, crate::text::lower(s)));
}

} // verus!
