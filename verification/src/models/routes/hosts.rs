//! The host permission bucket: an ordered pair of acceptable and
//! unacceptable host matchers. An input is admitted when some acceptable
//! matcher accepts it and no unacceptable matcher does.

use super::host::{kind_matches, Kind, Matcher};
use super::permission::Kind as PermissionKind;
use vstd::prelude::*;

verus! {

/// The kinds of the acceptable matchers among `ms`, in order.
pub open spec fn acceptable_kinds(ms: Seq<Matcher>) -> Seq<Kind>
    decreases ms.len(),
{
    if ms.len() == 0 {
        Seq::empty()
    } else if ms.last().permission is Acceptable {
        acceptable_kinds(ms.drop_last()).push(ms.last().kind)
    } else {
        acceptable_kinds(ms.drop_last())
    }
}

/// The kinds of the unacceptable matchers among `ms`, in order.
pub open spec fn unacceptable_kinds(ms: Seq<Matcher>) -> Seq<Kind>
    decreases ms.len(),
{
    if ms.len() == 0 {
        Seq::empty()
    } else if ms.last().permission is Unacceptable {
        unacceptable_kinds(ms.drop_last()).push(ms.last().kind)
    } else {
        unacceptable_kinds(ms.drop_last())
    }
}

/// Whether some matcher kind in `ks` accepts the host.
pub open spec fn any_matches(ks: Seq<Kind>, host: Seq<char>) -> bool {
    exists|i: int| 0 <= i < ks.len() && kind_matches(#[trigger] ks[i], host)
}

/// The compound bucket decision: some acceptable matcher accepts the input
/// and no unacceptable matcher does.
pub open spec fn bucket_matches(acc: Seq<Kind>, unacc: Seq<Kind>, host: Seq<char>) -> bool {
    any_matches(acc, host) && !any_matches(unacc, host)
}

/// The host permission bucket.
#[derive(Debug)]
pub struct Hosts {
    pub acceptable: Vec<Kind>,
    pub unacceptable: Vec<Kind>,
}

/// Whether some kind in the vector accepts the already decomposed host.
fn any_matches_chars(ks: &Vec<Kind>, host: &Vec<char>) -> (r: bool)
    ensures
        r == any_matches(ks@, host@),
{
    let mut i: usize = 0;
    while i < ks.len()
        invariant
            i <= ks@.len(),
            forall|j: int| 0 <= j < i ==> !kind_matches(#[trigger] ks@[j], host@),
        decreases ks@.len() - i,
    {
        if ks[i].matches_chars(host) {
            return true;
        }
        i = i + 1;
    }
    false
}

/// Split matchers by permission and append their kinds to the two lists.
fn push_kinds(acc: &mut Vec<Kind>, unacc: &mut Vec<Kind>, matchers: Vec<Matcher>)
    ensures
        final (acc)@ == old(acc)@ + acceptable_kinds(matchers@),
        final (unacc)@ == old(unacc)@ + unacceptable_kinds(matchers@),
{
    let ghost all = matchers@;
    let ghost acc0 = acc@;
    let ghost unacc0 = unacc@;
    let mut ms = matchers;
    let total: usize = ms.len();
    let mut k: usize = 0;
    proof {
        assert(all.take(0) =~= Seq::<Matcher>::empty());
        assert(acc@ =~= acc0 + acceptable_kinds(all.take(0)));
        assert(unacc@ =~= unacc0 + unacceptable_kinds(all.take(0)));
        assert(ms@ =~= all.skip(0));
    }
    while ms.len() > 0
        invariant
            all.len() == total,
            k <= all.len(),
            ms@ == all.skip(k as int),
            acc@ == acc0 + acceptable_kinds(all.take(k as int)),
            unacc@ == unacc0 + unacceptable_kinds(all.take(k as int)),
        decreases ms@.len(),
    {
        proof {
            assert(all.skip(k as int).len() == all.len() - k);
            assert(k < all.len());
        }
        let m = ms.remove(0);
        proof {
            assert(m == all[k as int]);
            assert(ms@ =~= all.skip(k + 1));
            assert(all.take(k + 1).drop_last() =~= all.take(k as int));
            assert(all.take(k + 1).last() == all[k as int]);
        }
        match m.permission {
            PermissionKind::Acceptable => {
                acc.push(m.kind);
                proof {
                    assert(acc@ =~= acc0 + acceptable_kinds(all.take(k + 1)));
                    assert(unacc@ =~= unacc0 + unacceptable_kinds(all.take(k + 1)));
                }
            },
            PermissionKind::Unacceptable => {
                unacc.push(m.kind);
                proof {
                    assert(acc@ =~= acc0 + acceptable_kinds(all.take(k + 1)));
                    assert(unacc@ =~= unacc0 + unacceptable_kinds(all.take(k + 1)));
                }
            },
        }
        k = k + 1;
    }
    proof {
        assert(all.take(k as int) =~= all);
    }
}

impl Hosts {
    /// An empty bucket; it admits every host.
    pub fn default() -> (r: Self)
        ensures
            r.acceptable@ =~= Seq::<Kind>::empty(),
            r.unacceptable@ =~= Seq::<Kind>::empty(),
    {
        Self { acceptable: Vec::new(), unacceptable: Vec::new() }
    }

    /// Build a bucket from matchers; an empty acceptable list is seeded
    /// with `Any`, so an absent configuration admits every host.
    pub fn new(matchers: Vec<Matcher>) -> (r: Self)
        ensures
            r.acceptable@ == if acceptable_kinds(matchers@).len() == 0 {
                seq![Kind::Any]
            } else {
                acceptable_kinds(matchers@)
            },
            r.unacceptable@ == unacceptable_kinds(matchers@),
    {
        let mut acceptable: Vec<Kind> = Vec::new();
        let mut unacceptable: Vec<Kind> = Vec::new();
        push_kinds(&mut acceptable, &mut unacceptable, matchers);
        proof {
            assert(Seq::<Kind>::empty() + acceptable_kinds(matchers@) =~= acceptable_kinds(
                matchers@,
            ));
            assert(Seq::<Kind>::empty() + unacceptable_kinds(matchers@) =~= unacceptable_kinds(
                matchers@,
            ));
        }
        if acceptable.len() == 0 {
            acceptable.push(Kind::Any);
            proof {
                assert(acceptable@ =~= seq![Kind::Any]);
            }
        }
        Self { acceptable, unacceptable }
    }

    /// Append matchers to the bucket, keeping their order.
    pub fn extend(&mut self, matchers: Vec<Matcher>)
        ensures
            final (self).acceptable@ == old(self).acceptable@ + acceptable_kinds(matchers@),
            final (self).unacceptable@ == old(self).unacceptable@ + unacceptable_kinds(matchers@),
    {
        push_kinds(&mut self.acceptable, &mut self.unacceptable, matchers);
    }

    /// The compound decision over the host string.
    pub fn matches(&self, host: &str) -> (r: bool)
        ensures
            r == bucket_matches(self.acceptable@, self.unacceptable@, host@),
    {
        let v = crate::text::chars_of(host);
        self.matches_chars(&v)
    }

    /// `matches` on an already decomposed host.
    pub fn matches_chars(&self, host: &Vec<char>) -> (r: bool)
        ensures
            r == bucket_matches(self.acceptable@, self.unacceptable@, host@),
    {
        let matched_any = any_matches_chars(&self.acceptable, host);
        if !matched_any {
            return false;
        }
        let matched_none = any_matches_chars(&self.unacceptable, host);
        !matched_none
    }
}


/// The kinds contributed by a single matcher: its own kind, on the side of
/// its permission.
pub proof fn lemma_kinds_of_single(m: Matcher)
    ensures
        acceptable_kinds(seq![m]) == if m.permission is Acceptable {
            seq![m.kind]
        } else {
            Seq::<Kind>::empty()
        },
        unacceptable_kinds(seq![m]) == if m.permission is Unacceptable {
            seq![m.kind]
        } else {
            Seq::<Kind>::empty()
        },
{
    assert(seq![m].drop_last() =~= Seq::<Matcher>::empty());
    assert(seq![m].last() == m);
    assert(acceptable_kinds(Seq::<Matcher>::empty()) == Seq::<Kind>::empty());
    assert(unacceptable_kinds(Seq::<Matcher>::empty()) == Seq::<Kind>::empty());
    assert(Seq::<Kind>::empty().push(m.kind) =~= seq![m.kind]);
    if m.permission is Acceptable {
        assert(acceptable_kinds(seq![m]) =~= seq![m.kind]);
        assert(unacceptable_kinds(seq![m]) =~= Seq::<Kind>::empty());
    } else {
        assert(acceptable_kinds(seq![m]) =~= Seq::<Kind>::empty());
        assert(unacceptable_kinds(seq![m]) =~= seq![m.kind]);
    }
}


/// A positive bucket decision means: some acceptable matcher accepts the
/// input, and no unacceptable matcher accepts it.
pub proof fn lemma_bucket_matches_means(acc: Seq<Kind>, unacc: Seq<Kind>, host: Seq<char>)
    requires
        bucket_matches(acc, unacc, host),
    ensures
        any_matches(acc, host),
        !any_matches(unacc, host),
{
}

/// A bucket built from no matchers is seeded with `Any` and admits every
/// host.
pub proof fn lemma_default_bucket_admits_all(host: Seq<char>)
    ensures
        bucket_matches(seq![Kind::Any], Seq::<Kind>::empty(), host),
{
    assert(kind_matches(seq![Kind::Any][0], host));
}


/// Two buckets whose lists have the same mathematical form decide alike.
pub proof fn lemma_same_views_same_bucket(
    acc1: Seq<Kind>,
    unacc1: Seq<Kind>,
    acc2: Seq<Kind>,
    unacc2: Seq<Kind>,
    host: Seq<char>,
)
    requires
        acc1.map_values(|k: Kind| k@) == acc2.map_values(|k: Kind| k@),
        unacc1.map_values(|k: Kind| k@) == unacc2.map_values(|k: Kind| k@),
    ensures
        bucket_matches(acc1, unacc1, host) == bucket_matches(acc2, unacc2, host),
{
    let m1 = acc1.map_values(|k: Kind| k@);
    let m2 = acc2.map_values(|k: Kind| k@);
    assert(m1 == m2);
    assert(m1.len() == acc1.len());
    assert(m2.len() == acc2.len());
    assert(acc1.len() == acc2.len());
    assert forall|i: int| 0 <= i < acc1.len() implies kind_matches(#[trigger] acc1[i], host)
        == kind_matches(acc2[i], host) by {
        assert(acc1.map_values(|k: Kind| k@)[i] == acc1[i]@);
        assert(acc2.map_values(|k: Kind| k@)[i] == acc2[i]@);
        super::host::lemma_same_view_same_matches(acc1[i], acc2[i], host);
    }
    assert forall|i: int| 0 <= i < acc2.len() implies kind_matches(#[trigger] acc2[i], host)
        == kind_matches(acc1[i], host) by {
        assert(acc1.map_values(|k: Kind| k@)[i] == acc1[i]@);
        assert(acc2.map_values(|k: Kind| k@)[i] == acc2[i]@);
        super::host::lemma_same_view_same_matches(acc1[i], acc2[i], host);
    }
    assert(any_matches(acc1, host) == any_matches(acc2, host));
    let w1 = unacc1.map_values(|k: Kind| k@);
    let w2 = unacc2.map_values(|k: Kind| k@);
    assert(w1 == w2);
    assert(w1.len() == unacc1.len());
    assert(w2.len() == unacc2.len());
    assert(unacc1.len() == unacc2.len());
    assert forall|i: int| 0 <= i < unacc1.len() implies kind_matches(#[trigger] unacc1[i], host)
        == kind_matches(unacc2[i], host) by {
        assert(unacc1.map_values(|k: Kind| k@)[i] == unacc1[i]@);
        assert(unacc2.map_values(|k: Kind| k@)[i] == unacc2[i]@);
        super::host::lemma_same_view_same_matches(unacc1[i], unacc2[i], host);
    }
    assert forall|i: int| 0 <= i < unacc2.len() implies kind_matches(#[trigger] unacc2[i], host)
        == kind_matches(unacc1[i], host) by {
        assert(unacc1.map_values(|k: Kind| k@)[i] == unacc1[i]@);
        assert(unacc2.map_values(|k: Kind| k@)[i] == unacc2[i]@);
        super::host::lemma_same_view_same_matches(unacc1[i], unacc2[i], host);
    }
    assert(any_matches(unacc1, host) == any_matches(unacc2, host));
}

} // verus!
