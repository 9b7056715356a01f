//! The decisions of the blocking crawler: which seed URLs survive the
//! blacklist, and how long to sleep between requests. The fetch loop
//! around them lives outside the library.

use crate::parser::in_blacklist;
use crate::random::random_in_range;
use vstd::prelude::*;

verus! {

/// The seed URLs no blacklist entry covers, in order.
pub open spec fn roots_kept(roots: Seq<Seq<char>>, blacklist: Seq<Seq<char>>) -> Seq<Seq<char>>
    decreases roots.len(),
{
    if roots.len() == 0 {
        Seq::empty()
    } else if in_blacklist(roots.last(), blacklist) {
        roots_kept(roots.drop_last(), blacklist)
    } else {
        roots_kept(roots.drop_last(), blacklist).push(roots.last())
    }
}

/// The seed URLs worth crawling: those no blacklist entry covers.
pub fn filter_roots(roots: Vec<String>, blacklist: &Vec<String>) -> (r: Vec<String>)
    ensures
        r.deep_view() == roots_kept(roots.deep_view(), blacklist.deep_view()),
{
    let ghost rs = roots.deep_view();
    let ghost bl = blacklist.deep_view();
    let mut rest = roots;
    let total: usize = rest.len();
    let mut out: Vec<String> = Vec::new();
    let mut k: usize = 0;
    proof {
        assert(rs.take(0) =~= Seq::<Seq<char>>::empty());
        assert(out.deep_view() =~= roots_kept(rs.take(0), bl));
        assert(rest.deep_view() =~= rs.skip(0));
    }
    while rest.len() > 0
        invariant
            rs.len() == total,
            k <= rs.len(),
            bl == blacklist.deep_view(),
            rest.deep_view() == rs.skip(k as int),
            rest@.len() == rs.skip(k as int).len(),
            out.deep_view() == roots_kept(rs.take(k as int), bl),
        decreases rest@.len(),
    {
        let ghost before = out.deep_view();
        let ghost rest_before = rest@;
        let ghost deep_before = rest.deep_view();
        let u = rest.remove(0);
        proof {
            assert forall|j: int| 0 <= j < rest@.len() implies rest.deep_view()[j] == rs.skip(
                k + 1,
            )[j] by {
                assert(rest.deep_view()[j] == rest@[j]@);
                assert(rest@[j] == rest_before[j + 1]);
                assert(deep_before[j + 1] == rest_before[j + 1]@);
                assert(deep_before == rs.skip(k as int));
            }
            assert(rest.deep_view() =~= rs.skip(k + 1));
            assert(deep_before[0] == rest_before[0]@);
            assert(u@ == rs.skip(k as int)[0]);
            assert(rs.take(k + 1).drop_last() =~= rs.take(k as int));
            assert(rs.take(k + 1).last() == rs[k as int]);
        }
        if !crate::parser::value_in_blacklist(u.as_str(), blacklist) {
            let ghost um = u@;
            out.push(u);
            proof {
                assert(out.deep_view() =~= before.push(um));
            }
        }
        k = k + 1;
    }
    proof {
        assert(rs.take(k as int) =~= rs);
    }
    out
}

/// A sleep drawn uniformly from `min..max`, in seconds, as the blocking
/// crawler paces itself between two requests at positive depth.
pub fn crawl_sleep_seconds(min_sleep: u32, max_sleep: u32) -> (r: u32)
    requires
        min_sleep < max_sleep,
    ensures
        min_sleep <= r < max_sleep,
{
    let drawn = random_in_range(min_sleep as u64, (max_sleep - 1) as u64);
    drawn as u32
}

} // verus!
