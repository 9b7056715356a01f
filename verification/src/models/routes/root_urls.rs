//! The ordered collection of seed URLs, with a uniform random pick.

use super::root_url::RootUrl;
use crate::random::random_index;
use vstd::prelude::*;

verus! {

/// The seed URLs the crawl starts from.
#[derive(Debug, PartialEq, Eq)]
pub struct RootUrls(pub Vec<RootUrl>);

impl RootUrls {
    /// How many seed URLs there are.
    pub fn len(&self) -> (r: usize)
        ensures
            r == self.0@.len(),
    {
        self.0.len()
    }

    /// Whether there is no seed URL at all.
    pub fn is_empty(&self) -> (r: bool)
        ensures
            r == (self.0@.len() == 0),
    {
        self.0.len() == 0
    }

    /// A uniformly chosen seed URL, or `None` where there is none.
    pub fn get_random(&self) -> (r: Option<&RootUrl>)
        ensures
            r is Some <==> self.0@.len() > 0,
            r matches Some(u) ==> exists|i: int| 0 <= i < self.0@.len() && self.0@[i] == *u,
    {
        if self.0.len() == 0 {
            None
        } else {
            let i = random_index(self.0.len());
            Some(&self.0[i])
        }
    }

    /// Append seed URLs, keeping their order.
    pub fn extend(&mut self, root_urls: Vec<RootUrl>)
        ensures
            final (self).0@ == old(self).0@ + root_urls@,
    {
        let ghost all = root_urls@;
        let ghost base = self.0@;
        let mut more = root_urls;
        let total: usize = more.len();
        let mut k: usize = 0;
        proof {
            assert(self.0@ =~= base + all.take(0));
            assert(more@ =~= all.skip(0));
        }
        while more.len() > 0
            invariant
                all.len() == total,
                k <= all.len(),
                more@ == all.skip(k as int),
                self.0@ == base + all.take(k as int),
            decreases more@.len(),
        {
            proof {
                assert(all.skip(k as int).len() == all.len() - k);
            }
            let u = more.remove(0);
            self.0.push(u);
            proof {
                assert(more@ =~= all.skip(k + 1));
                assert(self.0@ =~= base + all.take(k + 1));
            }
            k = k + 1;
        }
        proof {
            assert(all.take(k as int) =~= all);
        }
    }
}

impl Default for RootUrls {
    /// No seed URLs at all.
    fn default() -> (r: Self)
        ensures
            r.0@ =~= Seq::<RootUrl>::empty(),
    {
        Self(Vec::new())
    }
}

} // verus!
