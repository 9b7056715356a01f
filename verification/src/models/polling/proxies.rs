//! An ordered collection of proxies.

use super::proxy::Proxy;
use vstd::prelude::*;

verus! {

/// The proxies configured for use.
#[derive(Debug, PartialEq, Eq)]
pub struct Proxies(pub Vec<Proxy>);

impl Proxies {
    /// Append proxies, keeping their order.
    pub fn extend(&mut self, proxies: Vec<Proxy>)
        ensures
            final (self).0@ == old(self).0@ + proxies@,
    {
        let ghost all = proxies@;
        let ghost base = self.0@;
        let mut more = proxies;
        let total: usize = more.len();
        let mut k: usize = 0;
        proof {
            assert(self.0@ =~= base + all.take(0));
            assert(more@ =~= all.skip(0));
        }
        while more.len() > 0
            invariant
                all.len() == total,
                k <= all.len(),
                more@ == all.skip(k as int),
                self.0@ == base + all.take(k as int),
            decreases more@.len(),
        {
            proof {
                assert(all.skip(k as int).len() == all.len() - k);
            }
            let p = more.remove(0);
            self.0.push(p);
            proof {
                assert(more@ =~= all.skip(k + 1));
                assert(self.0@ =~= base + all.take(k + 1));
            }
            k = k + 1;
        }
        proof {
            assert(all.take(k as int) =~= all);
        }
    }
}

impl Default for Proxies {
    /// No proxies at all.
    fn default() -> (r: Self)
        ensures
            r.0@ =~= Seq::<Proxy>::empty(),
    {
        Self(Vec::new())
    }
}

} // verus!
