//! An ordered collection of user agents, with a uniform random pick.

use super::user_agent::UserAgent;
use crate::random::random_index;
use vstd::prelude::*;

verus! {

/// The user agents configured for rotation.
#[derive(Debug, PartialEq, Eq)]
pub struct UserAgents(pub Vec<UserAgent>);

impl UserAgents {
    pub fn new(user_agents: Vec<UserAgent>) -> (r: Self)
        ensures
            r.0 == user_agents,
    {
        Self(user_agents)
    }

    /// A uniformly chosen user agent, or `None` where there is none.
    pub fn get_random(&self) -> (r: Option<&UserAgent>)
        ensures
            r is Some <==> self.0@.len() > 0,
            r matches Some(u) ==> exists|i: int| 0 <= i < self.0@.len() && self.0@[i] == *u,
    {
        if self.0.len() == 0 {
            None
        } else {
            let i = random_index(self.0.len());
            Some(&self.0[i])
        }
    }

    /// Append user agents, keeping their order.
    pub fn extend(&mut self, user_agents: Vec<UserAgent>)
        ensures
            final (self).0@ == old(self).0@ + user_agents@,
    {
        let ghost all = user_agents@;
        let ghost base = self.0@;
        let mut more = user_agents;
        let total: usize = more.len();
        let mut k: usize = 0;
        proof {
            assert(self.0@ =~= base + all.take(0));
            assert(more@ =~= all.skip(0));
        }
        while more.len() > 0
            invariant
                all.len() == total,
                k <= all.len(),
                more@ == all.skip(k as int),
                self.0@ == base + all.take(k as int),
            decreases more@.len(),
        {
            proof {
                assert(all.skip(k as int).len() == all.len() - k);
            }
            let u = more.remove(0);
            self.0.push(u);
            proof {
                assert(more@ =~= all.skip(k + 1));
                assert(self.0@ =~= base + all.take(k + 1));
            }
            k = k + 1;
        }
        proof {
            assert(all.take(k as int) =~= all);
        }
    }
}

impl Default for UserAgents {
    /// No user agents at all.
    fn default() -> (r: Self)
        ensures
            r.0@ =~= Seq::<UserAgent>::empty(),
    {
        Self(Vec::new())
    }
}

} // verus!
