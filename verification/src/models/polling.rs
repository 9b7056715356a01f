pub mod depth;
pub mod proxies;
pub mod proxy;
pub mod redirections;
pub mod time;
pub mod user_agent;
pub mod user_agents;

use vstd::prelude::*;

verus! {

/// The polling rules: depth cap, optional proxy, redirection cap, pacing,
/// and optional user agent.
#[derive(Debug)]
pub struct Polling {
    pub depth: depth::Depth,
    pub proxy: Option<proxy::Proxy>,
    pub redirections: redirections::Redirections,
    pub time: time::Time,
    pub user_agent: Option<user_agent::UserAgent>,
}

impl Polling {
    pub fn new(
        depth: depth::Depth,
        proxy: Option<proxy::Proxy>,
        redirections: redirections::Redirections,
        time: time::Time,
        user_agent: Option<user_agent::UserAgent>,
    ) -> (r: Self)
        ensures
            r.depth == depth,
            r.proxy == proxy,
            r.redirections == redirections,
            r.time == time,
            r.user_agent == user_agent,
    {
        Self { depth, proxy, redirections, time, user_agent }
    }

    pub fn builder() -> (r: Builder)
        ensures
            r.depth.spec_acceptable() && r.depth.effective_cap() == 7,
            r.proxy is None,
            r.redirections.spec_acceptable() && r.redirections.effective_cap() == 5,
            r.time.min_sleep_between_requests == 3000,
            r.time.max_sleep_between_requests == 60000,
            r.time.request_timeout == 7000,
            r.user_agent is None,
    {
        Builder::default()
    }

    /// Whether a crawl at `depth` is still within the depth cap.
    pub fn depth_matches(&self, depth: u16) -> (r: bool)
        ensures
            r == (depth < self.depth.effective_cap()),
    {
        self.depth.matches(depth)
    }
}

impl Default for Polling {
    /// The default rules: every component at its own default, no proxy and
    /// no user agent.
    fn default() -> (r: Self)
        ensures
            r.depth.spec_acceptable() && r.depth.effective_cap() == 7,
            r.proxy is None,
            r.redirections.spec_acceptable() && r.redirections.effective_cap() == 5,
            r.time.min_sleep_between_requests == 3000,
            r.time.max_sleep_between_requests == 60000,
            r.time.request_timeout == 7000,
            r.user_agent is None,
    {
        Self::new(
            depth::Depth::default(),
            None,
            redirections::Redirections::default(),
            time::Time::default(),
            None,
        )
    }
}

/// A builder that accumulates polling rules.
#[derive(Debug)]
pub struct Builder {
    pub depth: depth::Depth,
    pub proxy: Option<proxy::Proxy>,
    pub redirections: redirections::Redirections,
    pub time: time::Time,
    pub user_agent: Option<user_agent::UserAgent>,
}

impl Builder {
    pub fn depth(self, depth: depth::Depth) -> (r: Self)
        ensures
            r.depth == depth,
            r.proxy == self.proxy,
            r.redirections == self.redirections,
            r.time == self.time,
            r.user_agent == self.user_agent,
    {
        Self { depth, ..self }
    }

    pub fn proxy(self, proxy: Option<proxy::Proxy>) -> (r: Self)
        ensures
            r.proxy == proxy,
            r.depth == self.depth,
            r.redirections == self.redirections,
            r.time == self.time,
            r.user_agent == self.user_agent,
    {
        Self { proxy, ..self }
    }

    pub fn redirections(self, redirections: redirections::Redirections) -> (r: Self)
        ensures
            r.redirections == redirections,
            r.depth == self.depth,
            r.proxy == self.proxy,
            r.time == self.time,
            r.user_agent == self.user_agent,
    {
        Self { redirections, ..self }
    }

    pub fn time(self, time: time::Time) -> (r: Self)
        ensures
            r.time == time,
            r.depth == self.depth,
            r.proxy == self.proxy,
            r.redirections == self.redirections,
            r.user_agent == self.user_agent,
    {
        Self { time, ..self }
    }

    pub fn user_agent(self, user_agent: Option<user_agent::UserAgent>) -> (r: Self)
        ensures
            r.user_agent == user_agent,
            r.depth == self.depth,
            r.proxy == self.proxy,
            r.redirections == self.redirections,
            r.time == self.time,
    {
        Self { user_agent, ..self }
    }

    pub fn build(self) -> (r: Polling)
        ensures
            r.depth == self.depth,
            r.proxy == self.proxy,
            r.redirections == self.redirections,
            r.time == self.time,
            r.user_agent == self.user_agent,
    {
        Polling::new(self.depth, self.proxy, self.redirections, self.time, self.user_agent)
    }
}

impl Default for Builder {
    /// Every rule at its default, no proxy and no user agent.
    fn default() -> (r: Self)
        ensures
            r.depth.spec_acceptable() && r.depth.effective_cap() == 7,
            r.proxy is None,
            r.redirections.spec_acceptable() && r.redirections.effective_cap() == 5,
            r.time.min_sleep_between_requests == 3000,
            r.time.max_sleep_between_requests == 60000,
            r.time.request_timeout == 7000,
            r.user_agent is None,
    {
        Self {
            depth: depth::Depth::default(),
            proxy: None,
            redirections: redirections::Redirections::default(),
            time: time::Time::default(),
            user_agent: None,
        }
    }
}

} // verus!
