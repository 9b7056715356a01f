//! The whole configuration: a route and the polling rules.

use super::polling::Polling;
use super::route::Route;
use vstd::prelude::*;

verus! {

/// The full set of crawl rules.
#[derive(Debug)]
pub struct Rules {
    pub route: Route,
    pub polling: Polling,
}

impl Rules {
    pub fn new(route: Route, polling: Polling) -> (r: Self)
        ensures
            r.route == route,
            r.polling == polling,
    {
        Self { route, polling }
    }

    /// A builder with both parts at their defaults.
    pub fn builder() -> (r: Builder)
        ensures
            r == (Builder { route: r.route, polling: r.polling }),
    {
        Builder { route: Route::default(), polling: Polling::default() }
    }
}

/// A builder that accumulates the two parts of the rules.
#[derive(Debug)]
pub struct Builder {
    pub route: Route,
    pub polling: Polling,
}

impl Builder {
    pub fn route(self, route: Route) -> (r: Self)
        ensures
            r.route == route,
            r.polling == self.polling,
    {
        Builder { route, ..self }
    }

    pub fn polling(self, polling: Polling) -> (r: Self)
        ensures
            r.polling == polling,
            r.route == self.route,
    {
        Builder { polling, ..self }
    }

    pub fn build(self) -> (r: Rules)
        ensures
            r.route == self.route,
            r.polling == self.polling,
    {
        Rules::new(self.route, self.polling)
    }
}

} // verus!
