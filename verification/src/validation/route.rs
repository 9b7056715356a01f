//! URL admission: a URL is admitted exactly when it has a host and a known
//! port and every dimension's bucket admits the corresponding component.

use crate::models::route::Route;
use crate::urls::UrlParts;
use vstd::prelude::*;

verus! {

/// Whether the route admits the URL. The decision is a function of the
/// route's buckets and the URL's parts alone, so two calls on the same
/// values return the same answer.
pub fn validate_url(url: &UrlParts, route: &Route) -> (r: bool)
    ensures
        r == route.admits(url@),
{
    let host: &String = match &url.host {
        Some(h) => h,
        None => {
            return false;
        },
    };
    let port: u16 = match url.port {
        Some(p) => p,
        None => {
            return false;
        },
    };
    let scheme_matches = route.scheme_matches(url.scheme.as_str());
    let host_matches = route.host_matches(host.as_str());
    let port_matches = route.port_matches(port);
    let path_matches = route.path_matches(url.path.as_str());
    scheme_matches && host_matches && port_matches && path_matches
}

/// `Route::admits` is a pure function of the route's buckets and the URL's
/// parts: on equal values the decision is equal.
pub proof fn lemma_admits_pure(r1: Route, r2: Route, u1: crate::urls::UrlModel, u2: crate::urls::UrlModel)
    requires
        r1.hosts.acceptable@ == r2.hosts.acceptable@,
        r1.hosts.unacceptable@ == r2.hosts.unacceptable@,
        r1.paths.acceptable@ == r2.paths.acceptable@,
        r1.paths.unacceptable@ == r2.paths.unacceptable@,
        r1.ports.acceptable@ == r2.ports.acceptable@,
        r1.ports.unacceptable@ == r2.ports.unacceptable@,
        r1.schemes.acceptable@ == r2.schemes.acceptable@,
        r1.schemes.unacceptable@ == r2.schemes.unacceptable@,
        u1 == u2,
    ensures
        r1.admits(u1) == r2.admits(u2),
{
}

/// A route built from no matchers admits exactly the URLs that have a
/// host and a known port and whose scheme, in any letter case, is a
/// supported one.
pub proof fn lemma_default_route_admits(r: Route, u: crate::urls::UrlModel)
    requires
        r.hosts.acceptable@ =~= seq![crate::models::routes::host::Kind::Any],
        r.hosts.unacceptable@ =~= Seq::<crate::models::routes::host::Kind>::empty(),
        r.paths.acceptable@ =~= seq![crate::models::routes::path::Kind::Any],
        r.paths.unacceptable@ =~= Seq::<crate::models::routes::path::Kind>::empty(),
        r.ports.acceptable@ =~= seq![crate::models::routes::port::Kind::Any],
        r.ports.unacceptable@ =~= Seq::<crate::models::routes::port::Kind>::empty(),
        r.schemes.acceptable@ =~= seq![crate::models::routes::scheme::Kind::AnySupported],
        r.schemes.unacceptable@ =~= Seq::<crate::models::routes::scheme::Kind>::empty(),
    ensures
        r.admits(u) <==> {
            &&& u.host is Some
            &&& u.port is Some
            &&& (crate::text::lower(u.scheme) == "http"@ || crate::text::lower(u.scheme)
                == "https"@)
        },
{
    match u.host {
        Some(h) => match u.port {
            Some(p) => {
                crate::models::routes::hosts::lemma_default_bucket_admits_all(h);
                crate::models::routes::paths::lemma_default_bucket_admits_all(u.path);
                crate::models::routes::ports::lemma_default_bucket_admits_all(p);
                if crate::text::lower(u.scheme) == "http"@ || crate::text::lower(u.scheme)
                    == "https"@ {
                    crate::models::routes::schemes::lemma_default_bucket_admits_all(u.scheme);
                } else {
                    assert(!crate::models::routes::scheme::kind_matches(
                        r.schemes.acceptable@[0],
                        u.scheme,
                    ));
                    assert(!crate::models::routes::schemes::any_matches(
                        r.schemes.acceptable@,
                        u.scheme,
                    ));
                }
            },
            None => {},
        },
        None => {},
    }
}

} // verus!
