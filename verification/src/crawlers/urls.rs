//! From a page's `href` values to the URLs the crawl may follow: parse and
//! sieve the references, then keep those the route admits. Fetching the
//! page and querying its anchors happen outside the library; the decisions
//! happen here.

use crate::models::route::Route;
use crate::parser::robots_txt::InvalidRobotRules;
use crate::parser::urls::{get_urls_from_hrefs, urls_from_hrefs};
use crate::urls::{UrlModel, UrlParts};
use crate::validation::route::validate_url;
use vstd::prelude::*;

verus! {

/// Why a single page could not be crawled. The text is the transport's or
/// the parser's message.
#[derive(Debug, Clone, PartialEq, Eq)]
pub enum CrawlFailed {
    /// Network, TLS, timeout, or the redirect cap.
    Transport(String),
    /// The response body could not be read as a document.
    Parse(String),
}

/// Why a `robots.txt` could not be read.
#[derive(Debug, Clone, PartialEq, Eq)]
pub enum CrawlRobotsTxtErrorKind {
    /// Network, TLS, timeout, or the redirect cap.
    Transport(String),
    /// The body was not a readable rules file.
    Parse(InvalidRobotRules),
}

/// The URLs of a page that the route admits, in order: of the `href`
/// values, those that are absolute URLs with a host and a special scheme,
/// and whose components every bucket admits.
pub open spec fn admitted_urls(us: Seq<UrlModel>, route: Route) -> Seq<UrlModel>
    decreases us.len(),
{
    if us.len() == 0 {
        Seq::empty()
    } else if route.admits(us.last()) {
        admitted_urls(us.drop_last(), route).push(us.last())
    } else {
        admitted_urls(us.drop_last(), route)
    }
}

/// Sieve a page's `href` values through parsing and the route: the result
/// is exactly the admitted URLs, in the order the page gave them.
pub fn get_page_urls(hrefs: &Vec<String>, route: &Route) -> (r: Vec<UrlParts>)
    ensures
        r@.map_values(|u: UrlParts| u@) == admitted_urls(urls_from_hrefs(hrefs.deep_view()), *route),
{
    let mut parsed = get_urls_from_hrefs(hrefs);
    let ghost us = urls_from_hrefs(hrefs.deep_view());
    let ghost pv = parsed@;
    let total: usize = parsed.len();
    let mut r: Vec<UrlParts> = Vec::new();
    let mut k: usize = 0;
    proof {
        assert(us.take(0) =~= Seq::<UrlModel>::empty());
        assert(r@.map_values(|u: UrlParts| u@) =~= admitted_urls(us.take(0), *route));
        assert(parsed@ =~= pv.skip(0));
    }
    while parsed.len() > 0
        invariant
            pv.len() == total,
            k <= pv.len(),
            parsed@ == pv.skip(k as int),
            pv.map_values(|u: UrlParts| u@) == us,
            r@.map_values(|u: UrlParts| u@) == admitted_urls(us.take(k as int), *route),
        decreases parsed@.len(),
    {
        proof {
            assert(pv.skip(k as int).len() == pv.len() - k);
        }
        let u = parsed.remove(0);
        let ghost before = r@;
        proof {
            assert(u == pv[k as int]);
            assert(parsed@ =~= pv.skip(k + 1));
            assert(us[k as int] == pv[k as int]@);
            assert(us.take(k + 1).drop_last() =~= us.take(k as int));
            assert(us.take(k + 1).last() == us[k as int]);
        }
        if validate_url(&u, route) {
            let ghost um = u@;
            r.push(u);
            proof {
                assert(r@.map_values(|u: UrlParts| u@) =~= before.map_values(
                    |u: UrlParts| u@,
                ).push(um));
            }
        }
        k = k + 1;
    }
    proof {
        assert(us.take(k as int) =~= us);
    }
    r
}

} // verus!
