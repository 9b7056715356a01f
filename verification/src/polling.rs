//! The decisions of the polling scheduler: the depth gate, the bound on
//! how many links one page may contribute, the shuffle of the siblings,
//! and what each child outcome means for the sibling loop. The waiting,
//! fetching and recursion around these decisions live outside the library.

use crate::crawlers::urls::CrawlFailed;
use crate::models::polling::Polling as PollingRules;
use crate::models::route::Route;
use crate::models::routes::root_url::RootUrl;
use crate::models::routes::root_urls::RootUrls;
use crate::random::shuffle_urls;
use crate::urls::UrlParts;
use vstd::prelude::*;

verus! {

/// The most links the scheduler takes from a single page.
pub const MAX_PAGE_URLS: usize = 100;

/// Why the scheduler cannot run at all.
#[derive(Debug, Clone, PartialEq, Eq)]
pub enum ErrorKind {
    /// There is no seed URL to start from.
    RootUrlsEmpty,
}

/// How crawling below one URL can end.
#[derive(Debug, Clone, PartialEq, Eq)]
pub enum CrawlWithParentUrlErrorKind {
    /// Fetching or reading the page failed.
    Crawl(CrawlFailed),
    /// The depth cap does not let the crawl descend here.
    DepthLimitReached,
    /// The page contributed fewer than two crawlable links.
    NoUrlsFound,
}

/// What the sibling loop does after one child's outcome.
#[derive(Debug, Clone, Copy, PartialEq, Eq, Structural)]
pub enum SiblingAction {
    /// Abandon the remaining siblings: the child succeeded, or the depth
    /// cap would stop every further sibling too.
    Stop,
    /// Go on with the next sibling.
    Next,
}

/// The scheduler's rules: where the crawl may go and how it paces itself.
#[derive(Debug)]
pub struct Polling {
    pub route: Route,
    pub polling: PollingRules,
}

impl Polling {
    pub fn new(route: Route, polling: PollingRules) -> (r: Self)
        ensures
            r.route == route,
            r.polling == polling,
    {
        Self { route, polling }
    }

    /// The seed URLs the main loop picks from.
    pub fn get_root_urls(&self) -> (r: &RootUrls)
        ensures
            r == &self.route.root_urls,
    {
        &self.route.root_urls
    }

    /// The check the scheduler makes before its main loop: with no seed
    /// URL at all it reports `RootUrlsEmpty` and runs nothing.
    pub fn check_root_urls(&self) -> (r: Result<(), ErrorKind>)
        ensures
            r is Ok <==> self.route.root_urls.0@.len() > 0,
            r matches Err(e) ==> e is RootUrlsEmpty,
    {
        if self.route.root_urls.is_empty() {
            Err(ErrorKind::RootUrlsEmpty)
        } else {
            Ok(())
        }
    }

    /// A uniformly chosen seed URL, or `None` where there is none.
    pub fn get_random_root_url(&self) -> (r: Option<&RootUrl>)
        ensures
            r is Some <==> self.route.root_urls.0@.len() > 0,
            r matches Some(u) ==> exists|i: int|
                0 <= i < self.route.root_urls.0@.len() && self.route.root_urls.0@[i] == *u,
    {
        self.route.root_urls.get_random()
    }

    /// Whether a crawl at `depth` is still within the depth cap.
    pub fn depth_matches(&self, depth: u16) -> (r: bool)
        ensures
            r == (depth < self.polling.depth.effective_cap()),
    {
        self.polling.depth_matches(depth)
    }

    /// The depth gate: the root passes unconditionally, and any deeper
    /// node passes exactly when its depth is below the effective cap.
    pub fn check_depth(&self, depth: u16) -> (r: Result<(), CrawlWithParentUrlErrorKind>)
        ensures
            r is Ok <==> (depth == 0 || depth < self.polling.depth.effective_cap()),
            r matches Err(e) ==> e is DepthLimitReached,
    {
        if depth > 0 && !self.depth_matches(depth) {
            Err(CrawlWithParentUrlErrorKind::DepthLimitReached)
        } else {
            Ok(())
        }
    }

    /// A sleep drawn uniformly from the configured range, in milliseconds.
    pub fn get_random_sleep_between_requests(&self) -> (r: u64)
        requires
            self.polling.time.wf(),
        ensures
            self.polling.time.min_sleep_between_requests <= r
                <= self.polling.time.max_sleep_between_requests,
    {
        self.polling.time.get_random_sleep_between_requests()
    }

    /// What the scheduler explores from one page: at most `MAX_PAGE_URLS`
    /// of the page's admitted URLs — the first that many, in a uniformly
    /// random order — and `NoUrlsFound` where fewer than two links came
    /// in, a leaf of the crawl rather than a failure.
    pub fn select_page_urls(&self, urls: Vec<UrlParts>) -> (r: Result<
        Vec<UrlParts>,
        CrawlWithParentUrlErrorKind,
    >)
        ensures
            r matches Ok(v) ==> {
                &&& v@.len() <= MAX_PAGE_URLS
                &&& v@.len() > 1
                &&& v@.len() == if urls@.len() <= MAX_PAGE_URLS {
                    urls@.len() as int
                } else {
                    MAX_PAGE_URLS as int
                }
                &&& v@.to_multiset() == urls@.take(v@.len() as int).to_multiset()
            },
            r matches Err(e) ==> (e is NoUrlsFound && urls@.len() <= 1),
            r is Err <==> urls@.len() <= 1,
    {
        let mut taken = truncate_page_urls(urls);
        if taken.len() <= 1 {
            return Err(CrawlWithParentUrlErrorKind::NoUrlsFound);
        }
        let ghost before = taken@;
        shuffle_urls(&mut taken);
        proof {
            assert(taken@.to_multiset().len() == before.to_multiset().len());
            before.to_multiset_ensures();
            taken@.to_multiset_ensures();
        }
        Ok(taken)
    }

    /// What one child's outcome means for the sibling loop: stop on
    /// success and on the depth limit, go on after a crawl failure or a
    /// page without links.
    pub fn sibling_action(child: &Result<(), CrawlWithParentUrlErrorKind>) -> (r: SiblingAction)
        ensures
            r is Stop <==> (child is Ok || (child matches Err(e) && e is DepthLimitReached)),
    {
        match child {
            Ok(_) => SiblingAction::Stop,
            Err(CrawlWithParentUrlErrorKind::DepthLimitReached) => SiblingAction::Stop,
            Err(_) => SiblingAction::Next,
        }
    }
}

/// The first `MAX_PAGE_URLS` of a page's URLs; the rest are never
/// considered, which bounds the fanout of every node of the crawl.
fn truncate_page_urls(urls: Vec<UrlParts>) -> (r: Vec<UrlParts>)
    ensures
        r@.len() <= MAX_PAGE_URLS,
        r@ == urls@.take(
            if urls@.len() <= MAX_PAGE_URLS {
                urls@.len() as int
            } else {
                MAX_PAGE_URLS as int
            },
        ),
{
    let ghost all = urls@;
    let mut rest = urls;
    let mut r: Vec<UrlParts> = Vec::new();
    let mut k: usize = 0;
    let total: usize = rest.len();
    proof {
        assert(r@ =~= all.take(0));
        assert(rest@ =~= all.skip(0));
    }
    while rest.len() > 0 && k < MAX_PAGE_URLS
        invariant
            all.len() == total,
            k <= all.len(),
            k <= MAX_PAGE_URLS,
            rest@ == all.skip(k as int),
            r@ == all.take(k as int),
        decreases rest@.len(),
    {
        proof {
            assert(all.skip(k as int).len() == all.len() - k);
        }
        let u = rest.remove(0);
        r.push(u);
        proof {
            assert(rest@ =~= all.skip(k + 1));
            assert(r@ =~= all.take(k + 1));
        }
        k = k + 1;
    }
    proof {
        if k < MAX_PAGE_URLS {
            assert(all.skip(k as int).len() == 0);
            assert(all.len() == k);
        }
    }
    r
}

} // verus!
