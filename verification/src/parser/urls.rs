//! From the `href` values of a page's anchors to crawlable URLs: keep
//! exactly those that parse as absolute URLs, have a host, and use a
//! special scheme. Relative references are dropped here; the library never
//! resolves them against a base.

use crate::urls::{is_special_scheme, url_parts_of, UrlModel, UrlParts};
use vstd::prelude::*;

verus! {

/// The URL an `href` value contributes: its parts, where it is an absolute
/// URL with a host and a special scheme, and nothing otherwise.
pub open spec fn url_kept(h: Seq<char>) -> Option<UrlModel> {
    match url_parts_of(h) {
        Some(u) => if u.host is Some && is_special_scheme(u.scheme) {
            Some(u)
        } else {
            None
        },
        None => None,
    }
}

/// The URLs a sequence of `href` values contributes, in order.
pub open spec fn urls_from_hrefs(hs: Seq<Seq<char>>) -> Seq<UrlModel>
    decreases hs.len(),
{
    if hs.len() == 0 {
        Seq::empty()
    } else {
        match url_kept(hs.last()) {
            Some(u) => urls_from_hrefs(hs.drop_last()).push(u),
            None => urls_from_hrefs(hs.drop_last()),
        }
    }
}

/// Parse and sieve `href` values: the result holds the parts of exactly
/// those that are absolute URLs with a host and a special scheme.
pub fn get_urls_from_hrefs(hrefs: &Vec<String>) -> (r: Vec<UrlParts>)
    ensures
        r@.map_values(|u: UrlParts| u@) == urls_from_hrefs(hrefs.deep_view()),
{
    let ghost hs = hrefs.deep_view();
    let mut r: Vec<UrlParts> = Vec::new();
    let mut i: usize = 0;
    proof {
        assert(hs.take(0) =~= Seq::<Seq<char>>::empty());
        assert(r@.map_values(|u: UrlParts| u@) =~= urls_from_hrefs(hs.take(0)));
    }
    while i < hrefs.len()
        invariant
            i <= hs.len(),
            hs == hrefs.deep_view(),
            hs.len() == hrefs@.len(),
            r@.map_values(|u: UrlParts| u@) == urls_from_hrefs(hs.take(i as int)),
        decreases hs.len() - i,
    {
        let ghost before = r@;
        proof {
            assert(hs[i as int] == hrefs@[i as int]@);
            assert(hs.take(i + 1).drop_last() =~= hs.take(i as int));
            assert(hs.take(i + 1).last() == hs[i as int]);
        }
        match UrlParts::parse(hrefs[i].as_str()) {
            Ok(u) => {
                let keep = u.has_host() && u.is_special();
                if keep {
                    let ghost um = u@;
                    r.push(u);
                    proof {
                        assert(r@.map_values(|u: UrlParts| u@) =~= before.map_values(
                            |u: UrlParts| u@,
                        ).push(um));
                    }
                }
            },
            Err(_) => {},
        }
        i = i + 1;
    }
    proof {
        assert(hs.take(i as int) =~= hs);
    }
    r
}

} // verus!
