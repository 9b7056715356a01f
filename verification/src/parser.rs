//! Link-text handling for the blocking crawler: which `href` values are
//! worth following, which media types and prefixes are blacklisted, and
//! how a relative reference is joined onto its page's URL. Querying the
//! page for its anchors happens outside the library; every decision about
//! the extracted text happens here.

pub mod robots_txt;
pub mod urls;

use crate::text::{
    chars_eq_str, chars_of, chars_start_with, chars_start_with_str, chars_to_string, count_char,
    count_char_vec, find_char, find_char_vec, remove_all, remove_all_vec, rfind_char,
    rfind_char_vec, trim_end_char, trim_end_char_vec,
};
use vstd::prelude::*;

verus! {

/// Whether the text begins with an absolute `http` or `https` protocol.
pub open spec fn has_abs_protocol(s: Seq<char>) -> bool {
    "http://"@.is_prefix_of(s) || "https://"@.is_prefix_of(s)
}

/// A word character: a letter, a digit or an underscore.
pub open spec fn is_word_char(c: char) -> bool {
    ('a' <= c <= 'z') || ('A' <= c <= 'Z') || ('0' <= c <= '9') || c == '_'
}

/// An ASCII letter.
pub open spec fn is_ascii_letter(c: char) -> bool {
    ('a' <= c <= 'z') || ('A' <= c <= 'Z')
}

/// Nothing but ASCII letters.
pub open spec fn all_ascii_letters(s: Seq<char>) -> bool {
    forall|j: int| 0 <= j < s.len() ==> is_ascii_letter(#[trigger] s[j])
}

/// The `href` values worth considering: absolute `http`/`https` text, or a
/// site-relative reference that starts with `/` and a word character.
pub open spec fn href_candidate(s: Seq<char>) -> bool {
    has_abs_protocol(s) || (s.len() >= 2 && s[0] == '/' && is_word_char(s[1]))
}

/// Whether some blacklist entry is a prefix of the value.
pub open spec fn in_blacklist(value: Seq<char>, blacklist: Seq<Seq<char>>) -> bool {
    exists|i: int| 0 <= i < blacklist.len() && (#[trigger] blacklist[i]).is_prefix_of(value)
}

/// Whether the value equals some list entry.
pub open spec fn in_list(value: Seq<char>, list: Seq<Seq<char>>) -> bool {
    exists|i: int| 0 <= i < list.len() && #[trigger] list[i] == value
}

/// The media-type-or-domain suffix of an `href`: what follows the last dot
/// when that is one or more letters and at most one final slash, slash
/// included.
pub open spec fn media_capture(s: Seq<char>) -> Option<Seq<char>> {
    match rfind_char(s, '.') {
        Some(i) => {
            let suffix = s.skip(i + 1);
            let letters = if suffix.len() > 0 && suffix.last() == '/' {
                suffix.drop_last()
            } else {
                suffix
            };
            if letters.len() > 0 && all_ascii_letters(letters) {
                Some(suffix)
            } else {
                None
            }
        },
        None => None,
    }
}

/// Whether a captured suffix names a media type rather than a domain: a
/// site-relative reference always does; an absolute one does when it has
/// more than two slashes beyond an optional final one.
pub open spec fn media_type_of_match(href: Seq<char>, cap: Seq<char>) -> Option<Seq<char>> {
    if href.len() > 0 && href[0] == '/' {
        Some(cap)
    } else {
        let slashes = count_char(href, '/') - (if href.len() > 0 && href.last() == '/' {
            1int
        } else {
            0int
        });
        if slashes > 2 {
            Some(cap)
        } else {
            None
        }
    }
}

/// Whether one `href` survives the sieve: it must be a candidate; one with
/// a media-type suffix survives when the type is not blacklisted and the
/// suffix is not a bare domain's; any other candidate survives when no
/// blacklisted prefix covers it.
pub open spec fn keep_href(h: Seq<char>, bl_hrefs: Seq<Seq<char>>, bl_types: Seq<Seq<char>>) -> bool {
    &&& href_candidate(h)
    &&& match media_capture(h) {
        Some(cap) => match media_type_of_match(h, cap) {
            Some(t) => !in_list(t, bl_types),
            None => false,
        },
        None => !in_blacklist(h, bl_hrefs),
    }
}

/// The `href` values that survive the sieve, in order.
pub open spec fn hrefs_kept(
    hs: Seq<Seq<char>>,
    bl_hrefs: Seq<Seq<char>>,
    bl_types: Seq<Seq<char>>,
) -> Seq<Seq<char>>
    decreases hs.len(),
{
    if hs.len() == 0 {
        Seq::empty()
    } else if keep_href(hs.last(), bl_hrefs, bl_types) {
        hrefs_kept(hs.drop_last(), bl_hrefs, bl_types).push(hs.last())
    } else {
        hrefs_kept(hs.drop_last(), bl_hrefs, bl_types)
    }
}

/// Whether some blacklist entry is a prefix of the value.
pub fn value_in_blacklist(value: &str, blacklist: &Vec<String>) -> (r: bool)
    ensures
        r == in_blacklist(value@, blacklist.deep_view()),
{
    let v = chars_of(value);
    chars_in_blacklist(&v, blacklist)
}

/// `value_in_blacklist` on an already decomposed value.
fn chars_in_blacklist(v: &Vec<char>, blacklist: &Vec<String>) -> (r: bool)
    ensures
        r == in_blacklist(v@, blacklist.deep_view()),
{
    let ghost bl = blacklist.deep_view();
    let mut i: usize = 0;
    while i < blacklist.len()
        invariant
            bl == blacklist.deep_view(),
            bl.len() == blacklist@.len(),
            i <= bl.len(),
            forall|j: int| 0 <= j < i ==> !(#[trigger] bl[j]).is_prefix_of(v@),
        decreases bl.len() - i,
    {
        proof {
            assert(bl[i as int] == blacklist@[i as int]@);
        }
        let p = chars_of(blacklist[i].as_str());
        if chars_start_with(v, &p) {
            return true;
        }
        i = i + 1;
    }
    false
}

/// Whether the value equals some list entry.
fn chars_in_list(v: &Vec<char>, list: &Vec<String>) -> (r: bool)
    ensures
        r == in_list(v@, list.deep_view()),
{
    let ghost l = list.deep_view();
    let mut i: usize = 0;
    while i < list.len()
        invariant
            l == list.deep_view(),
            l.len() == list@.len(),
            i <= l.len(),
            forall|j: int| 0 <= j < i ==> #[trigger] l[j] != v@,
        decreases l.len() - i,
    {
        proof {
            assert(l[i as int] == list@[i as int]@);
        }
        if chars_eq_str(v, list[i].as_str()) {
            return true;
        }
        i = i + 1;
    }
    false
}

/// The media-type-or-domain suffix of the characters, where there is one.
fn media_capture_vec(v: &Vec<char>) -> (r: Option<Vec<char>>)
    ensures
        match r {
            Some(cap) => media_capture(v@) == Some(cap@),
            None => media_capture(v@) is None,
        },
{
    let dot = match rfind_char_vec(v, '.') {
        Some(i) => i,
        None => {
            return None;
        },
    };
    let n = v.len();
    proof {
        crate::text::lemma_rfind_char_in_bounds(v@, '.');
        assert(dot < n);
    }
    let ghost suffix = v@.skip(dot + 1);
    let mut cap: Vec<char> = Vec::new();
    let mut j: usize = dot + 1;
    proof {
        assert(cap@ =~= v@.subrange(dot + 1, dot + 1));
    }
    while j < v.len()
        invariant
            dot < v@.len(),
            dot < j <= v@.len(),
            cap@ == v@.subrange(dot + 1, j as int),
        decreases v@.len() - j,
    {
        cap.push(v[j]);
        j = j + 1;
        proof {
            assert(cap@ =~= v@.subrange(dot + 1, j as int));
        }
    }
    proof {
        assert(suffix =~= v@.subrange(dot + 1, v@.len() as int));
    }
    let letters_len: usize = if cap.len() > 0 && cap[cap.len() - 1] == '/' {
        cap.len() - 1
    } else {
        cap.len()
    };
    let ghost letters = if suffix.len() > 0 && suffix.last() == '/' {
        suffix.drop_last()
    } else {
        suffix
    };
    proof {
        assert(letters =~= cap@.take(letters_len as int));
    }
    if letters_len == 0 {
        return None;
    }
    let mut k: usize = 0;
    let mut all_letters = true;
    while k < letters_len
        invariant
            letters == cap@.take(letters_len as int),
            letters_len <= cap@.len(),
            k <= letters_len,
            all_letters == (forall|j: int| 0 <= j < k ==> is_ascii_letter(#[trigger] letters[j])),
        decreases letters_len - k,
    {
        let c = cap[k];
        let letter = ('a' <= c && c <= 'z') || ('A' <= c && c <= 'Z');
        proof {
            assert(letters[k as int] == c);
            assert(letter == is_ascii_letter(letters[k as int]));
        }
        all_letters = all_letters && letter;
        k = k + 1;
    }
    proof {
        assert(letters.len() == letters_len);
        assert(all_letters == all_ascii_letters(letters));
    }
    if all_letters {
        Some(cap)
    } else {
        None
    }
}

/// Whether one `href` survives the sieve.
fn keep_href_exec(v: &Vec<char>, bl_hrefs: &Vec<String>, bl_types: &Vec<String>) -> (r: bool)
    ensures
        r == keep_href(v@, bl_hrefs.deep_view(), bl_types.deep_view()),
{
    let candidate = chars_start_with_str(v, "http://") || chars_start_with_str(v, "https://") || (
    v.len() >= 2 && v[0] == '/' && is_word_char_exec(v[1]));
    if !candidate {
        return false;
    }
    match media_capture_vec(v) {
        Some(cap) => {
            let is_type: bool = if v.len() > 0 && v[0] == '/' {
                true
            } else {
                let total = count_char_vec(v, '/');
                let slashes: usize = if v.len() > 0 && v[v.len() - 1] == '/' {
                    total - 1
                } else {
                    total
                };
                slashes > 2
            };
            if is_type {
                !chars_in_list(&cap, bl_types)
            } else {
                false
            }
        },
        None => !chars_in_blacklist(v, bl_hrefs),
    }
}

/// A word character: a letter, a digit or an underscore.
fn is_word_char_exec(c: char) -> (r: bool)
    ensures
        r == is_word_char(c),
{
    ('a' <= c && c <= 'z') || ('A' <= c && c <= 'Z') || ('0' <= c && c <= '9') || c == '_'
}

/// Sieve the `href` values of a page: keep, in order, exactly those that
/// are candidates and that neither the media-type blacklist nor the prefix
/// blacklist rules out.
pub fn filter_hrefs(hrefs: Vec<String>, blacklist_hrefs: &Vec<String>, blacklist_types: &Vec<
    String,
>) -> (r: Vec<String>)
    ensures
        r.deep_view() == hrefs_kept(
            hrefs.deep_view(),
            blacklist_hrefs.deep_view(),
            blacklist_types.deep_view(),
        ),
{
    let ghost hs = hrefs.deep_view();
    let ghost blh = blacklist_hrefs.deep_view();
    let ghost blt = blacklist_types.deep_view();
    let mut rest = hrefs;
    let total: usize = rest.len();
    let mut out: Vec<String> = Vec::new();
    let mut k: usize = 0;
    proof {
        assert(hs.take(0) =~= Seq::<Seq<char>>::empty());
        assert(out.deep_view() =~= hrefs_kept(hs.take(0), blh, blt));
        assert(rest.deep_view() =~= hs.skip(0));
    }
    while rest.len() > 0
        invariant
            hs.len() == total,
            k <= hs.len(),
            blh == blacklist_hrefs.deep_view(),
            blt == blacklist_types.deep_view(),
            rest.deep_view() == hs.skip(k as int),
            rest@.len() == hs.skip(k as int).len(),
            out.deep_view() == hrefs_kept(hs.take(k as int), blh, blt),
        decreases rest@.len(),
    {
        let ghost before = out.deep_view();
        let ghost rest_before = rest@;
        let ghost deep_before = rest.deep_view();
        let h = rest.remove(0);
        proof {
            assert forall|j: int| 0 <= j < rest@.len() implies rest.deep_view()[j] == hs.skip(
                k + 1,
            )[j] by {
                assert(rest.deep_view()[j] == rest@[j]@);
                assert(rest@[j] == rest_before[j + 1]);
                assert(deep_before[j + 1] == rest_before[j + 1]@);
                assert(deep_before == hs.skip(k as int));
            }
            assert(rest.deep_view() =~= hs.skip(k + 1));
            assert(deep_before[0] == rest_before[0]@);
            assert(h@ == hs.skip(k as int)[0]);
            assert(hs.take(k + 1).drop_last() =~= hs.take(k as int));
            assert(hs.take(k + 1).last() == hs[k as int]);
        }
        let hv = chars_of(h.as_str());
        if keep_href_exec(&hv, blacklist_hrefs, blacklist_types) {
            let ghost hm = h@;
            out.push(h);
            proof {
                assert(out.deep_view() =~= before.push(hm));
            }
        }
        k = k + 1;
    }
    proof {
        assert(hs.take(k as int) =~= hs);
    }
    out
}

/// The URL a page's reference leads to: a site-relative reference is
/// joined onto the page's base, anything else stands as it is.
pub open spec fn url_from_href(parent: Seq<char>, href: Seq<char>) -> Seq<char> {
    if href.len() > 0 && href[0] == '/' {
        concat_url(parent, href)
    } else {
        href
    }
}

/// A site-relative reference joined onto its page's URL: the page's
/// protocol, then the base — the authority before the first slash of the
/// rest, or the whole rest with trailing slashes trimmed when its only
/// slash ends it — then the reference.
pub open spec fn concat_url(url: Seq<char>, href: Seq<char>) -> Seq<char> {
    let protocol = if "https://"@.is_prefix_of(url) {
        "https://"@
    } else {
        "http://"@
    };
    let rest = remove_all(url, protocol);
    let base = match find_char(rest, '/') {
        Some(si) => if rfind_char(url, '/') == Some(si) {
            trim_end_char(rest, '/')
        } else {
            rest.take(si)
        },
        None => rest,
    };
    protocol + base + href
}

/// Join a site-relative reference onto its page's URL.
pub fn concat_url_with_href(url: &str, href: &str) -> (r: String)
    requires
        has_abs_protocol(url@),
        href@.len() > 0 && href@[0] == '/',
    ensures
        r@ == concat_url(url@, href@),
{
    let uv = chars_of(url);
    let protocol: &str = if chars_start_with_str(&uv, "https://") {
        "https://"
    } else {
        "http://"
    };
    let pv = chars_of(protocol);
    proof {
        reveal_strlit("https://");
        reveal_strlit("http://");
        assert(pv@.len() > 0);
    }
    let rest = remove_all_vec(&uv, &pv);
    let base: Vec<char> = match find_char_vec(&rest, '/') {
        Some(si) => {
            let same = match rfind_char_vec(&uv, '/') {
                Some(ri) => ri == si,
                None => false,
            };
            if same {
                trim_end_char_vec(&rest, '/')
            } else {
                let mut b: Vec<char> = Vec::new();
                let mut i: usize = 0;
                proof {
                    assert(find_char(rest@, '/') == Some(si as int));
                    crate::text::lemma_find_char_in_bounds(rest@, '/');
                }
                while i < si
                    invariant
                        si <= rest@.len(),
                        b@ == rest@.take(i as int),
                        i <= si,
                    decreases si - i,
                {
                    b.push(rest[i]);
                    i = i + 1;
                    proof {
                        assert(b@ =~= rest@.take(i as int));
                    }
                }
                b
            }
        },
        None => rest,
    };
    let hv = chars_of(href);
    let mut all: Vec<char> = Vec::new();
    let mut i: usize = 0;
    while i < pv.len()
        invariant
            i <= pv@.len(),
            all@ == pv@.take(i as int),
        decreases pv@.len() - i,
    {
        all.push(pv[i]);
        i = i + 1;
        proof {
            assert(all@ =~= pv@.take(i as int));
        }
    }
    proof {
        assert(pv@.take(pv@.len() as int) =~= pv@);
    }
    let mut j: usize = 0;
    while j < base.len()
        invariant
            j <= base@.len(),
            all@ == pv@ + base@.take(j as int),
        decreases base@.len() - j,
    {
        all.push(base[j]);
        j = j + 1;
        proof {
            assert(all@ =~= pv@ + base@.take(j as int));
        }
    }
    proof {
        assert(base@.take(base@.len() as int) =~= base@);
    }
    let mut k: usize = 0;
    while k < hv.len()
        invariant
            k <= hv@.len(),
            all@ == pv@ + base@ + hv@.take(k as int),
        decreases hv@.len() - k,
    {
        all.push(hv[k]);
        k = k + 1;
        proof {
            assert(all@ =~= pv@ + base@ + hv@.take(k as int));
        }
    }
    proof {
        assert(hv@.take(hv@.len() as int) =~= hv@);
    }
    chars_to_string(&all)
}

/// The URL a page's reference leads to.
pub fn get_url_from_href(parent_url: &str, href: &str) -> (r: String)
    requires
        (href@.len() > 0 && href@[0] == '/') ==> has_abs_protocol(parent_url@),
    ensures
        r@ == url_from_href(parent_url@, href@),
{
    let hv = chars_of(href);
    if hv.len() > 0 && hv[0] == '/' {
        concat_url_with_href(parent_url, href)
    } else {
        href.to_owned()
    }
}

/// The URL a page's reference leads to, unless the blacklist covers it.
pub fn get_url(parent_url: &str, href: &str, blacklist_urls: &Vec<String>) -> (r: Option<String>)
    requires
        (href@.len() > 0 && href@[0] == '/') ==> has_abs_protocol(parent_url@),
    ensures
        r matches Some(s) ==> (s@ == url_from_href(parent_url@, href@) && !in_blacklist(
            s@,
            blacklist_urls.deep_view(),
        )),
        r is None <==> in_blacklist(url_from_href(parent_url@, href@), blacklist_urls.deep_view()),
{
    let url = get_url_from_href(parent_url, href);
    if value_in_blacklist(url.as_str(), blacklist_urls) {
        None
    } else {
        Some(url)
    }
}

} // verus!
