//! The machine-local blacklist configuration: which root, child, `href`
//! and media-type entries the crawler has learned to avoid, how new
//! entries are merged in, and when a fetch outcome earns a URL a place on
//! the blacklist. Reading and writing the file itself happens outside the
//! library.

use crate::parser::in_list;
use vstd::prelude::*;

verus! {

/// The four blacklists of a machine configuration.
#[derive(Debug, PartialEq, Eq)]
pub struct BlacklistUrls {
    pub roots: Vec<String>,
    pub childs: Vec<String>,
    pub hrefs: Vec<String>,
    pub types: Vec<String>,
}

/// The machine-local configuration.
#[derive(Debug, PartialEq, Eq)]
pub struct MachineConfig {
    pub blacklist: BlacklistUrls,
}

/// The list with the new entries appended, in order, skipping those the
/// list already holds.
pub open spec fn merged_list(save: Seq<Seq<char>>, urls: Seq<Seq<char>>) -> Seq<Seq<char>>
    decreases urls.len(),
{
    if urls.len() == 0 {
        save
    } else {
        let sofar = merged_list(save, urls.drop_last());
        if in_list(urls.last(), sofar) {
            sofar
        } else {
            sofar.push(urls.last())
        }
    }
}

/// Append the new entries to the list, in order, skipping those the list
/// already holds.
pub fn merge_blacklist(save: &mut Vec<String>, urls: &Vec<String>)
    ensures
        final (save).deep_view() == merged_list(old(save).deep_view(), urls.deep_view()),
{
    let ghost us = urls.deep_view();
    let ghost base = save.deep_view();
    let mut i: usize = 0;
    proof {
        assert(us.take(0) =~= Seq::<Seq<char>>::empty());
        assert(save.deep_view() =~= merged_list(base, us.take(0)));
    }
    while i < urls.len()
        invariant
            us == urls.deep_view(),
            us.len() == urls@.len(),
            i <= us.len(),
            save.deep_view() == merged_list(base, us.take(i as int)),
        decreases us.len() - i,
    {
        let ghost before = save.deep_view();
        proof {
            assert(us[i as int] == urls@[i as int]@);
            assert(us.take(i + 1).drop_last() =~= us.take(i as int));
            assert(us.take(i + 1).last() == us[i as int]);
        }
        let u = chars_of_string(&urls[i]);
        if !contains_string(save, &u) {
            let ghost save_before = save@;
            save.push(clone_string(&urls[i]));
            proof {
                assert forall|j: int| 0 <= j < save.deep_view().len() implies save.deep_view()[j]
                    == before.push(us[i as int])[j] by {
                    assert(save.deep_view()[j] == save@[j]@);
                    if j < before.len() {
                        assert(save@[j] == save_before[j]);
                        assert(before[j] == save_before[j]@);
                    }
                }
                assert(save.deep_view() =~= before.push(us[i as int]));
            }
        }
        i = i + 1;
    }
    proof {
        assert(us.take(i as int) =~= us);
    }
}

/// The characters of an owned string.
fn chars_of_string(s: &String) -> (r: Vec<char>)
    ensures
        r@ == s@,
{
    crate::text::chars_of(s.as_str())
}

/// A string equal to the given one.
fn clone_string(s: &String) -> (r: String)
    ensures
        r@ == s@,
{
    s.clone()
}

/// Whether the list holds a string spelled like `v`.
fn contains_string(list: &Vec<String>, v: &Vec<char>) -> (r: bool)
    ensures
        r == in_list(v@, list.deep_view()),
{
    let ghost l = list.deep_view();
    let mut i: usize = 0;
    while i < list.len()
        invariant
            l == list.deep_view(),
            l.len() == list@.len(),
            i <= l.len(),
            forall|j: int| 0 <= j < i ==> #[trigger] l[j] != v@,
        decreases l.len() - i,
    {
        proof {
            assert(l[i as int] == list@[i as int]@);
        }
        if crate::text::chars_eq_str(v, list[i].as_str()) {
            return true;
        }
        i = i + 1;
    }
    false
}

/// Whether an HTTP status code reports success.
pub open spec fn status_is_success(code: u16) -> bool {
    200 <= code < 300
}

/// Whether an HTTP status code reports a server error.
pub open spec fn status_is_server_error(code: u16) -> bool {
    500 <= code < 600
}

/// Whether an HTTP status code reports a redirection.
pub open spec fn status_is_redirection(code: u16) -> bool {
    300 <= code < 400
}

/// Whether a fetch outcome earns the URL a place on the blacklist: a
/// response that is not a success does; an error that carries any status
/// code never does, since no code is both a server error and a
/// redirection; a timeout without a status does not; any other error does.
pub open spec fn blacklist_decision(
    response_status: Option<u16>,
    error_status: Option<u16>,
    error_is_timeout: bool,
) -> bool {
    match response_status {
        Some(code) => !status_is_success(code),
        None => match error_status {
            Some(code) => !(!status_is_server_error(code) || !status_is_redirection(code)),
            None => !error_is_timeout,
        },
    }
}

/// Decide from a fetch outcome whether the URL belongs on the blacklist.
/// `response_status` is the status of a response that arrived;
/// `error_status` and `error_is_timeout` describe the error otherwise.
pub fn should_blacklist_url(
    response_status: Option<u16>,
    error_status: Option<u16>,
    error_is_timeout: bool,
) -> (r: bool)
    ensures
        r == blacklist_decision(response_status, error_status, error_is_timeout),
{
    match response_status {
        Some(code) => {
            if 200 <= code && code < 300 {
                return false;
            }
        },
        None => {
            match error_status {
                Some(code) => {
                    if !(500 <= code && code < 600) || !(300 <= code && code < 400) {
                        return false;
                    }
                },
                None => {
                    if error_is_timeout {
                        return false;
                    }
                },
            }
        },
    }
    true
}

} // verus!
