//! Reading the route and the polling rules out of TOML documents. The
//! `toml` crate turns the text into a value tree; everything the loader
//! decides from that tree is specified and verified here.

use super::value::{toml_get, TomlValue};
use crate::globs::{compile_spec, PatternError};
use crate::models::polling::depth::Depth;
use crate::models::polling::proxy::Proxy;
use crate::models::polling::redirections::Redirections;
use crate::models::polling::time::Time;
use crate::models::polling::user_agent::UserAgent;
use crate::models::polling::Polling;
use crate::models::route::Route;
use crate::models::routes::follow_robots_exclusion_protocol::FollowRobotsExclusionProtocol;
use crate::models::routes::host;
use crate::models::routes::hosts::Hosts;
use crate::models::routes::path;
use crate::models::routes::paths::Paths;
use crate::models::routes::port;
use crate::models::routes::ports::Ports;
use crate::models::routes::root_url::RootUrl;
use crate::models::routes::root_urls::RootUrls;
use crate::models::routes::scheme::{self, UnsupportedSchemeError};
use crate::models::routes::schemes::Schemes;
use crate::models::rules::Rules;
use crate::models::routes::host::{normalized_host, InvalidHost};
use crate::models::routes::port::InvalidPort;
use crate::text::{chars_of, parse_u16_chars, parse_u16_spec, parse_u64_chars, parse_u64_spec};
use crate::urls::{url_parts_of, InvalidUrl, UrlModel};
use vstd::prelude::*;

verus! {

#[verifier::external_type_specification]
#[verifier::external_body]
pub struct ExTomlCrateValue(toml::Value);

/// The tree a TOML document denotes, or `None` where the text is not valid
/// TOML. Parsing is a function of the text alone.
pub uninterp spec fn toml_doc_of(raw: Seq<char>) -> Option<TomlValue>;

/// Relies on the `toml` crate's `Value` tree: one arm per value kind,
/// moving the payloads into the library's own tree.
#[verifier::external_body]
fn convert_toml(v: toml::Value) -> TomlValue {
    match v {
        toml::Value::String(s) => TomlValue::String(s),
        toml::Value::Integer(i) => TomlValue::Integer(i),
        toml::Value::Boolean(b) => TomlValue::Boolean(b),
        toml::Value::Array(a) => TomlValue::Array(a.into_iter().map(convert_toml).collect()),
        toml::Value::Table(t) => TomlValue::Table(
            t.into_iter().map(|(k, v)| (k, convert_toml(v))).collect(),
        ),
        _ => TomlValue::Other,
    }
}

/// Relies on `str::parse::<toml::Table>`: the same document always parses
/// to the same tree, and an invalid document is refused with a message.
#[verifier::external_body]
fn toml_parse(raw: &str) -> (r: Result<TomlValue, String>)
    ensures
        r matches Ok(t) ==> toml_doc_of(raw@) == Some(t),
        r is Err <==> toml_doc_of(raw@) is None,
{
    match raw.parse::<toml::Table>() {
        Ok(t) => Ok(convert_toml(toml::Value::Table(t))),
        Err(e) => Err(e.to_string()),
    }
}

/// Everything that can be wrong with a route document. Most variants carry
/// the offending value.
#[derive(Debug)]
pub enum ParseRouteErrorKind {
    ParseToml(String),
    RoutesNotFound(TomlValue),
    RoutesMustBeTable(TomlValue),
    RootUrlsMustBeArray(TomlValue),
    RootUrlValueMustBeString(TomlValue),
    RootUrlParseError(InvalidUrl),
    HostsMustBeArray(TomlValue),
    HostExactMustBeString(TomlValue),
    HostGlobMustBeString(TomlValue),
    HostGlobPattern(PatternError),
    HostParseError(InvalidHost),
    SchemesMustBeArray(TomlValue),
    SchemeExactMustBeString(TomlValue),
    UnsupportedScheme(UnsupportedSchemeError),
    PortsMustBeArray(TomlValue),
    PortGlobMustBeString(TomlValue),
    PortGlobPattern(PatternError),
    PortExactParseError(InvalidPort),
    PortExactMustBeStringOrInt(TomlValue),
    PathsMustBeArray(TomlValue),
    PathGlobPattern(PatternError),
    PathGlobMustBeString(TomlValue),
    PathExactMustBeString(TomlValue),
}

/// The same faults, without their payloads; the specification names the
/// fault, the executable error carries the evidence.
pub enum RouteIssue {
    RoutesNotFound,
    RoutesMustBeTable,
    RootUrlsMustBeArray,
    RootUrlValueMustBeString,
    RootUrlParseError,
    HostsMustBeArray,
    HostExactMustBeString,
    HostGlobMustBeString,
    HostGlobPattern,
    HostParseError,
    SchemesMustBeArray,
    SchemeExactMustBeString,
    UnsupportedScheme,
    PortsMustBeArray,
    PortGlobMustBeString,
    PortGlobPattern,
    PortExactParseError,
    PortExactMustBeStringOrInt,
    PathsMustBeArray,
    PathGlobPattern,
    PathGlobMustBeString,
    PathExactMustBeString,
}

/// The fault a route error reports. `ParseToml` stands apart: it is raised
/// before there is a document to read.
pub open spec fn issue_of(e: ParseRouteErrorKind) -> Option<RouteIssue> {
    match e {
        ParseRouteErrorKind::ParseToml(_) => None,
        ParseRouteErrorKind::RoutesNotFound(_) => Some(RouteIssue::RoutesNotFound),
        ParseRouteErrorKind::RoutesMustBeTable(_) => Some(RouteIssue::RoutesMustBeTable),
        ParseRouteErrorKind::RootUrlsMustBeArray(_) => Some(RouteIssue::RootUrlsMustBeArray),
        ParseRouteErrorKind::RootUrlValueMustBeString(_) => Some(
            RouteIssue::RootUrlValueMustBeString,
        ),
        ParseRouteErrorKind::RootUrlParseError(_) => Some(RouteIssue::RootUrlParseError),
        ParseRouteErrorKind::HostsMustBeArray(_) => Some(RouteIssue::HostsMustBeArray),
        ParseRouteErrorKind::HostExactMustBeString(_) => Some(RouteIssue::HostExactMustBeString),
        ParseRouteErrorKind::HostGlobMustBeString(_) => Some(RouteIssue::HostGlobMustBeString),
        ParseRouteErrorKind::HostGlobPattern(_) => Some(RouteIssue::HostGlobPattern),
        ParseRouteErrorKind::HostParseError(_) => Some(RouteIssue::HostParseError),
        ParseRouteErrorKind::SchemesMustBeArray(_) => Some(RouteIssue::SchemesMustBeArray),
        ParseRouteErrorKind::SchemeExactMustBeString(_) => Some(
            RouteIssue::SchemeExactMustBeString,
        ),
        ParseRouteErrorKind::UnsupportedScheme(_) => Some(RouteIssue::UnsupportedScheme),
        ParseRouteErrorKind::PortsMustBeArray(_) => Some(RouteIssue::PortsMustBeArray),
        ParseRouteErrorKind::PortGlobMustBeString(_) => Some(RouteIssue::PortGlobMustBeString),
        ParseRouteErrorKind::PortGlobPattern(_) => Some(RouteIssue::PortGlobPattern),
        ParseRouteErrorKind::PortExactParseError(_) => Some(RouteIssue::PortExactParseError),
        ParseRouteErrorKind::PortExactMustBeStringOrInt(_) => Some(
            RouteIssue::PortExactMustBeStringOrInt,
        ),
        ParseRouteErrorKind::PathsMustBeArray(_) => Some(RouteIssue::PathsMustBeArray),
        ParseRouteErrorKind::PathGlobPattern(_) => Some(RouteIssue::PathGlobPattern),
        ParseRouteErrorKind::PathGlobMustBeString(_) => Some(RouteIssue::PathGlobMustBeString),
        ParseRouteErrorKind::PathExactMustBeString(_) => Some(RouteIssue::PathExactMustBeString),
    }
}

/// The matcher one host entry contributes: a glob or an exact host, or
/// nothing where the entry has neither key.
pub open spec fn host_entry_kind(entry: TomlValue) -> Result<Option<host::KindModel>, RouteIssue> {
    match toml_get(entry, "glob"@) {
        Some(g) => match g {
            TomlValue::String(s) => match compile_spec(s@) {
                Some(ts) => Ok(Some(host::KindModel::Glob(ts))),
                None => Err(RouteIssue::HostGlobPattern),
            },
            _ => Err(RouteIssue::HostGlobMustBeString),
        },
        None => match toml_get(entry, "exact"@) {
            Some(e) => match e {
                TomlValue::String(s) => match normalized_host(s@) {
                    Some(h) => Ok(Some(host::KindModel::Exact(h))),
                    None => Err(RouteIssue::HostParseError),
                },
                _ => Err(RouteIssue::HostExactMustBeString),
            },
            None => Ok(None),
        },
    }
}

/// The matchers a host array contributes, in order; the first faulty entry
/// decides the error.
pub open spec fn host_entries(arr: Seq<TomlValue>) -> Result<Seq<host::KindModel>, RouteIssue>
    decreases arr.len(),
{
    if arr.len() == 0 {
        Ok(Seq::empty())
    } else {
        match host_entries(arr.drop_last()) {
            Ok(ks) => match host_entry_kind(arr.last()) {
                Ok(Some(k)) => Ok(ks.push(k)),
                Ok(None) => Ok(ks),
                Err(e) => Err(e),
            },
            Err(e) => Err(e),
        }
    }
}

/// One side of the host bucket: the named list, which must be an array
/// when present; an absent list contributes nothing.
pub open spec fn host_side(section: TomlValue, key: Seq<char>) -> Result<
    Seq<host::KindModel>,
    RouteIssue,
> {
    match toml_get(section, key) {
        Some(v) => match v {
            TomlValue::Array(a) => host_entries(a@),
            _ => Err(RouteIssue::HostsMustBeArray),
        },
        None => Ok(Seq::empty()),
    }
}

/// The matcher one path entry contributes.
pub open spec fn path_entry_kind(entry: TomlValue) -> Result<Option<path::KindModel>, RouteIssue> {
    match toml_get(entry, "glob"@) {
        Some(g) => match g {
            TomlValue::String(s) => match compile_spec(s@) {
                Some(ts) => Ok(Some(path::KindModel::Glob(ts))),
                None => Err(RouteIssue::PathGlobPattern),
            },
            _ => Err(RouteIssue::PathGlobMustBeString),
        },
        None => match toml_get(entry, "exact"@) {
            Some(e) => match e {
                TomlValue::String(s) => Ok(Some(path::KindModel::Exact(s@))),
                _ => Err(RouteIssue::PathExactMustBeString),
            },
            None => Ok(None),
        },
    }
}

/// The matchers a path array contributes, in order.
pub open spec fn path_entries(arr: Seq<TomlValue>) -> Result<Seq<path::KindModel>, RouteIssue>
    decreases arr.len(),
{
    if arr.len() == 0 {
        Ok(Seq::empty())
    } else {
        match path_entries(arr.drop_last()) {
            Ok(ks) => match path_entry_kind(arr.last()) {
                Ok(Some(k)) => Ok(ks.push(k)),
                Ok(None) => Ok(ks),
                Err(e) => Err(e),
            },
            Err(e) => Err(e),
        }
    }
}

/// One side of the path bucket.
pub open spec fn path_side(section: TomlValue, key: Seq<char>) -> Result<
    Seq<path::KindModel>,
    RouteIssue,
> {
    match toml_get(section, key) {
        Some(v) => match v {
            TomlValue::Array(a) => path_entries(a@),
            _ => Err(RouteIssue::PathsMustBeArray),
        },
        None => Ok(Seq::empty()),
    }
}

/// The matcher one port entry contributes: a glob over the decimal form,
/// or an exact port given as a digit string or as an integer in range.
pub open spec fn port_entry_kind(entry: TomlValue) -> Result<Option<port::KindModel>, RouteIssue> {
    match toml_get(entry, "glob"@) {
        Some(g) => match g {
            TomlValue::String(s) => match compile_spec(s@) {
                Some(ts) => Ok(Some(port::KindModel::Glob(ts))),
                None => Err(RouteIssue::PortGlobPattern),
            },
            _ => Err(RouteIssue::PortGlobMustBeString),
        },
        None => match toml_get(entry, "exact"@) {
            Some(e) => match e {
                TomlValue::String(s) => match parse_u16_spec(s@) {
                    Some(p) => Ok(Some(port::KindModel::Exact(p))),
                    None => Err(RouteIssue::PortExactParseError),
                },
                TomlValue::Integer(i) => if 0 <= i <= 65535 {
                    Ok(Some(port::KindModel::Exact(i as u16)))
                } else {
                    Err(RouteIssue::PortExactMustBeStringOrInt)
                },
                _ => Err(RouteIssue::PortExactMustBeStringOrInt),
            },
            None => Ok(None),
        },
    }
}

/// The matchers a port array contributes, in order.
pub open spec fn port_entries(arr: Seq<TomlValue>) -> Result<Seq<port::KindModel>, RouteIssue>
    decreases arr.len(),
{
    if arr.len() == 0 {
        Ok(Seq::empty())
    } else {
        match port_entries(arr.drop_last()) {
            Ok(ks) => match port_entry_kind(arr.last()) {
                Ok(Some(k)) => Ok(ks.push(k)),
                Ok(None) => Ok(ks),
                Err(e) => Err(e),
            },
            Err(e) => Err(e),
        }
    }
}

/// One side of the port bucket.
pub open spec fn port_side(section: TomlValue, key: Seq<char>) -> Result<
    Seq<port::KindModel>,
    RouteIssue,
> {
    match toml_get(section, key) {
        Some(v) => match v {
            TomlValue::Array(a) => port_entries(a@),
            _ => Err(RouteIssue::PortsMustBeArray),
        },
        None => Ok(Seq::empty()),
    }
}

/// The matcher one scheme entry contributes: an exact supported scheme.
pub open spec fn scheme_entry_kind(entry: TomlValue) -> Result<Option<scheme::Kind>, RouteIssue> {
    match toml_get(entry, "exact"@) {
        Some(e) => match e {
            TomlValue::String(s) => match scheme::kind_of_scheme(s@) {
                Some(k) => Ok(Some(k)),
                None => Err(RouteIssue::UnsupportedScheme),
            },
            _ => Err(RouteIssue::SchemeExactMustBeString),
        },
        None => Ok(None),
    }
}

/// The matchers a scheme array contributes, in order.
pub open spec fn scheme_entries(arr: Seq<TomlValue>) -> Result<Seq<scheme::Kind>, RouteIssue>
    decreases arr.len(),
{
    if arr.len() == 0 {
        Ok(Seq::empty())
    } else {
        match scheme_entries(arr.drop_last()) {
            Ok(ks) => match scheme_entry_kind(arr.last()) {
                Ok(Some(k)) => Ok(ks.push(k)),
                Ok(None) => Ok(ks),
                Err(e) => Err(e),
            },
            Err(e) => Err(e),
        }
    }
}

/// One side of the scheme bucket.
pub open spec fn scheme_side(section: TomlValue, key: Seq<char>) -> Result<
    Seq<scheme::Kind>,
    RouteIssue,
> {
    match toml_get(section, key) {
        Some(v) => match v {
            TomlValue::Array(a) => scheme_entries(a@),
            _ => Err(RouteIssue::SchemesMustBeArray),
        },
        None => Ok(Seq::empty()),
    }
}

/// The seed URL one root entry contributes: the parsed `value`, or nothing
/// where the entry has no `value` key.
pub open spec fn root_entry_url(entry: TomlValue) -> Result<Option<UrlModel>, RouteIssue> {
    match toml_get(entry, "value"@) {
        Some(v) => match v {
            TomlValue::String(s) => match url_parts_of(s@) {
                Some(u) => Ok(Some(u)),
                None => Err(RouteIssue::RootUrlParseError),
            },
            _ => Err(RouteIssue::RootUrlValueMustBeString),
        },
        None => Ok(None),
    }
}

/// The seed URLs a root array contributes, in order.
pub open spec fn root_entries(arr: Seq<TomlValue>) -> Result<Seq<UrlModel>, RouteIssue>
    decreases arr.len(),
{
    if arr.len() == 0 {
        Ok(Seq::empty())
    } else {
        match root_entries(arr.drop_last()) {
            Ok(us) => match root_entry_url(arr.last()) {
                Ok(Some(u)) => Ok(us.push(u)),
                Ok(None) => Ok(us),
                Err(e) => Err(e),
            },
            Err(e) => Err(e),
        }
    }
}

/// The seed URLs of the `routes` section.
pub open spec fn roots_of(routes: TomlValue) -> Result<Seq<UrlModel>, RouteIssue> {
    match toml_get(routes, "root_urls"@) {
        Some(v) => match v {
            TomlValue::Array(a) => root_entries(a@),
            _ => Err(RouteIssue::RootUrlsMustBeArray),
        },
        None => Ok(Seq::empty()),
    }
}

/// Both sides of one dimension's bucket, from the named subsection of
/// `routes`; an absent subsection contributes nothing on either side.
pub open spec fn host_sides(routes: TomlValue) -> Result<
    (Seq<host::KindModel>, Seq<host::KindModel>),
    RouteIssue,
> {
    match toml_get(routes, "hosts"@) {
        Some(section) => match host_side(section, "acceptable"@) {
            Ok(acc) => match host_side(section, "unacceptable"@) {
                Ok(unacc) => Ok((acc, unacc)),
                Err(e) => Err(e),
            },
            Err(e) => Err(e),
        },
        None => Ok((Seq::empty(), Seq::empty())),
    }
}

pub open spec fn scheme_sides(routes: TomlValue) -> Result<
    (Seq<scheme::Kind>, Seq<scheme::Kind>),
    RouteIssue,
> {
    match toml_get(routes, "schemes"@) {
        Some(section) => match scheme_side(section, "acceptable"@) {
            Ok(acc) => match scheme_side(section, "unacceptable"@) {
                Ok(unacc) => Ok((acc, unacc)),
                Err(e) => Err(e),
            },
            Err(e) => Err(e),
        },
        None => Ok((Seq::empty(), Seq::empty())),
    }
}

pub open spec fn port_sides(routes: TomlValue) -> Result<
    (Seq<port::KindModel>, Seq<port::KindModel>),
    RouteIssue,
> {
    match toml_get(routes, "ports"@) {
        Some(section) => match port_side(section, "acceptable"@) {
            Ok(acc) => match port_side(section, "unacceptable"@) {
                Ok(unacc) => Ok((acc, unacc)),
                Err(e) => Err(e),
            },
            Err(e) => Err(e),
        },
        None => Ok((Seq::empty(), Seq::empty())),
    }
}

pub open spec fn path_sides(routes: TomlValue) -> Result<
    (Seq<path::KindModel>, Seq<path::KindModel>),
    RouteIssue,
> {
    match toml_get(routes, "paths"@) {
        Some(section) => match path_side(section, "acceptable"@) {
            Ok(acc) => match path_side(section, "unacceptable"@) {
                Ok(unacc) => Ok((acc, unacc)),
                Err(e) => Err(e),
            },
            Err(e) => Err(e),
        },
        None => Ok((Seq::empty(), Seq::empty())),
    }
}

/// The mathematical form of the route a document describes, after the
/// seeding of empty acceptable lists.
pub struct RouteModel {
    pub root_urls: Seq<UrlModel>,
    pub hosts_acceptable: Seq<host::KindModel>,
    pub hosts_unacceptable: Seq<host::KindModel>,
    pub schemes_acceptable: Seq<scheme::Kind>,
    pub schemes_unacceptable: Seq<scheme::Kind>,
    pub ports_acceptable: Seq<port::KindModel>,
    pub ports_unacceptable: Seq<port::KindModel>,
    pub paths_acceptable: Seq<path::KindModel>,
    pub paths_unacceptable: Seq<path::KindModel>,
}

/// A list seeded with `Any` when empty.
pub open spec fn seeded<K>(ks: Seq<K>, any: K) -> Seq<K> {
    if ks.len() == 0 {
        seq![any]
    } else {
        ks
    }
}

/// The route a document describes: the `routes` table must exist, each
/// subsection parses as above, the sections in the order root URLs, hosts,
/// schemes, ports, paths, and every empty acceptable list is seeded with
/// its dimension's `Any`.
pub open spec fn route_from_doc(doc: TomlValue) -> Result<RouteModel, RouteIssue> {
    match toml_get(doc, "routes"@) {
        None => Err(RouteIssue::RoutesNotFound),
        Some(routes) => if !(routes is Table) {
            Err(RouteIssue::RoutesMustBeTable)
        } else {
            match roots_of(routes) {
                Err(e) => Err(e),
                Ok(roots) => match host_sides(routes) {
                    Err(e) => Err(e),
                    Ok(hs) => match scheme_sides(routes) {
                        Err(e) => Err(e),
                        Ok(ss) => match port_sides(routes) {
                            Err(e) => Err(e),
                            Ok(ps) => match path_sides(routes) {
                                Err(e) => Err(e),
                                Ok(ts) => Ok(
                                    RouteModel {
                                        root_urls: roots,
                                        hosts_acceptable: seeded(hs.0, host::KindModel::Any),
                                        hosts_unacceptable: hs.1,
                                        schemes_acceptable: seeded(
                                            ss.0,
                                            scheme::Kind::AnySupported,
                                        ),
                                        schemes_unacceptable: ss.1,
                                        ports_acceptable: seeded(ps.0, port::KindModel::Any),
                                        ports_unacceptable: ps.1,
                                        paths_acceptable: seeded(ts.0, path::KindModel::Any),
                                        paths_unacceptable: ts.1,
                                    },
                                ),
                            },
                        },
                    },
                },
            }
        },
    }
}

/// Whether a route value realizes a route model: every bucket's view is
/// the model's list, the seed URLs parse to the model's URLs, and the
/// robots switch stands at its default.
pub open spec fn route_matches_model(rt: Route, m: RouteModel) -> bool {
    &&& rt.root_urls.0@.map_values(|u: RootUrl| u.value@) == m.root_urls
    &&& rt.follow_robots_exclusion_protocol.value
    &&& rt.hosts.acceptable@.map_values(|k: host::Kind| k@) == m.hosts_acceptable
    &&& rt.hosts.unacceptable@.map_values(|k: host::Kind| k@) == m.hosts_unacceptable
    &&& rt.schemes.acceptable@ == m.schemes_acceptable
    &&& rt.schemes.unacceptable@ == m.schemes_unacceptable
    &&& rt.ports.acceptable@.map_values(|k: port::Kind| k@) == m.ports_acceptable
    &&& rt.ports.unacceptable@.map_values(|k: port::Kind| k@) == m.ports_unacceptable
    &&& rt.paths.acceptable@.map_values(|k: path::Kind| k@) == m.paths_acceptable
    &&& rt.paths.unacceptable@.map_values(|k: path::Kind| k@) == m.paths_unacceptable
}


/// An error in a prefix of the array decides the whole array's result.
proof fn lemma_host_entries_prefix_err(arr: Seq<TomlValue>, j: int)
    requires
        0 <= j <= arr.len(),
        host_entries(arr.take(j)) is Err,
    ensures
        host_entries(arr) == host_entries(arr.take(j)),
    decreases arr.len(),
{
    if j == arr.len() {
        assert(arr.take(j) =~= arr);
    } else {
        assert(arr.drop_last().take(j) =~= arr.take(j));
        lemma_host_entries_prefix_err(arr.drop_last(), j);
    }
}

/// An error in a prefix of the array decides the whole array's result.
proof fn lemma_path_entries_prefix_err(arr: Seq<TomlValue>, j: int)
    requires
        0 <= j <= arr.len(),
        path_entries(arr.take(j)) is Err,
    ensures
        path_entries(arr) == path_entries(arr.take(j)),
    decreases arr.len(),
{
    if j == arr.len() {
        assert(arr.take(j) =~= arr);
    } else {
        assert(arr.drop_last().take(j) =~= arr.take(j));
        lemma_path_entries_prefix_err(arr.drop_last(), j);
    }
}

/// An error in a prefix of the array decides the whole array's result.
proof fn lemma_port_entries_prefix_err(arr: Seq<TomlValue>, j: int)
    requires
        0 <= j <= arr.len(),
        port_entries(arr.take(j)) is Err,
    ensures
        port_entries(arr) == port_entries(arr.take(j)),
    decreases arr.len(),
{
    if j == arr.len() {
        assert(arr.take(j) =~= arr);
    } else {
        assert(arr.drop_last().take(j) =~= arr.take(j));
        lemma_port_entries_prefix_err(arr.drop_last(), j);
    }
}

/// An error in a prefix of the array decides the whole array's result.
proof fn lemma_scheme_entries_prefix_err(arr: Seq<TomlValue>, j: int)
    requires
        0 <= j <= arr.len(),
        scheme_entries(arr.take(j)) is Err,
    ensures
        scheme_entries(arr) == scheme_entries(arr.take(j)),
    decreases arr.len(),
{
    if j == arr.len() {
        assert(arr.take(j) =~= arr);
    } else {
        assert(arr.drop_last().take(j) =~= arr.take(j));
        lemma_scheme_entries_prefix_err(arr.drop_last(), j);
    }
}

/// An error in a prefix of the array decides the whole array's result.
proof fn lemma_root_entries_prefix_err(arr: Seq<TomlValue>, j: int)
    requires
        0 <= j <= arr.len(),
        root_entries(arr.take(j)) is Err,
    ensures
        root_entries(arr) == root_entries(arr.take(j)),
    decreases arr.len(),
{
    if j == arr.len() {
        assert(arr.take(j) =~= arr);
    } else {
        assert(arr.drop_last().take(j) =~= arr.take(j));
        lemma_root_entries_prefix_err(arr.drop_last(), j);
    }
}

/// Parse one dimension's matcher array.
fn parse_host_entries(arr: &Vec<TomlValue>) -> (r: Result<Vec<host::Kind>, ParseRouteErrorKind>)
    ensures
        r matches Ok(v) ==> host_entries(arr@) == Ok::<_, RouteIssue>(
            v@.map_values(|k: host::Kind| k@),
        ),
        r matches Err(e) ==> (host_entries(arr@) matches Err(t) && issue_of(e) == Some(t)),
        r is Err <==> host_entries(arr@) is Err,
{
    let mut out: Vec<host::Kind> = Vec::new();
    let mut i: usize = 0;
    proof {
        assert(arr@.take(0) =~= Seq::<TomlValue>::empty());
        assert(out@.map_values(|k: host::Kind| k@) =~= Seq::<host::KindModel>::empty());
    }
    while i < arr.len()
        invariant
            i <= arr@.len(),
            host_entries(arr@.take(i as int)) == Ok::<_, RouteIssue>(
                out@.map_values(|k: host::Kind| k@),
            ),
        decreases arr@.len() - i,
    {
        let ghost pre = out@;
        proof {
            assert(arr@.take(i + 1).drop_last() =~= arr@.take(i as int));
            assert(arr@.take(i + 1).last() == arr@[i as int]);
        }
        let entry = &arr[i];
        match entry.get("glob") {
            Some(g) => match g.as_str() {
                Some(s) => match host::Kind::glob(s) {
                    Ok(k) => {
                        let ghost km = k@;
                        out.push(k);
                        proof {
                            assert(out@.map_values(|k: host::Kind| k@) =~= pre.map_values(
                                |k: host::Kind| k@,
                            ).push(km));
                        }
                    },
                    Err(e) => {
                        proof {
                            lemma_host_entries_prefix_err(arr@, i + 1);
                        }
                        return Err(ParseRouteErrorKind::HostGlobPattern(e));
                    },
                },
                None => {
                    proof {
                        lemma_host_entries_prefix_err(arr@, i + 1);
                    }
                    return Err(ParseRouteErrorKind::HostGlobMustBeString(g.deep_clone()));
                },
            },
            None => match entry.get("exact") {
                Some(ex) => match ex.as_str() {
                    Some(s) => match host::Kind::exact(s) {
                        Ok(k) => {
                            let ghost km = k@;
                            out.push(k);
                            proof {
                                assert(out@.map_values(|k: host::Kind| k@) =~= pre.map_values(
                                    |k: host::Kind| k@,
                                ).push(km));
                            }
                        },
                        Err(e) => {
                            proof {
                                lemma_host_entries_prefix_err(arr@, i + 1);
                            }
                            return Err(ParseRouteErrorKind::HostParseError(e));
                        },
                    },
                    None => {
                        proof {
                            lemma_host_entries_prefix_err(arr@, i + 1);
                        }
                        return Err(ParseRouteErrorKind::HostExactMustBeString(ex.deep_clone()));
                    },
                },
                None => {},
            },
        }
        i = i + 1;
    }
    proof {
        assert(arr@.take(i as int) =~= arr@);
    }
    Ok(out)
}

/// Parse one dimension's matcher array.
fn parse_path_entries(arr: &Vec<TomlValue>) -> (r: Result<Vec<path::Kind>, ParseRouteErrorKind>)
    ensures
        r matches Ok(v) ==> path_entries(arr@) == Ok::<_, RouteIssue>(
            v@.map_values(|k: path::Kind| k@),
        ),
        r matches Err(e) ==> (path_entries(arr@) matches Err(t) && issue_of(e) == Some(t)),
        r is Err <==> path_entries(arr@) is Err,
{
    let mut out: Vec<path::Kind> = Vec::new();
    let mut i: usize = 0;
    proof {
        assert(arr@.take(0) =~= Seq::<TomlValue>::empty());
        assert(out@.map_values(|k: path::Kind| k@) =~= Seq::<path::KindModel>::empty());
    }
    while i < arr.len()
        invariant
            i <= arr@.len(),
            path_entries(arr@.take(i as int)) == Ok::<_, RouteIssue>(
                out@.map_values(|k: path::Kind| k@),
            ),
        decreases arr@.len() - i,
    {
        let ghost pre = out@;
        proof {
            assert(arr@.take(i + 1).drop_last() =~= arr@.take(i as int));
            assert(arr@.take(i + 1).last() == arr@[i as int]);
        }
        let entry = &arr[i];
        match entry.get("glob") {
            Some(g) => match g.as_str() {
                Some(s) => match path::Kind::glob(s) {
                    Ok(k) => {
                        let ghost km = k@;
                        out.push(k);
                        proof {
                            assert(out@.map_values(|k: path::Kind| k@) =~= pre.map_values(
                                |k: path::Kind| k@,
                            ).push(km));
                        }
                    },
                    Err(e) => {
                        proof {
                            lemma_path_entries_prefix_err(arr@, i + 1);
                        }
                        return Err(ParseRouteErrorKind::PathGlobPattern(e));
                    },
                },
                None => {
                    proof {
                        lemma_path_entries_prefix_err(arr@, i + 1);
                    }
                    return Err(ParseRouteErrorKind::PathGlobMustBeString(g.deep_clone()));
                },
            },
            None => match entry.get("exact") {
                Some(ex) => match ex.as_str() {
                    Some(s) => {
                        let k = path::Kind::exact(s);
                        let ghost km = k@;
                        out.push(k);
                        proof {
                            assert(out@.map_values(|k: path::Kind| k@) =~= pre.map_values(
                                |k: path::Kind| k@,
                            ).push(km));
                        }
                    },
                    None => {
                        proof {
                            lemma_path_entries_prefix_err(arr@, i + 1);
                        }
                        return Err(ParseRouteErrorKind::PathExactMustBeString(ex.deep_clone()));
                    },
                },
                None => {},
            },
        }
        i = i + 1;
    }
    proof {
        assert(arr@.take(i as int) =~= arr@);
    }
    Ok(out)
}

/// Parse one dimension's matcher array.
fn parse_port_entries(arr: &Vec<TomlValue>) -> (r: Result<Vec<port::Kind>, ParseRouteErrorKind>)
    ensures
        r matches Ok(v) ==> port_entries(arr@) == Ok::<_, RouteIssue>(
            v@.map_values(|k: port::Kind| k@),
        ),
        r matches Err(e) ==> (port_entries(arr@) matches Err(t) && issue_of(e) == Some(t)),
        r is Err <==> port_entries(arr@) is Err,
{
    let mut out: Vec<port::Kind> = Vec::new();
    let mut i: usize = 0;
    proof {
        assert(arr@.take(0) =~= Seq::<TomlValue>::empty());
        assert(out@.map_values(|k: port::Kind| k@) =~= Seq::<port::KindModel>::empty());
    }
    while i < arr.len()
        invariant
            i <= arr@.len(),
            port_entries(arr@.take(i as int)) == Ok::<_, RouteIssue>(
                out@.map_values(|k: port::Kind| k@),
            ),
        decreases arr@.len() - i,
    {
        let ghost pre = out@;
        proof {
            assert(arr@.take(i + 1).drop_last() =~= arr@.take(i as int));
            assert(arr@.take(i + 1).last() == arr@[i as int]);
        }
        let entry = &arr[i];
        match entry.get("glob") {
            Some(g) => match g.as_str() {
                Some(s) => match port::Kind::glob(s) {
                    Ok(k) => {
                        let ghost km = k@;
                        out.push(k);
                        proof {
                            assert(out@.map_values(|k: port::Kind| k@) =~= pre.map_values(
                                |k: port::Kind| k@,
                            ).push(km));
                        }
                    },
                    Err(e) => {
                        proof {
                            lemma_port_entries_prefix_err(arr@, i + 1);
                        }
                        return Err(ParseRouteErrorKind::PortGlobPattern(e));
                    },
                },
                None => {
                    proof {
                        lemma_port_entries_prefix_err(arr@, i + 1);
                    }
                    return Err(ParseRouteErrorKind::PortGlobMustBeString(g.deep_clone()));
                },
            },
            None => match entry.get("exact") {
                Some(ex) => {
                    let parsed: Option<port::Kind> = match ex.as_str() {
                        Some(s) => match port::Kind::exact_str(s) {
                            Ok(k) => Some(k),
                            Err(e) => {
                                proof {
                                    lemma_port_entries_prefix_err(arr@, i + 1);
                                }
                                return Err(ParseRouteErrorKind::PortExactParseError(e));
                            },
                        },
                        None => None,
                    };
                    match parsed {
                        Some(k) => {
                            let ghost km = k@;
                            out.push(k);
                            proof {
                                assert(out@.map_values(|k: port::Kind| k@) =~= pre.map_values(
                                    |k: port::Kind| k@,
                                ).push(km));
                            }
                        },
                        None => match ex.as_integer() {
                            Some(n) => {
                                if 0 <= n && n <= 65535 {
                                    let k = port::Kind::exact(n as u16);
                                    let ghost km = k@;
                                    out.push(k);
                                    proof {
                                        assert(out@.map_values(|k: port::Kind| k@)
                                            =~= pre.map_values(|k: port::Kind| k@).push(km));
                                    }
                                } else {
                                    proof {
                                        lemma_port_entries_prefix_err(arr@, i + 1);
                                    }
                                    return Err(
                                        ParseRouteErrorKind::PortExactMustBeStringOrInt(
                                            ex.deep_clone(),
                                        ),
                                    );
                                }
                            },
                            None => {
                                proof {
                                    lemma_port_entries_prefix_err(arr@, i + 1);
                                }
                                return Err(
                                    ParseRouteErrorKind::PortExactMustBeStringOrInt(
                                        ex.deep_clone(),
                                    ),
                                );
                            },
                        },
                    }
                },
                None => {},
            },
        }
        i = i + 1;
    }
    proof {
        assert(arr@.take(i as int) =~= arr@);
    }
    Ok(out)
}

/// Parse one dimension's matcher array.
fn parse_scheme_entries(arr: &Vec<TomlValue>) -> (r: Result<
    Vec<scheme::Kind>,
    ParseRouteErrorKind,
>)
    ensures
        r matches Ok(v) ==> scheme_entries(arr@) == Ok::<_, RouteIssue>(v@),
        r matches Err(e) ==> (scheme_entries(arr@) matches Err(t) && issue_of(e) == Some(t)),
        r is Err <==> scheme_entries(arr@) is Err,
{
    let mut out: Vec<scheme::Kind> = Vec::new();
    let mut i: usize = 0;
    proof {
        assert(arr@.take(0) =~= Seq::<TomlValue>::empty());
        assert(out@ =~= Seq::<scheme::Kind>::empty());
    }
    while i < arr.len()
        invariant
            i <= arr@.len(),
            scheme_entries(arr@.take(i as int)) == Ok::<_, RouteIssue>(out@),
        decreases arr@.len() - i,
    {
        let ghost pre = out@;
        proof {
            assert(arr@.take(i + 1).drop_last() =~= arr@.take(i as int));
            assert(arr@.take(i + 1).last() == arr@[i as int]);
        }
        let entry = &arr[i];
        match entry.get("exact") {
            Some(ex) => match ex.as_str() {
                Some(s) => match scheme::Kind::try_from(s) {
                    Ok(k) => {
                        out.push(k);
                        proof {
                            assert(out@ =~= pre.push(k));
                        }
                    },
                    Err(e) => {
                        proof {
                            lemma_scheme_entries_prefix_err(arr@, i + 1);
                        }
                        return Err(ParseRouteErrorKind::UnsupportedScheme(e));
                    },
                },
                None => {
                    proof {
                        lemma_scheme_entries_prefix_err(arr@, i + 1);
                    }
                    return Err(ParseRouteErrorKind::SchemeExactMustBeString(ex.deep_clone()));
                },
            },
            None => {},
        }
        i = i + 1;
    }
    proof {
        assert(arr@.take(i as int) =~= arr@);
    }
    Ok(out)
}

/// Parse the seed URL array.
fn parse_root_entries(arr: &Vec<TomlValue>) -> (r: Result<Vec<RootUrl>, ParseRouteErrorKind>)
    ensures
        r matches Ok(v) ==> root_entries(arr@) == Ok::<_, RouteIssue>(
            v@.map_values(|u: RootUrl| u.value@),
        ),
        r matches Err(e) ==> (root_entries(arr@) matches Err(t) && issue_of(e) == Some(t)),
        r is Err <==> root_entries(arr@) is Err,
{
    let mut out: Vec<RootUrl> = Vec::new();
    let mut i: usize = 0;
    proof {
        assert(arr@.take(0) =~= Seq::<TomlValue>::empty());
        assert(out@.map_values(|u: RootUrl| u.value@) =~= Seq::<UrlModel>::empty());
    }
    while i < arr.len()
        invariant
            i <= arr@.len(),
            root_entries(arr@.take(i as int)) == Ok::<_, RouteIssue>(
                out@.map_values(|u: RootUrl| u.value@),
            ),
        decreases arr@.len() - i,
    {
        let ghost pre = out@;
        proof {
            assert(arr@.take(i + 1).drop_last() =~= arr@.take(i as int));
            assert(arr@.take(i + 1).last() == arr@[i as int]);
        }
        let entry = &arr[i];
        match entry.get("value") {
            Some(v) => match v.as_str() {
                Some(s) => match RootUrl::new(s) {
                    Ok(u) => {
                        let ghost um = u.value@;
                        out.push(u);
                        proof {
                            assert(out@.map_values(|u: RootUrl| u.value@) =~= pre.map_values(
                                |u: RootUrl| u.value@,
                            ).push(um));
                        }
                    },
                    Err(e) => {
                        proof {
                            lemma_root_entries_prefix_err(arr@, i + 1);
                        }
                        return Err(ParseRouteErrorKind::RootUrlParseError(e));
                    },
                },
                None => {
                    proof {
                        lemma_root_entries_prefix_err(arr@, i + 1);
                    }
                    return Err(ParseRouteErrorKind::RootUrlValueMustBeString(v.deep_clone()));
                },
            },
            None => {},
        }
        i = i + 1;
    }
    proof {
        assert(arr@.take(i as int) =~= arr@);
    }
    Ok(out)
}


/// One side of the host bucket: the named list under the section.
fn parse_host_side(section: &TomlValue, key: &str) -> (r: Result<
    Vec<host::Kind>,
    ParseRouteErrorKind,
>)
    ensures
        r matches Ok(v) ==> host_side(*section, key@) == Ok::<_, RouteIssue>(v@.map_values(|k: host::Kind| k@)),
        r matches Err(e) ==> (host_side(*section, key@) matches Err(t) && issue_of(e) == Some(
            t,
        )),
        r is Err <==> host_side(*section, key@) is Err,
{
    match section.get(key) {
        Some(v) => match v.as_array() {
            Some(a) => parse_host_entries(a),
            None => Err(ParseRouteErrorKind::HostsMustBeArray(v.deep_clone())),
        },
        None => {
            let v: Vec<host::Kind> = Vec::new();
            proof {
                assert(v@.map_values(|k: host::Kind| k@) =~= Seq::empty());
            }
            Ok(v)
        },
    }
}

/// Both sides of the host bucket, from the `hosts` subsection.
fn parse_host_sides(routes: &TomlValue) -> (r: Result<
    (Vec<host::Kind>, Vec<host::Kind>),
    ParseRouteErrorKind,
>)
    ensures
        r matches Ok(p) ==> host_sides(*routes) == Ok::<_, RouteIssue>(
            (p.0@.map_values(|k: host::Kind| k@), p.1@.map_values(|k: host::Kind| k@)),
        ),
        r matches Err(e) ==> (host_sides(*routes) matches Err(t) && issue_of(e) == Some(t)),
        r is Err <==> host_sides(*routes) is Err,
{
    match routes.get("hosts") {
        Some(section) => {
            let acc = match parse_host_side(section, "acceptable") {
                Ok(v) => v,
                Err(e) => {
                    return Err(e);
                },
            };
            let unacc = match parse_host_side(section, "unacceptable") {
                Ok(v) => v,
                Err(e) => {
                    return Err(e);
                },
            };
            Ok((acc, unacc))
        },
        None => {
            let a: Vec<host::Kind> = Vec::new();
            let b: Vec<host::Kind> = Vec::new();
            proof {
                assert(a@.map_values(|k: host::Kind| k@) =~= Seq::empty());
                assert(b@.map_values(|k: host::Kind| k@) =~= Seq::empty());
            }
            Ok((a, b))
        },
    }
}

/// One side of the scheme bucket: the named list under the section.
fn parse_scheme_side(section: &TomlValue, key: &str) -> (r: Result<
    Vec<scheme::Kind>,
    ParseRouteErrorKind,
>)
    ensures
        r matches Ok(v) ==> scheme_side(*section, key@) == Ok::<_, RouteIssue>(v@),
        r matches Err(e) ==> (scheme_side(*section, key@) matches Err(t) && issue_of(e) == Some(
            t,
        )),
        r is Err <==> scheme_side(*section, key@) is Err,
{
    match section.get(key) {
        Some(v) => match v.as_array() {
            Some(a) => parse_scheme_entries(a),
            None => Err(ParseRouteErrorKind::SchemesMustBeArray(v.deep_clone())),
        },
        None => {
            let v: Vec<scheme::Kind> = Vec::new();
            proof {
                assert(v@ =~= Seq::empty());
            }
            Ok(v)
        },
    }
}

/// Both sides of the scheme bucket, from the `schemes` subsection.
fn parse_scheme_sides(routes: &TomlValue) -> (r: Result<
    (Vec<scheme::Kind>, Vec<scheme::Kind>),
    ParseRouteErrorKind,
>)
    ensures
        r matches Ok(p) ==> scheme_sides(*routes) == Ok::<_, RouteIssue>(
            (p.0@, p.1@),
        ),
        r matches Err(e) ==> (scheme_sides(*routes) matches Err(t) && issue_of(e) == Some(t)),
        r is Err <==> scheme_sides(*routes) is Err,
{
    match routes.get("schemes") {
        Some(section) => {
            let acc = match parse_scheme_side(section, "acceptable") {
                Ok(v) => v,
                Err(e) => {
                    return Err(e);
                },
            };
            let unacc = match parse_scheme_side(section, "unacceptable") {
                Ok(v) => v,
                Err(e) => {
                    return Err(e);
                },
            };
            Ok((acc, unacc))
        },
        None => {
            let a: Vec<scheme::Kind> = Vec::new();
            let b: Vec<scheme::Kind> = Vec::new();
            proof {
                assert(a@ =~= Seq::empty());
                assert(b@ =~= Seq::empty());
            }
            Ok((a, b))
        },
    }
}

/// One side of the port bucket: the named list under the section.
fn parse_port_side(section: &TomlValue, key: &str) -> (r: Result<
    Vec<port::Kind>,
    ParseRouteErrorKind,
>)
    ensures
        r matches Ok(v) ==> port_side(*section, key@) == Ok::<_, RouteIssue>(v@.map_values(|k: port::Kind| k@)),
        r matches Err(e) ==> (port_side(*section, key@) matches Err(t) && issue_of(e) == Some(
            t,
        )),
        r is Err <==> port_side(*section, key@) is Err,
{
    match section.get(key) {
        Some(v) => match v.as_array() {
            Some(a) => parse_port_entries(a),
            None => Err(ParseRouteErrorKind::PortsMustBeArray(v.deep_clone())),
        },
        None => {
            let v: Vec<port::Kind> = Vec::new();
            proof {
                assert(v@.map_values(|k: port::Kind| k@) =~= Seq::empty());
            }
            Ok(v)
        },
    }
}

/// Both sides of the port bucket, from the `ports` subsection.
fn parse_port_sides(routes: &TomlValue) -> (r: Result<
    (Vec<port::Kind>, Vec<port::Kind>),
    ParseRouteErrorKind,
>)
    ensures
        r matches Ok(p) ==> port_sides(*routes) == Ok::<_, RouteIssue>(
            (p.0@.map_values(|k: port::Kind| k@), p.1@.map_values(|k: port::Kind| k@)),
        ),
        r matches Err(e) ==> (port_sides(*routes) matches Err(t) && issue_of(e) == Some(t)),
        r is Err <==> port_sides(*routes) is Err,
{
    match routes.get("ports") {
        Some(section) => {
            let acc = match parse_port_side(section, "acceptable") {
                Ok(v) => v,
                Err(e) => {
                    return Err(e);
                },
            };
            let unacc = match parse_port_side(section, "unacceptable") {
                Ok(v) => v,
                Err(e) => {
                    return Err(e);
                },
            };
            Ok((acc, unacc))
        },
        None => {
            let a: Vec<port::Kind> = Vec::new();
            let b: Vec<port::Kind> = Vec::new();
            proof {
                assert(a@.map_values(|k: port::Kind| k@) =~= Seq::empty());
                assert(b@.map_values(|k: port::Kind| k@) =~= Seq::empty());
            }
            Ok((a, b))
        },
    }
}

/// One side of the path bucket: the named list under the section.
fn parse_path_side(section: &TomlValue, key: &str) -> (r: Result<
    Vec<path::Kind>,
    ParseRouteErrorKind,
>)
    ensures
        r matches Ok(v) ==> path_side(*section, key@) == Ok::<_, RouteIssue>(v@.map_values(|k: path::Kind| k@)),
        r matches Err(e) ==> (path_side(*section, key@) matches Err(t) && issue_of(e) == Some(
            t,
        )),
        r is Err <==> path_side(*section, key@) is Err,
{
    match section.get(key) {
        Some(v) => match v.as_array() {
            Some(a) => parse_path_entries(a),
            None => Err(ParseRouteErrorKind::PathsMustBeArray(v.deep_clone())),
        },
        None => {
            let v: Vec<path::Kind> = Vec::new();
            proof {
                assert(v@.map_values(|k: path::Kind| k@) =~= Seq::empty());
            }
            Ok(v)
        },
    }
}

/// Both sides of the path bucket, from the `paths` subsection.
fn parse_path_sides(routes: &TomlValue) -> (r: Result<
    (Vec<path::Kind>, Vec<path::Kind>),
    ParseRouteErrorKind,
>)
    ensures
        r matches Ok(p) ==> path_sides(*routes) == Ok::<_, RouteIssue>(
            (p.0@.map_values(|k: path::Kind| k@), p.1@.map_values(|k: path::Kind| k@)),
        ),
        r matches Err(e) ==> (path_sides(*routes) matches Err(t) && issue_of(e) == Some(t)),
        r is Err <==> path_sides(*routes) is Err,
{
    match routes.get("paths") {
        Some(section) => {
            let acc = match parse_path_side(section, "acceptable") {
                Ok(v) => v,
                Err(e) => {
                    return Err(e);
                },
            };
            let unacc = match parse_path_side(section, "unacceptable") {
                Ok(v) => v,
                Err(e) => {
                    return Err(e);
                },
            };
            Ok((acc, unacc))
        },
        None => {
            let a: Vec<path::Kind> = Vec::new();
            let b: Vec<path::Kind> = Vec::new();
            proof {
                assert(a@.map_values(|k: path::Kind| k@) =~= Seq::empty());
                assert(b@.map_values(|k: path::Kind| k@) =~= Seq::empty());
            }
            Ok((a, b))
        },
    }
}

/// The seed URLs of the `routes` section.
fn parse_roots(routes: &TomlValue) -> (r: Result<Vec<RootUrl>, ParseRouteErrorKind>)
    ensures
        r matches Ok(v) ==> roots_of(*routes) == Ok::<_, RouteIssue>(
            v@.map_values(|u: RootUrl| u.value@),
        ),
        r matches Err(e) ==> (roots_of(*routes) matches Err(t) && issue_of(e) == Some(t)),
        r is Err <==> roots_of(*routes) is Err,
{
    match routes.get("root_urls") {
        Some(v) => match v.as_array() {
            Some(a) => parse_root_entries(a),
            None => Err(ParseRouteErrorKind::RootUrlsMustBeArray(v.deep_clone())),
        },
        None => {
            let v: Vec<RootUrl> = Vec::new();
            proof {
                assert(v@.map_values(|u: RootUrl| u.value@) =~= Seq::<UrlModel>::empty());
            }
            Ok(v)
        },
    }
}

/// Read a route out of a TOML document: the seed URLs and one bucket per
/// dimension, with empty acceptable lists seeded by `Any`. The result is
/// exactly the route the document describes, and each fault is reported
/// as the error for that fault.
pub fn parse_route_from_toml(raw: &str) -> (r: Result<Route, ParseRouteErrorKind>)
    ensures
        toml_doc_of(raw@) is None ==> (r matches Err(e) && e is ParseToml),
        toml_doc_of(raw@) matches Some(doc) ==> match route_from_doc(doc) {
            Ok(m) => r matches Ok(rt) && route_matches_model(rt, m),
            Err(t) => r matches Err(e) && issue_of(e) == Some(t),
        },
{
    let doc = match toml_parse(raw) {
        Ok(d) => d,
        Err(m) => {
            return Err(ParseRouteErrorKind::ParseToml(m));
        },
    };
    let routes = match doc.get("routes") {
        Some(v) => v,
        None => {
            return Err(ParseRouteErrorKind::RoutesNotFound(doc.deep_clone()));
        },
    };
    if !routes.is_table() {
        return Err(ParseRouteErrorKind::RoutesMustBeTable(routes.deep_clone()));
    }
    let root_vec = match parse_roots(routes) {
        Ok(v) => v,
        Err(e) => {
            return Err(e);
        },
    };
    let (ha, hu) = match parse_host_sides(routes) {
        Ok(p) => p,
        Err(e) => {
            return Err(e);
        },
    };
    let (sa, su) = match parse_scheme_sides(routes) {
        Ok(p) => p,
        Err(e) => {
            return Err(e);
        },
    };
    let (pa, pu) = match parse_port_sides(routes) {
        Ok(p) => p,
        Err(e) => {
            return Err(e);
        },
    };
    let (ta, tu) = match parse_path_sides(routes) {
        Ok(p) => p,
        Err(e) => {
            return Err(e);
        },
    };
    let route = Route::new(
        RootUrls(root_vec),
        FollowRobotsExclusionProtocol::new(true),
        Hosts { acceptable: ha, unacceptable: hu },
        Paths { acceptable: ta, unacceptable: tu },
        Ports { acceptable: pa, unacceptable: pu },
        Schemes { acceptable: sa, unacceptable: su },
    );
    proof {
        assert(seq![host::Kind::Any].map_values(|k: host::Kind| k@) =~= seq![
            host::KindModel::Any,
        ]);
        assert(seq![path::Kind::Any].map_values(|k: path::Kind| k@) =~= seq![
            path::KindModel::Any,
        ]);
        assert(seq![port::Kind::Any].map_values(|k: port::Kind| k@) =~= seq![
            port::KindModel::Any,
        ]);
    }
    Ok(route)
}


/// Everything that can be wrong with a polling document. Most variants
/// carry the offending value.
#[derive(Debug)]
pub enum ParsePollingErrorKind {
    ParseToml(String),
    PollingNotFound(TomlValue),
    PollingMustBeTable(TomlValue),
    RedirectionsAcceptableNotFound(TomlValue),
    RedirectionsAcceptableMustBeBool(TomlValue),
    RedirectionsMaxRedirectsNotFound(TomlValue),
    RedirectionsMaxRedirectsMustBeStringOrInt(TomlValue),
    DepthAcceptableNotFound(TomlValue),
    DepthAcceptableMustBeBool(TomlValue),
    DepthMaxRedirectsNotFound(TomlValue),
    DepthMaxDepthMustBeStringOrInt(TomlValue),
    MinSleepBetweenRequestsNotFound(TomlValue),
    MinSleepBetweenRequestsMustBeStringOrInt(TomlValue),
    MaxSleepBetweenRequestsNotFound(TomlValue),
    MaxSleepBetweenRequestsMustBeStringOrInt(TomlValue),
    RequestTimeoutNotFound(TomlValue),
    RequestTimeoutMustBeStringOrInt(TomlValue),
    UserAgentValueMustBeString(TomlValue),
    ProxyValueMustBeString(TomlValue),
}

/// The same faults, without their payloads.
pub enum PollingIssue {
    PollingNotFound,
    PollingMustBeTable,
    RedirectionsAcceptableNotFound,
    RedirectionsAcceptableMustBeBool,
    RedirectionsMaxRedirectsNotFound,
    RedirectionsMaxRedirectsMustBeStringOrInt,
    DepthAcceptableNotFound,
    DepthAcceptableMustBeBool,
    DepthMaxRedirectsNotFound,
    DepthMaxDepthMustBeStringOrInt,
    MinSleepBetweenRequestsNotFound,
    MinSleepBetweenRequestsMustBeStringOrInt,
    MaxSleepBetweenRequestsNotFound,
    MaxSleepBetweenRequestsMustBeStringOrInt,
    RequestTimeoutNotFound,
    RequestTimeoutMustBeStringOrInt,
    UserAgentValueMustBeString,
    ProxyValueMustBeString,
}

/// The fault a polling error reports. `ParseToml` stands apart: it is
/// raised before there is a document to read.
pub open spec fn polling_issue_of(e: ParsePollingErrorKind) -> Option<PollingIssue> {
    match e {
        ParsePollingErrorKind::ParseToml(_) => None,
        ParsePollingErrorKind::PollingNotFound(_) => Some(PollingIssue::PollingNotFound),
        ParsePollingErrorKind::PollingMustBeTable(_) => Some(PollingIssue::PollingMustBeTable),
        ParsePollingErrorKind::RedirectionsAcceptableNotFound(_) => Some(
            PollingIssue::RedirectionsAcceptableNotFound,
        ),
        ParsePollingErrorKind::RedirectionsAcceptableMustBeBool(_) => Some(
            PollingIssue::RedirectionsAcceptableMustBeBool,
        ),
        ParsePollingErrorKind::RedirectionsMaxRedirectsNotFound(_) => Some(
            PollingIssue::RedirectionsMaxRedirectsNotFound,
        ),
        ParsePollingErrorKind::RedirectionsMaxRedirectsMustBeStringOrInt(_) => Some(
            PollingIssue::RedirectionsMaxRedirectsMustBeStringOrInt,
        ),
        ParsePollingErrorKind::DepthAcceptableNotFound(_) => Some(
            PollingIssue::DepthAcceptableNotFound,
        ),
        ParsePollingErrorKind::DepthAcceptableMustBeBool(_) => Some(
            PollingIssue::DepthAcceptableMustBeBool,
        ),
        ParsePollingErrorKind::DepthMaxRedirectsNotFound(_) => Some(
            PollingIssue::DepthMaxRedirectsNotFound,
        ),
        ParsePollingErrorKind::DepthMaxDepthMustBeStringOrInt(_) => Some(
            PollingIssue::DepthMaxDepthMustBeStringOrInt,
        ),
        ParsePollingErrorKind::MinSleepBetweenRequestsNotFound(_) => Some(
            PollingIssue::MinSleepBetweenRequestsNotFound,
        ),
        ParsePollingErrorKind::MinSleepBetweenRequestsMustBeStringOrInt(_) => Some(
            PollingIssue::MinSleepBetweenRequestsMustBeStringOrInt,
        ),
        ParsePollingErrorKind::MaxSleepBetweenRequestsNotFound(_) => Some(
            PollingIssue::MaxSleepBetweenRequestsNotFound,
        ),
        ParsePollingErrorKind::MaxSleepBetweenRequestsMustBeStringOrInt(_) => Some(
            PollingIssue::MaxSleepBetweenRequestsMustBeStringOrInt,
        ),
        ParsePollingErrorKind::RequestTimeoutNotFound(_) => Some(
            PollingIssue::RequestTimeoutNotFound,
        ),
        ParsePollingErrorKind::RequestTimeoutMustBeStringOrInt(_) => Some(
            PollingIssue::RequestTimeoutMustBeStringOrInt,
        ),
        ParsePollingErrorKind::UserAgentValueMustBeString(_) => Some(
            PollingIssue::UserAgentValueMustBeString,
        ),
        ParsePollingErrorKind::ProxyValueMustBeString(_) => Some(
            PollingIssue::ProxyValueMustBeString,
        ),
    }
}

/// A `u16` read from a field that may hold a digit string or an integer.
pub open spec fn u16_field(
    section: TomlValue,
    key: Seq<char>,
    missing: PollingIssue,
    bad: PollingIssue,
) -> Result<u16, PollingIssue> {
    match toml_get(section, key) {
        Some(v) => match v {
            TomlValue::String(s) => match parse_u16_spec(s@) {
                Some(n) => Ok(n),
                None => Err(bad),
            },
            TomlValue::Integer(i) => if 0 <= i <= 65535 {
                Ok(i as u16)
            } else {
                Err(bad)
            },
            _ => Err(bad),
        },
        None => Err(missing),
    }
}

/// A `u64` read from a field that may hold a digit string or an integer.
pub open spec fn u64_field(
    section: TomlValue,
    key: Seq<char>,
    missing: PollingIssue,
    bad: PollingIssue,
) -> Result<u64, PollingIssue> {
    match toml_get(section, key) {
        Some(v) => match v {
            TomlValue::String(s) => match parse_u64_spec(s@) {
                Some(n) => Ok(n),
                None => Err(bad),
            },
            TomlValue::Integer(i) => if 0 <= i {
                Ok(i as u64)
            } else {
                Err(bad)
            },
            _ => Err(bad),
        },
        None => Err(missing),
    }
}

/// A boolean read from a required field.
pub open spec fn bool_field(
    section: TomlValue,
    key: Seq<char>,
    missing: PollingIssue,
    bad: PollingIssue,
) -> Result<bool, PollingIssue> {
    match toml_get(section, key) {
        Some(v) => match v {
            TomlValue::Boolean(b) => Ok(b),
            _ => Err(bad),
        },
        None => Err(missing),
    }
}

/// The redirection rule a document describes, where it has one.
pub open spec fn redirections_of(p: TomlValue) -> Result<Option<(bool, u16)>, PollingIssue> {
    match toml_get(p, "redirections"@) {
        Some(sec) => match bool_field(
            sec,
            "acceptable"@,
            PollingIssue::RedirectionsAcceptableNotFound,
            PollingIssue::RedirectionsAcceptableMustBeBool,
        ) {
            Ok(acc) => match u16_field(
                sec,
                "max_redirects"@,
                PollingIssue::RedirectionsMaxRedirectsNotFound,
                PollingIssue::RedirectionsMaxRedirectsMustBeStringOrInt,
            ) {
                Ok(n) => Ok(Some((acc, n))),
                Err(e) => Err(e),
            },
            Err(e) => Err(e),
        },
        None => Ok(None),
    }
}

/// The depth rule a document describes, where it has one.
pub open spec fn depth_of(p: TomlValue) -> Result<Option<(bool, u16)>, PollingIssue> {
    match toml_get(p, "depth"@) {
        Some(sec) => match bool_field(
            sec,
            "acceptable"@,
            PollingIssue::DepthAcceptableNotFound,
            PollingIssue::DepthAcceptableMustBeBool,
        ) {
            Ok(acc) => match u16_field(
                sec,
                "max_depth"@,
                PollingIssue::DepthMaxRedirectsNotFound,
                PollingIssue::DepthMaxDepthMustBeStringOrInt,
            ) {
                Ok(n) => Ok(Some((acc, n))),
                Err(e) => Err(e),
            },
            Err(e) => Err(e),
        },
        None => Ok(None),
    }
}

/// The pacing rule a document describes, where it has one.
pub open spec fn time_of(p: TomlValue) -> Result<Option<(u64, u64, u64)>, PollingIssue> {
    match toml_get(p, "time"@) {
        Some(sec) => match u64_field(
            sec,
            "min_sleep_between_requests"@,
            PollingIssue::MinSleepBetweenRequestsNotFound,
            PollingIssue::MinSleepBetweenRequestsMustBeStringOrInt,
        ) {
            Ok(min) => match u64_field(
                sec,
                "max_sleep_between_requests"@,
                PollingIssue::MaxSleepBetweenRequestsNotFound,
                PollingIssue::MaxSleepBetweenRequestsMustBeStringOrInt,
            ) {
                Ok(max) => match u64_field(
                    sec,
                    "request_timeout"@,
                    PollingIssue::RequestTimeoutNotFound,
                    PollingIssue::RequestTimeoutMustBeStringOrInt,
                ) {
                    Ok(to) => Ok(Some((min, max, to))),
                    Err(e) => Err(e),
                },
                Err(e) => Err(e),
            },
            Err(e) => Err(e),
        },
        None => Ok(None),
    }
}

/// The optional string a `value` field of the named section holds.
pub open spec fn value_field_of(p: TomlValue, section: Seq<char>, bad: PollingIssue) -> Result<
    Option<Seq<char>>,
    PollingIssue,
> {
    match toml_get(p, section) {
        Some(sec) => match toml_get(sec, "value"@) {
            Some(v) => match v {
                TomlValue::String(s) => Ok(Some(s@)),
                _ => Err(bad),
            },
            None => Ok(None),
        },
        None => Ok(None),
    }
}

/// The mathematical form of the polling rules a document describes, with
/// the defaults filled in for absent sections.
pub struct PollingModel {
    pub depth_acceptable: bool,
    pub depth_cap: u16,
    pub redirections_acceptable: bool,
    pub redirections_cap: u16,
    pub min_sleep: u64,
    pub max_sleep: u64,
    pub request_timeout: u64,
    pub user_agent: Option<Seq<char>>,
    pub proxy: Option<Seq<char>>,
}

/// The polling rules a document describes: the `polling` table must exist;
/// each present section is read in the order redirections, depth, time,
/// user agent, proxy, and absent sections keep their defaults.
pub open spec fn polling_from_doc(doc: TomlValue) -> Result<PollingModel, PollingIssue> {
    match toml_get(doc, "polling"@) {
        None => Err(PollingIssue::PollingNotFound),
        Some(p) => if !(p is Table) {
            Err(PollingIssue::PollingMustBeTable)
        } else {
            match redirections_of(p) {
                Err(e) => Err(e),
                Ok(red) => match depth_of(p) {
                    Err(e) => Err(e),
                    Ok(dep) => match time_of(p) {
                        Err(e) => Err(e),
                        Ok(time) => match value_field_of(
                            p,
                            "user_agent"@,
                            PollingIssue::UserAgentValueMustBeString,
                        ) {
                            Err(e) => Err(e),
                            Ok(ua) => match value_field_of(
                                p,
                                "proxy"@,
                                PollingIssue::ProxyValueMustBeString,
                            ) {
                                Err(e) => Err(e),
                                Ok(proxy) => {
                                    let (racc, rcap) = match red {
                                        Some(r) => r,
                                        None => (true, 5u16),
                                    };
                                    let (dacc, dcap) = match dep {
                                        Some(d) => d,
                                        None => (true, 7u16),
                                    };
                                    let (min, max, to) = match time {
                                        Some(t) => t,
                                        None => (3000u64, 60000u64, 7000u64),
                                    };
                                    Ok(
                                        PollingModel {
                                            depth_acceptable: dacc,
                                            depth_cap: if dacc {
                                                dcap
                                            } else {
                                                0u16
                                            },
                                            redirections_acceptable: racc,
                                            redirections_cap: if racc {
                                                rcap
                                            } else {
                                                0u16
                                            },
                                            min_sleep: min,
                                            max_sleep: max,
                                            request_timeout: to,
                                            user_agent: ua,
                                            proxy,
                                        },
                                    )
                                },
                            },
                        },
                    },
                },
            }
        },
    }
}

/// Whether a polling value realizes a polling model.
pub open spec fn polling_matches_model(p: Polling, m: PollingModel) -> bool {
    &&& p.depth.spec_acceptable() == m.depth_acceptable
    &&& p.depth.effective_cap() == m.depth_cap
    &&& p.redirections.spec_acceptable() == m.redirections_acceptable
    &&& p.redirections.effective_cap() == m.redirections_cap
    &&& p.time.min_sleep_between_requests == m.min_sleep
    &&& p.time.max_sleep_between_requests == m.max_sleep
    &&& p.time.request_timeout == m.request_timeout
    &&& match (p.user_agent, m.user_agent) {
        (Some(ua), Some(s)) => ua.value@ == s,
        (None, None) => true,
        _ => false,
    }
    &&& match (p.proxy, m.proxy) {
        (Some(px), Some(s)) => px.value@ == s,
        (None, None) => true,
        _ => false,
    }
}


/// The redirection rule of the document, where it has one; both fields are
/// required once the section is present.
fn parse_redirections(p: &TomlValue) -> (r: Result<Option<Redirections>, ParsePollingErrorKind>)
    ensures
        r matches Ok(Some(rd)) ==> (redirections_of(*p) matches Ok(pair) && pair matches Some(
            pair,
        ) && rd.spec_acceptable() == pair.0 && rd.effective_cap() == (if pair.0 {
            pair.1
        } else {
            0u16
        })),
        r matches Ok(o) && o is None ==> redirections_of(*p) == Ok::<
            Option<(bool, u16)>,
            PollingIssue,
        >(None),
        r matches Err(e) ==> (redirections_of(*p) matches Err(t) && polling_issue_of(e) == Some(
            t,
        )),
        r is Err <==> redirections_of(*p) is Err,
{
    match p.get("redirections") {
        Some(sec) => {
            let acc = match sec.get("acceptable") {
                Some(v) => match v.as_bool() {
                    Some(b) => b,
                    None => {
                        return Err(
                            ParsePollingErrorKind::RedirectionsAcceptableMustBeBool(
                                v.deep_clone(),
                            ),
                        );
                    },
                },
                None => {
                    return Err(
                        ParsePollingErrorKind::RedirectionsAcceptableNotFound(sec.deep_clone()),
                    );
                },
            };
            let n: u16 = match sec.get("max_redirects") {
                Some(v) => match v.as_str() {
                    Some(s) => {
                        let cs = chars_of(s);
                        match parse_u16_chars(&cs) {
                            Some(n) => n,
                            None => {
                                return Err(
                                    ParsePollingErrorKind::RedirectionsMaxRedirectsMustBeStringOrInt(
                                        v.deep_clone(),
                                    ),
                                );
                            },
                        }
                    },
                    None => match v.as_integer() {
                        Some(i) => {
                            if 0 <= i && i <= 65535 {
                                i as u16
                            } else {
                                return Err(
                                    ParsePollingErrorKind::RedirectionsMaxRedirectsMustBeStringOrInt(
                                        v.deep_clone(),
                                    ),
                                );
                            }
                        },
                        None => {
                            return Err(
                                ParsePollingErrorKind::RedirectionsMaxRedirectsMustBeStringOrInt(
                                    v.deep_clone(),
                                ),
                            );
                        },
                    },
                },
                None => {
                    return Err(
                        ParsePollingErrorKind::RedirectionsMaxRedirectsNotFound(sec.deep_clone()),
                    );
                },
            };
            Ok(Some(Redirections::new(acc, n)))
        },
        None => Ok(None),
    }
}

/// The depth rule of the document, where it has one.
fn parse_depth(p: &TomlValue) -> (r: Result<Option<Depth>, ParsePollingErrorKind>)
    ensures
        r matches Ok(Some(d)) ==> (depth_of(*p) matches Ok(pair) && pair matches Some(pair)
            && d.spec_acceptable() == pair.0 && d.effective_cap() == (if pair.0 {
            pair.1
        } else {
            0u16
        })),
        r matches Ok(o) && o is None ==> depth_of(*p) == Ok::<Option<(bool, u16)>, PollingIssue>(
            None,
        ),
        r matches Err(e) ==> (depth_of(*p) matches Err(t) && polling_issue_of(e) == Some(t)),
        r is Err <==> depth_of(*p) is Err,
{
    match p.get("depth") {
        Some(sec) => {
            let acc = match sec.get("acceptable") {
                Some(v) => match v.as_bool() {
                    Some(b) => b,
                    None => {
                        return Err(
                            ParsePollingErrorKind::DepthAcceptableMustBeBool(v.deep_clone()),
                        );
                    },
                },
                None => {
                    return Err(ParsePollingErrorKind::DepthAcceptableNotFound(sec.deep_clone()));
                },
            };
            let n: u16 = match sec.get("max_depth") {
                Some(v) => match v.as_str() {
                    Some(s) => {
                        let cs = chars_of(s);
                        match parse_u16_chars(&cs) {
                            Some(n) => n,
                            None => {
                                return Err(
                                    ParsePollingErrorKind::DepthMaxDepthMustBeStringOrInt(
                                        v.deep_clone(),
                                    ),
                                );
                            },
                        }
                    },
                    None => match v.as_integer() {
                        Some(i) => {
                            if 0 <= i && i <= 65535 {
                                i as u16
                            } else {
                                return Err(
                                    ParsePollingErrorKind::DepthMaxDepthMustBeStringOrInt(
                                        v.deep_clone(),
                                    ),
                                );
                            }
                        },
                        None => {
                            return Err(
                                ParsePollingErrorKind::DepthMaxDepthMustBeStringOrInt(
                                    v.deep_clone(),
                                ),
                            );
                        },
                    },
                },
                None => {
                    return Err(ParsePollingErrorKind::DepthMaxRedirectsNotFound(sec.deep_clone()));
                },
            };
            Ok(Some(Depth::new(acc, n)))
        },
        None => Ok(None),
    }
}

/// One of the three pacing fields, read as a digit string or an integer.
fn parse_u64_value(v: &TomlValue) -> (r: Option<u64>)
    ensures
        r matches Some(n) ==> match *v {
            TomlValue::String(s) => parse_u64_spec(s@) == Some(n),
            TomlValue::Integer(i) => 0 <= i && n == i as u64,
            _ => false,
        },
        r is None <==> match *v {
            TomlValue::String(s) => parse_u64_spec(s@) is None,
            TomlValue::Integer(i) => i < 0,
            _ => true,
        },
{
    match v.as_str() {
        Some(s) => {
            let cs = chars_of(s);
            parse_u64_chars(&cs)
        },
        None => match v.as_integer() {
            Some(i) => {
                if 0 <= i {
                    Some(i as u64)
                } else {
                    None
                }
            },
            None => None,
        },
    }
}

/// The pacing rule of the document, where it has one; all three fields are
/// required once the section is present.
fn parse_time(p: &TomlValue) -> (r: Result<Option<Time>, ParsePollingErrorKind>)
    ensures
        r matches Ok(Some(t)) ==> (time_of(*p) matches Ok(tr) && tr matches Some(tr)
            && t.min_sleep_between_requests == tr.0 && t.max_sleep_between_requests == tr.1
            && t.request_timeout == tr.2),
        r matches Ok(o) && o is None ==> time_of(*p) == Ok::<
            Option<(u64, u64, u64)>,
            PollingIssue,
        >(None),
        r matches Err(e) ==> (time_of(*p) matches Err(t) && polling_issue_of(e) == Some(t)),
        r is Err <==> time_of(*p) is Err,
{
    match p.get("time") {
        Some(sec) => {
            let min = match sec.get("min_sleep_between_requests") {
                Some(v) => match parse_u64_value(v) {
                    Some(n) => n,
                    None => {
                        return Err(
                            ParsePollingErrorKind::MinSleepBetweenRequestsMustBeStringOrInt(
                                v.deep_clone(),
                            ),
                        );
                    },
                },
                None => {
                    return Err(
                        ParsePollingErrorKind::MinSleepBetweenRequestsNotFound(sec.deep_clone()),
                    );
                },
            };
            let max = match sec.get("max_sleep_between_requests") {
                Some(v) => match parse_u64_value(v) {
                    Some(n) => n,
                    None => {
                        return Err(
                            ParsePollingErrorKind::MaxSleepBetweenRequestsMustBeStringOrInt(
                                v.deep_clone(),
                            ),
                        );
                    },
                },
                None => {
                    return Err(
                        ParsePollingErrorKind::MaxSleepBetweenRequestsNotFound(sec.deep_clone()),
                    );
                },
            };
            let timeout = match sec.get("request_timeout") {
                Some(v) => match parse_u64_value(v) {
                    Some(n) => n,
                    None => {
                        return Err(
                            ParsePollingErrorKind::RequestTimeoutMustBeStringOrInt(
                                v.deep_clone(),
                            ),
                        );
                    },
                },
                None => {
                    return Err(ParsePollingErrorKind::RequestTimeoutNotFound(sec.deep_clone()));
                },
            };
            Ok(Some(Time::new(min, max, timeout)))
        },
        None => Ok(None),
    }
}

/// The `value` field of the `user_agent` section, where both exist.
fn parse_user_agent_value(p: &TomlValue) -> (r: Result<Option<String>, ParsePollingErrorKind>)
    ensures
        r matches Ok(Some(s)) ==> value_field_of(
            *p,
            "user_agent"@,
            PollingIssue::UserAgentValueMustBeString,
        ) == Ok::<Option<Seq<char>>, PollingIssue>(Some(s@)),
        r matches Ok(o) && o is None ==> value_field_of(
            *p,
            "user_agent"@,
            PollingIssue::UserAgentValueMustBeString,
        ) == Ok::<Option<Seq<char>>, PollingIssue>(None),
        r matches Err(e) ==> (e is UserAgentValueMustBeString && value_field_of(
            *p,
            "user_agent"@,
            PollingIssue::UserAgentValueMustBeString,
        ) == Err::<Option<Seq<char>>, _>(PollingIssue::UserAgentValueMustBeString)),
        r is Err <==> value_field_of(
            *p,
            "user_agent"@,
            PollingIssue::UserAgentValueMustBeString,
        ) is Err,
{
    match p.get("user_agent") {
        Some(sec) => match sec.get("value") {
            Some(v) => match v.as_str() {
                Some(s) => Ok(Some(s.to_owned())),
                None => Err(ParsePollingErrorKind::UserAgentValueMustBeString(v.deep_clone())),
            },
            None => Ok(None),
        },
        None => Ok(None),
    }
}

/// The `value` field of the `proxy` section, where both exist.
fn parse_proxy_value(p: &TomlValue) -> (r: Result<Option<String>, ParsePollingErrorKind>)
    ensures
        r matches Ok(Some(s)) ==> value_field_of(
            *p,
            "proxy"@,
            PollingIssue::ProxyValueMustBeString,
        ) == Ok::<Option<Seq<char>>, PollingIssue>(Some(s@)),
        r matches Ok(o) && o is None ==> value_field_of(
            *p,
            "proxy"@,
            PollingIssue::ProxyValueMustBeString,
        ) == Ok::<Option<Seq<char>>, PollingIssue>(None),
        r matches Err(e) ==> (e is ProxyValueMustBeString && value_field_of(
            *p,
            "proxy"@,
            PollingIssue::ProxyValueMustBeString,
        ) == Err::<Option<Seq<char>>, _>(PollingIssue::ProxyValueMustBeString)),
        r is Err <==> value_field_of(*p, "proxy"@, PollingIssue::ProxyValueMustBeString) is Err,
{
    match p.get("proxy") {
        Some(sec) => match sec.get("value") {
            Some(v) => match v.as_str() {
                Some(s) => Ok(Some(s.to_owned())),
                None => Err(ParsePollingErrorKind::ProxyValueMustBeString(v.deep_clone())),
            },
            None => Ok(None),
        },
        None => Ok(None),
    }
}

/// Read the polling rules out of a TOML document: redirections, depth,
/// pacing, user agent and proxy, with the defaults for absent sections.
/// The result is exactly what the document describes, and each fault is
/// reported as the error for that fault.
pub fn parse_polling_from_toml(raw: &str) -> (r: Result<Polling, ParsePollingErrorKind>)
    ensures
        toml_doc_of(raw@) is None ==> (r matches Err(e) && e is ParseToml),
        toml_doc_of(raw@) matches Some(doc) ==> match polling_from_doc(doc) {
            Ok(m) => r matches Ok(p) && polling_matches_model(p, m),
            Err(t) => r matches Err(e) && polling_issue_of(e) == Some(t),
        },
{
    let doc = match toml_parse(raw) {
        Ok(d) => d,
        Err(m) => {
            return Err(ParsePollingErrorKind::ParseToml(m));
        },
    };
    let p = match doc.get("polling") {
        Some(v) => v,
        None => {
            return Err(ParsePollingErrorKind::PollingNotFound(doc.deep_clone()));
        },
    };
    if !p.is_table() {
        return Err(ParsePollingErrorKind::PollingMustBeTable(p.deep_clone()));
    }
    let redirections = match parse_redirections(p) {
        Ok(Some(rd)) => rd,
        Ok(None) => Redirections::default(),
        Err(e) => {
            return Err(e);
        },
    };
    let depth = match parse_depth(p) {
        Ok(Some(d)) => d,
        Ok(None) => Depth::default(),
        Err(e) => {
            return Err(e);
        },
    };
    let time = match parse_time(p) {
        Ok(Some(t)) => t,
        Ok(None) => Time::default(),
        Err(e) => {
            return Err(e);
        },
    };
    let user_agent = match parse_user_agent_value(p) {
        Ok(Some(s)) => Some(UserAgent::new(s)),
        Ok(None) => None,
        Err(e) => {
            return Err(e);
        },
    };
    let proxy = match parse_proxy_value(p) {
        Ok(Some(s)) => Some(Proxy::new(s)),
        Ok(None) => None,
        Err(e) => {
            return Err(e);
        },
    };
    Ok(Polling::new(depth, proxy, redirections, time, user_agent))
}

/// Everything that can be wrong with the pair of rule documents.
#[derive(Debug)]
pub enum ErrorKind {
    ParseRoute(ParseRouteErrorKind),
    ParsePolling(ParsePollingErrorKind),
}

/// Read the whole rule set out of the two documents: the route first, then
/// the polling rules; the first faulty document decides the error.
pub fn parse_rules_from_toml(route_raw: &str, polling_raw: &str) -> (r: Result<Rules, ErrorKind>)
    ensures
        r matches Ok(rules) ==> {
            &&& toml_doc_of(route_raw@) matches Some(rd) && route_from_doc(rd) matches Ok(rm)
                && route_matches_model(rules.route, rm)
            &&& toml_doc_of(polling_raw@) matches Some(pd) && polling_from_doc(pd) matches Ok(pm)
                && polling_matches_model(rules.polling, pm)
        },
        r matches Err(e) ==> match e {
            ErrorKind::ParseRoute(_) => (toml_doc_of(route_raw@) matches Some(rd) ==> route_from_doc(
                rd,
            ) is Err),
            ErrorKind::ParsePolling(_) => (toml_doc_of(polling_raw@) matches Some(pd)
                ==> polling_from_doc(pd) is Err),
        },
{
    let route = match parse_route_from_toml(route_raw) {
        Ok(rt) => rt,
        Err(e) => {
            return Err(ErrorKind::ParseRoute(e));
        },
    };
    let polling = match parse_polling_from_toml(polling_raw) {
        Ok(p) => p,
        Err(e) => {
            return Err(ErrorKind::ParsePolling(e));
        },
    };
    Ok(Rules::new(route, polling))
}


/// Two routes that realize the same parsed model make the same admission
/// decision on every URL: building the rules from a document and building
/// them again from the bucket sets it describes changes no decision.
pub proof fn lemma_same_model_same_decisions(
    r1: Route,
    r2: Route,
    m: RouteModel,
    u: crate::urls::UrlModel,
)
    requires
        route_matches_model(r1, m),
        route_matches_model(r2, m),
    ensures
        r1.admits(u) == r2.admits(u),
{
    match u.host {
        Some(h) => match u.port {
            Some(p) => {
                crate::models::routes::hosts::lemma_same_views_same_bucket(
                    r1.hosts.acceptable@,
                    r1.hosts.unacceptable@,
                    r2.hosts.acceptable@,
                    r2.hosts.unacceptable@,
                    h,
                );
                crate::models::routes::paths::lemma_same_views_same_bucket(
                    r1.paths.acceptable@,
                    r1.paths.unacceptable@,
                    r2.paths.acceptable@,
                    r2.paths.unacceptable@,
                    u.path,
                );
                crate::models::routes::ports::lemma_same_views_same_bucket(
                    r1.ports.acceptable@,
                    r1.ports.unacceptable@,
                    r2.ports.acceptable@,
                    r2.ports.unacceptable@,
                    p,
                );
            },
            None => {},
        },
        None => {},
    }
}

} // verus!
