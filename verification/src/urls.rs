//! The parts of an absolute URL that the admission rules read: scheme,
//! host, port, path, and the serialized form. Parsing is done by the `url`
//! crate once, at the boundary; every rule then works on these plain values.

use vstd::prelude::*;

verus! {

/// A string that does not parse as an absolute URL.
#[derive(Debug, Clone, Copy, PartialEq, Eq, Structural)]
pub struct InvalidUrl;

/// The parts of a parsed absolute URL.
#[derive(Debug, Clone, PartialEq, Eq)]
pub struct UrlParts {
    /// The scheme, in the lowercased form the parser returns.
    pub scheme: String,
    /// The host's string form, where the URL has one.
    pub host: Option<String>,
    /// The port, explicit or the scheme's default, where either is known.
    pub port: Option<u16>,
    /// The path.
    pub path: String,
    /// The whole URL as the parser serializes it.
    pub text: String,
}

/// The mathematical form of a URL's parts.
pub struct UrlModel {
    pub scheme: Seq<char>,
    pub host: Option<Seq<char>>,
    pub port: Option<u16>,
    pub path: Seq<char>,
    pub text: Seq<char>,
}

impl View for UrlParts {
    type V = UrlModel;

    open spec fn view(&self) -> UrlModel {
        UrlModel {
            scheme: self.scheme@,
            host: match self.host {
                Some(h) => Some(h@),
                None => None,
            },
            port: self.port,
            path: self.path@,
            text: self.text@,
        }
    }
}

/// The parts of the URL that `s` denotes, or `None` where `s` is not an
/// absolute URL. Parsing is a function of the input text alone.
pub uninterp spec fn url_parts_of(s: Seq<char>) -> Option<UrlModel>;

/// Relies on `url::Url::parse` and the accessors `scheme`, `host_str`,
/// `port_or_known_default`, `path` and `as_str` of the parsed URL; what
/// they return depends on the input text alone.
#[verifier::external_body]
fn parse_url_parts(s: &str) -> (r: Result<UrlParts, InvalidUrl>)
    ensures
        r matches Ok(u) ==> url_parts_of(s@) == Some(u@),
        r is Err <==> url_parts_of(s@) is None,
{
    match url::Url::parse(s) {
        Ok(u) => Ok(UrlParts {
            scheme: u.scheme().to_owned(),
            host: u.host_str().map(|h| h.to_owned()),
            port: u.port_or_known_default(),
            path: u.path().to_owned(),
            text: u.as_str().to_owned(),
        }),
        Err(_) => Err(InvalidUrl),
    }
}

/// Whether a scheme is special in the sense of the WHATWG URL standard.
pub open spec fn is_special_scheme(s: Seq<char>) -> bool {
    s == "http"@ || s == "https"@ || s == "ftp"@ || s == "ws"@ || s == "wss"@ || s == "file"@
}

impl UrlParts {
    /// Parse an absolute URL into its parts.
    pub fn parse(s: &str) -> (r: Result<Self, InvalidUrl>)
        ensures
            r matches Ok(u) ==> url_parts_of(s@) == Some(u@),
            r is Err <==> url_parts_of(s@) is None,
    {
        parse_url_parts(s)
    }

    /// Whether the URL has a host.
    pub fn has_host(&self) -> (r: bool)
        ensures
            r == (self@.host is Some),
    {
        self.host.is_some()
    }

    /// Whether the URL's scheme is special in the sense of the WHATWG URL
    /// standard: `http`, `https`, `ftp`, `ws`, `wss` or `file`.
    pub fn is_special(&self) -> (r: bool)
        ensures
            r == is_special_scheme(self@.scheme),
    {
        let v = crate::text::chars_of(self.scheme.as_str());
        crate::text::chars_eq_str(&v, "http") || crate::text::chars_eq_str(&v, "https")
            || crate::text::chars_eq_str(&v, "ftp") || crate::text::chars_eq_str(&v, "ws")
            || crate::text::chars_eq_str(&v, "wss") || crate::text::chars_eq_str(&v, "file")
    }
}

} // verus!
