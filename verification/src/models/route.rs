//! The route: the seed URLs, the robots switch, and one permission bucket
//! per URL dimension. A URL is admitted exactly when every dimension's
//! bucket admits the URL's component.

use super::routes::follow_robots_exclusion_protocol::FollowRobotsExclusionProtocol;
use super::routes::host;
use super::routes::hosts::{self, Hosts};
use super::routes::path;
use super::routes::paths::{self, Paths};
use super::routes::port;
use super::routes::ports::{self, Ports};
use super::routes::root_url::RootUrl;
use super::routes::root_urls::RootUrls;
use super::routes::scheme;
use super::routes::schemes::{self, Schemes};
use crate::urls::UrlModel;
use vstd::prelude::*;

verus! {

/// The admission rules for outbound links, together with the seed URLs.
#[derive(Debug)]
pub struct Route {
    pub root_urls: RootUrls,
    pub follow_robots_exclusion_protocol: FollowRobotsExclusionProtocol,
    pub hosts: Hosts,
    pub paths: Paths,
    pub ports: Ports,
    pub schemes: Schemes,
}

impl Route {
    /// Whether the route admits a URL: the URL has a host and a known
    /// port, and every dimension's bucket admits its component.
    pub open spec fn admits(&self, u: UrlModel) -> bool {
        match u.host {
            Some(h) => match u.port {
                Some(p) => {
                    &&& schemes::bucket_matches(
                        self.schemes.acceptable@,
                        self.schemes.unacceptable@,
                        u.scheme,
                    )
                    &&& hosts::bucket_matches(self.hosts.acceptable@, self.hosts.unacceptable@, h)
                    &&& ports::bucket_matches(self.ports.acceptable@, self.ports.unacceptable@, p)
                    &&& paths::bucket_matches(
                        self.paths.acceptable@,
                        self.paths.unacceptable@,
                        u.path,
                    )
                },
                None => false,
            },
            None => false,
        }
    }

    /// Assemble a route; every bucket whose acceptable list is empty is
    /// seeded with its dimension's `Any`, so an absent configuration
    /// admits everything.
    pub fn new(
        root_urls: RootUrls,
        follow_robots_exclusion_protocol: FollowRobotsExclusionProtocol,
        hosts: Hosts,
        paths: Paths,
        ports: Ports,
        schemes: Schemes,
    ) -> (r: Self)
        ensures
            r.root_urls == root_urls,
            r.follow_robots_exclusion_protocol == follow_robots_exclusion_protocol,
            r.hosts.acceptable@ == if hosts.acceptable@.len() == 0 {
                seq![host::Kind::Any]
            } else {
                hosts.acceptable@
            },
            r.hosts.unacceptable@ == hosts.unacceptable@,
            r.paths.acceptable@ == if paths.acceptable@.len() == 0 {
                seq![path::Kind::Any]
            } else {
                paths.acceptable@
            },
            r.paths.unacceptable@ == paths.unacceptable@,
            r.ports.acceptable@ == if ports.acceptable@.len() == 0 {
                seq![port::Kind::Any]
            } else {
                ports.acceptable@
            },
            r.ports.unacceptable@ == ports.unacceptable@,
            r.schemes.acceptable@ == if schemes.acceptable@.len() == 0 {
                seq![scheme::Kind::AnySupported]
            } else {
                schemes.acceptable@
            },
            r.schemes.unacceptable@ == schemes.unacceptable@,
    {
        let mut hosts = hosts;
        let mut paths = paths;
        let mut ports = ports;
        let mut schemes = schemes;
        if hosts.acceptable.len() == 0 {
            hosts.acceptable.push(host::Kind::Any);
            proof {
                assert(hosts.acceptable@ =~= seq![host::Kind::Any]);
            }
        }
        if paths.acceptable.len() == 0 {
            paths.acceptable.push(path::Kind::Any);
            proof {
                assert(paths.acceptable@ =~= seq![path::Kind::Any]);
            }
        }
        if ports.acceptable.len() == 0 {
            ports.acceptable.push(port::Kind::Any);
            proof {
                assert(ports.acceptable@ =~= seq![port::Kind::Any]);
            }
        }
        if schemes.acceptable.len() == 0 {
            schemes.acceptable.push(scheme::Kind::AnySupported);
            proof {
                assert(schemes.acceptable@ =~= seq![scheme::Kind::AnySupported]);
            }
        }
        Self { root_urls, follow_robots_exclusion_protocol, hosts, paths, ports, schemes }
    }

    /// The host bucket's decision.
    pub fn host_matches(&self, host: &str) -> (r: bool)
        ensures
            r == hosts::bucket_matches(self.hosts.acceptable@, self.hosts.unacceptable@, host@),
    {
        self.hosts.matches(host)
    }

    /// The path bucket's decision.
    pub fn path_matches(&self, path: &str) -> (r: bool)
        ensures
            r == paths::bucket_matches(self.paths.acceptable@, self.paths.unacceptable@, path@),
    {
        self.paths.matches(path)
    }

    /// The port bucket's decision.
    pub fn port_matches(&self, port: u16) -> (r: bool)
        ensures
            r == ports::bucket_matches(self.ports.acceptable@, self.ports.unacceptable@, port),
    {
        self.ports.matches(port)
    }

    /// The scheme bucket's decision.
    pub fn scheme_matches(&self, scheme: &str) -> (r: bool)
        ensures
            r == schemes::bucket_matches(
                self.schemes.acceptable@,
                self.schemes.unacceptable@,
                scheme@,
            ),
    {
        self.schemes.matches(scheme)
    }

    /// A builder with nothing configured.
    pub fn builder() -> (r: Builder)
        ensures
            r.root_urls.0@ =~= Seq::<RootUrl>::empty(),
            r.follow_robots_exclusion_protocol.value,
            r.hosts.acceptable@ =~= Seq::<host::Kind>::empty(),
            r.hosts.unacceptable@ =~= Seq::<host::Kind>::empty(),
            r.paths.acceptable@ =~= Seq::<path::Kind>::empty(),
            r.paths.unacceptable@ =~= Seq::<path::Kind>::empty(),
            r.ports.acceptable@ =~= Seq::<port::Kind>::empty(),
            r.ports.unacceptable@ =~= Seq::<port::Kind>::empty(),
            r.schemes.acceptable@ =~= Seq::<scheme::Kind>::empty(),
            r.schemes.unacceptable@ =~= Seq::<scheme::Kind>::empty(),
    {
        Builder {
            root_urls: RootUrls::default(),
            follow_robots_exclusion_protocol: FollowRobotsExclusionProtocol::default(),
            hosts: Hosts::default(),
            paths: Paths::default(),
            ports: Ports::default(),
            schemes: Schemes::default(),
        }
    }
}

impl Default for Route {
    /// A route with no seed URLs and no matchers: it admits every URL with
    /// a host, a known port and a supported scheme.
    fn default() -> (r: Self)
        ensures
            r.root_urls.0@ =~= Seq::<RootUrl>::empty(),
            r.follow_robots_exclusion_protocol.value,
            r.hosts.acceptable@ =~= seq![host::Kind::Any],
            r.hosts.unacceptable@ =~= Seq::<host::Kind>::empty(),
            r.paths.acceptable@ =~= seq![path::Kind::Any],
            r.paths.unacceptable@ =~= Seq::<path::Kind>::empty(),
            r.ports.acceptable@ =~= seq![port::Kind::Any],
            r.ports.unacceptable@ =~= Seq::<port::Kind>::empty(),
            r.schemes.acceptable@ =~= seq![scheme::Kind::AnySupported],
            r.schemes.unacceptable@ =~= Seq::<scheme::Kind>::empty(),
    {
        Route::new(
            RootUrls::default(),
            FollowRobotsExclusionProtocol::default(),
            Hosts::default(),
            Paths::default(),
            Ports::default(),
            Schemes::default(),
        )
    }
}

/// A builder that accumulates seed URLs and matchers for a route.
#[derive(Debug)]
pub struct Builder {
    pub root_urls: RootUrls,
    pub follow_robots_exclusion_protocol: FollowRobotsExclusionProtocol,
    pub hosts: Hosts,
    pub paths: Paths,
    pub ports: Ports,
    pub schemes: Schemes,
}

impl Builder {
    /// Add one seed URL.
    pub fn root_url(self, root_url: RootUrl) -> (r: Self)
        ensures
            r.root_urls.0@ == self.root_urls.0@.push(root_url),
            r.follow_robots_exclusion_protocol == self.follow_robots_exclusion_protocol,
            r.hosts == self.hosts,
            r.paths == self.paths,
            r.ports == self.ports,
            r.schemes == self.schemes,
    {
        let ghost u = root_url;
        let ghost before = self.root_urls.0@;
        let mut root_urls = self.root_urls;
        let mut v: Vec<RootUrl> = Vec::new();
        v.push(root_url);
        proof {
            assert(v@ =~= seq![u]);
        }
        root_urls.extend(v);
        proof {
            assert(root_urls.0@ =~= before.push(u));
        }
        Builder { root_urls, ..self }
    }

    /// Choose whether the crawl honors the Robots Exclusion Protocol.
    pub fn follow_robots_exclusion_protocol(
        self,
        follow_robots_exclusion_protocol: FollowRobotsExclusionProtocol,
    ) -> (r: Self)
        ensures
            r.follow_robots_exclusion_protocol == follow_robots_exclusion_protocol,
            r.root_urls == self.root_urls,
            r.hosts == self.hosts,
            r.paths == self.paths,
            r.ports == self.ports,
            r.schemes == self.schemes,
    {
        Builder { follow_robots_exclusion_protocol, ..self }
    }

    /// Add one host matcher.
    pub fn host(self, host: host::Matcher) -> (r: Self)
        ensures
            r.hosts.acceptable@ == if host.permission is Acceptable {
                self.hosts.acceptable@.push(host.kind)
            } else {
                self.hosts.acceptable@
            },
            r.hosts.unacceptable@ == if host.permission is Unacceptable {
                self.hosts.unacceptable@.push(host.kind)
            } else {
                self.hosts.unacceptable@
            },
            r.root_urls == self.root_urls,
            r.follow_robots_exclusion_protocol == self.follow_robots_exclusion_protocol,
            r.paths == self.paths,
            r.ports == self.ports,
            r.schemes == self.schemes,
    {
        let ghost m = host;
        let ghost acc0 = self.hosts.acceptable@;
        let ghost unacc0 = self.hosts.unacceptable@;
        let mut hosts = self.hosts;
        let mut v: Vec<host::Matcher> = Vec::new();
        v.push(host);
        proof {
            assert(v@ =~= seq![m]);
            hosts::lemma_kinds_of_single(m);
        }
        hosts.extend(v);
        proof {
            if m.permission is Acceptable {
                assert(hosts.acceptable@ =~= acc0.push(m.kind));
                assert(hosts.unacceptable@ =~= unacc0);
            } else {
                assert(hosts.acceptable@ =~= acc0);
                assert(hosts.unacceptable@ =~= unacc0.push(m.kind));
            }
        }
        Builder { hosts, ..self }
    }

    /// Add one path matcher.
    pub fn path(self, path: path::Matcher) -> (r: Self)
        ensures
            r.paths.acceptable@ == if path.permission is Acceptable {
                self.paths.acceptable@.push(path.kind)
            } else {
                self.paths.acceptable@
            },
            r.paths.unacceptable@ == if path.permission is Unacceptable {
                self.paths.unacceptable@.push(path.kind)
            } else {
                self.paths.unacceptable@
            },
            r.root_urls == self.root_urls,
            r.follow_robots_exclusion_protocol == self.follow_robots_exclusion_protocol,
            r.hosts == self.hosts,
            r.ports == self.ports,
            r.schemes == self.schemes,
    {
        let ghost m = path;
        let ghost acc0 = self.paths.acceptable@;
        let ghost unacc0 = self.paths.unacceptable@;
        let mut paths = self.paths;
        let mut v: Vec<path::Matcher> = Vec::new();
        v.push(path);
        proof {
            assert(v@ =~= seq![m]);
            paths::lemma_kinds_of_single(m);
        }
        paths.extend(v);
        proof {
            if m.permission is Acceptable {
                assert(paths.acceptable@ =~= acc0.push(m.kind));
                assert(paths.unacceptable@ =~= unacc0);
            } else {
                assert(paths.acceptable@ =~= acc0);
                assert(paths.unacceptable@ =~= unacc0.push(m.kind));
            }
        }
        Builder { paths, ..self }
    }

    /// Add one port matcher.
    pub fn port(self, port: port::Matcher) -> (r: Self)
        ensures
            r.ports.acceptable@ == if port.permission is Acceptable {
                self.ports.acceptable@.push(port.kind)
            } else {
                self.ports.acceptable@
            },
            r.ports.unacceptable@ == if port.permission is Unacceptable {
                self.ports.unacceptable@.push(port.kind)
            } else {
                self.ports.unacceptable@
            },
            r.root_urls == self.root_urls,
            r.follow_robots_exclusion_protocol == self.follow_robots_exclusion_protocol,
            r.hosts == self.hosts,
            r.paths == self.paths,
            r.schemes == self.schemes,
    {
        let ghost m = port;
        let ghost acc0 = self.ports.acceptable@;
        let ghost unacc0 = self.ports.unacceptable@;
        let mut ports = self.ports;
        let mut v: Vec<port::Matcher> = Vec::new();
        v.push(port);
        proof {
            assert(v@ =~= seq![m]);
            ports::lemma_kinds_of_single(m);
        }
        ports.extend(v);
        proof {
            if m.permission is Acceptable {
                assert(ports.acceptable@ =~= acc0.push(m.kind));
                assert(ports.unacceptable@ =~= unacc0);
            } else {
                assert(ports.acceptable@ =~= acc0);
                assert(ports.unacceptable@ =~= unacc0.push(m.kind));
            }
        }
        Builder { ports, ..self }
    }

    /// Add one scheme matcher.
    pub fn scheme(self, scheme: scheme::Matcher) -> (r: Self)
        ensures
            r.schemes.acceptable@ == if scheme.permission is Acceptable {
                self.schemes.acceptable@.push(scheme.kind)
            } else {
                self.schemes.acceptable@
            },
            r.schemes.unacceptable@ == if scheme.permission is Unacceptable {
                self.schemes.unacceptable@.push(scheme.kind)
            } else {
                self.schemes.unacceptable@
            },
            r.root_urls == self.root_urls,
            r.follow_robots_exclusion_protocol == self.follow_robots_exclusion_protocol,
            r.hosts == self.hosts,
            r.paths == self.paths,
            r.ports == self.ports,
    {
        let ghost m = scheme;
        let ghost acc0 = self.schemes.acceptable@;
        let ghost unacc0 = self.schemes.unacceptable@;
        let mut schemes = self.schemes;
        let mut v: Vec<scheme::Matcher> = Vec::new();
        v.push(scheme);
        proof {
            assert(v@ =~= seq![m]);
            schemes::lemma_kinds_of_single(m);
        }
        schemes.extend(v);
        proof {
            if m.permission is Acceptable {
                assert(schemes.acceptable@ =~= acc0.push(m.kind));
                assert(schemes.unacceptable@ =~= unacc0);
            } else {
                assert(schemes.acceptable@ =~= acc0);
                assert(schemes.unacceptable@ =~= unacc0.push(m.kind));
            }
        }
        Builder { schemes, ..self }
    }

    /// Assemble the route, seeding empty acceptable lists with `Any`.
    pub fn build(self) -> (r: Route)
        ensures
            r.root_urls == self.root_urls,
            r.follow_robots_exclusion_protocol == self.follow_robots_exclusion_protocol,
            r.hosts.acceptable@ == if self.hosts.acceptable@.len() == 0 {
                seq![host::Kind::Any]
            } else {
                self.hosts.acceptable@
            },
            r.hosts.unacceptable@ == self.hosts.unacceptable@,
            r.paths.acceptable@ == if self.paths.acceptable@.len() == 0 {
                seq![path::Kind::Any]
            } else {
                self.paths.acceptable@
            },
            r.paths.unacceptable@ == self.paths.unacceptable@,
            r.ports.acceptable@ == if self.ports.acceptable@.len() == 0 {
                seq![port::Kind::Any]
            } else {
                self.ports.acceptable@
            },
            r.ports.unacceptable@ == self.ports.unacceptable@,
            r.schemes.acceptable@ == if self.schemes.acceptable@.len() == 0 {
                seq![scheme::Kind::AnySupported]
            } else {
                self.schemes.acceptable@
            },
            r.schemes.unacceptable@ == self.schemes.unacceptable@,
    {
        Route::new(
            self.root_urls,
            self.follow_robots_exclusion_protocol,
            self.hosts,
            self.paths,
            self.ports,
            self.schemes,
        )
    }
}

} // verus!
