use webcrawler::models::route::Route;
use webcrawler::models::routes::follow_robots_exclusion_protocol::FollowRobotsExclusionProtocol;
use webcrawler::models::routes::host;
use webcrawler::models::routes::path;
use webcrawler::models::routes::permission::Kind as PermissionKind;
use webcrawler::models::routes::port;
use webcrawler::models::routes::root_url::RootUrl;
use webcrawler::models::routes::scheme;
use webcrawler::urls::UrlParts;
use webcrawler::validation::route::validate_url;

#[test]
fn test_route_builder() {
    let route = Route::builder()
        .root_url(RootUrl::new("https://example.com").unwrap())
        .follow_robots_exclusion_protocol(FollowRobotsExclusionProtocol::new(false))
        .host(host::Matcher::new(
            PermissionKind::Acceptable,
            host::Kind::exact("example.com").unwrap(),
        ))
        .path(path::Matcher::new(
            PermissionKind::Acceptable,
            path::Kind::exact("/"),
        ))
        .port(port::Matcher::new(
            PermissionKind::Acceptable,
            port::Kind::exact(80),
        ))
        .scheme(scheme::Matcher::new(
            PermissionKind::Acceptable,
            scheme::Kind::Http,
        ))
        .build();

    assert_eq!(route.root_urls.len(), 1);
    assert_eq!(
        route.root_urls.0[0],
        RootUrl::new("https://example.com").unwrap()
    );

    assert_eq!(
        route.follow_robots_exclusion_protocol,
        FollowRobotsExclusionProtocol::new(false)
    );

    assert_eq!(route.hosts.acceptable.len(), 1);
    assert_eq!(
        route.hosts.acceptable[0],
        host::Kind::exact("example.com").unwrap()
    );

    assert_eq!(route.paths.acceptable.len(), 1);
    assert_eq!(route.paths.acceptable[0], path::Kind::exact("/"));

    assert_eq!(route.ports.acceptable.len(), 1);
    assert_eq!(route.ports.acceptable[0], port::Kind::exact(80));

    assert_eq!(route.schemes.acceptable.len(), 1);
    assert_eq!(route.schemes.acceptable[0], scheme::Kind::Http);

    let route = Route::builder().build();

    assert_eq!(route.hosts.acceptable.len(), 1);
    assert_eq!(route.hosts.acceptable[0], host::Kind::Any);

    assert_eq!(route.paths.acceptable.len(), 1);
    assert_eq!(route.paths.acceptable[0], path::Kind::Any);

    assert_eq!(route.ports.acceptable.len(), 1);
    assert_eq!(route.ports.acceptable[0], port::Kind::Any);

    assert_eq!(route.schemes.acceptable.len(), 1);
    assert_eq!(route.schemes.acceptable[0], scheme::Kind::AnySupported);

    let route = Route::builder()
        .host(host::Matcher::new(
            PermissionKind::Acceptable,
            host::Kind::exact("example.com").unwrap(),
        ))
        .host(host::Matcher::new(
            PermissionKind::Unacceptable,
            host::Kind::exact("example2.org").unwrap(),
        ))
        .build();

    assert_eq!(route.hosts.acceptable.len(), 1);
    assert_eq!(route.hosts.unacceptable.len(), 1);
    assert_eq!(
        route.hosts.acceptable[0],
        host::Kind::exact("example.com").unwrap()
    );
    assert_eq!(
        route.hosts.unacceptable[0],
        host::Kind::exact("example2.org").unwrap()
    );
}

#[test]
fn test_validate_url() {
    let route = Route::default();

    let url = UrlParts::parse("http://localhost:8080/").unwrap();

    assert!(validate_url(&url, &route));

    let url = UrlParts::parse("http://localhost/").unwrap();

    assert!(validate_url(&url, &route));

    let url = UrlParts::parse("test://localhost/").unwrap();

    assert!(!validate_url(&url, &route));

    let url = UrlParts::parse("unix:/run/foo.socket").unwrap();

    assert!(!validate_url(&url, &route));

    let url = UrlParts::parse("http://localhost:8080/foo").unwrap();

    assert!(validate_url(&url, &route));
}

// A route with nothing configured admits every http or https URL with a
// host, and rejects unsupported schemes and URLs without a host.
#[test]
fn default_route_admits_everything_supported() {
    let route = Route::default();

    let admitted = [
        "http://localhost/",
        "http://localhost:8080/x",
        "https://a.b/path/",
    ];
    for url in admitted {
        let parts = UrlParts::parse(url).unwrap();
        assert!(validate_url(&parts, &route));
    }

    let rejected = ["test://localhost/", "unix:/run/foo.socket"];
    for url in rejected {
        let parts = UrlParts::parse(url).unwrap();
        assert!(!validate_url(&parts, &route));
    }
}

// A host accept-list with an exact entry and a glob entry.
#[test]
fn host_accept_list_with_glob() {
    let route = Route::builder()
        .host(host::Matcher::new(
            PermissionKind::Acceptable,
            host::Kind::exact("example.com").unwrap(),
        ))
        .host(host::Matcher::new(
            PermissionKind::Acceptable,
            host::Kind::glob("*.example.com").unwrap(),
        ))
        .build();

    assert!(route.host_matches("example.com"));
    assert!(route.host_matches("www.example.com"));
    assert!(route.host_matches("api.example.com"));
    assert!(!route.host_matches("example.org"));
    assert!(!route.host_matches("example"));
}

// An unacceptable entry overrides the accept list.
#[test]
fn unacceptable_overrides_acceptable() {
    let route = Route::builder()
        .host(host::Matcher::new(
            PermissionKind::Acceptable,
            host::Kind::exact("example.com").unwrap(),
        ))
        .host(host::Matcher::new(
            PermissionKind::Acceptable,
            host::Kind::glob("*.example.com").unwrap(),
        ))
        .host(host::Matcher::new(
            PermissionKind::Unacceptable,
            host::Kind::exact("api.example.com").unwrap(),
        ))
        .build();

    assert!(route.host_matches("example.com"));
    assert!(route.host_matches("www.example.com"));
    assert!(!route.host_matches("api.example.com"));
}

// A port glob matches the decimal string form of the port.
#[test]
fn port_glob_on_numeric_string() {
    let route = Route::builder()
        .port(port::Matcher::new(
            PermissionKind::Acceptable,
            port::Kind::glob("80*").unwrap(),
        ))
        .build();

    assert!(route.port_matches(80));
    assert!(route.port_matches(808));
    assert!(route.port_matches(8080));
    assert!(route.port_matches(8081));
    assert!(!route.port_matches(11));
}

// Path matching strips one trailing slash before comparing.
#[test]
fn path_trailing_slash_normalization() {
    let route = Route::builder()
        .path(path::Matcher::new(
            PermissionKind::Acceptable,
            path::Kind::exact("/foo/bar"),
        ))
        .build();

    assert!(route.path_matches("/foo/bar"));
    assert!(route.path_matches("/foo/bar/"));
    assert!(!route.path_matches("/foo/bar/baz"));
}

// Ports at both ends of the range are representable as exact matchers and
// match their own decimal string form.
#[test]
fn port_bounds_match_own_string() {
    let low = port::Kind::exact(0);
    assert!(low.matches(0));
    assert!(low.matches_str("0"));
    assert!(!low.matches_str("1"));

    let high = port::Kind::exact(65535);
    assert!(high.matches(65535));
    assert!(high.matches_str("65535"));
    assert!(!high.matches_str("65534"));

    assert_eq!(port::Kind::exact_str("0").unwrap(), port::Kind::exact(0));
    assert_eq!(
        port::Kind::exact_str("65535").unwrap(),
        port::Kind::exact(65535)
    );
    assert!(port::Kind::exact_str("65536").is_err());
}

// An exact host built from an IPv4 literal matches the dotted-quad string
// form, not the 32-bit integer form.
#[test]
fn ipv4_exact_host_matches_dotted_quad() {
    let host = host::Kind::exact("127.0.0.1").unwrap();

    assert!(host.matches("127.0.0.1"));
    assert!(!host.matches("2130706433"));
}

// Host parsing normalizes letter case, so an exact matcher built from an
// uppercased host still matches the lowercase string form.
#[test]
fn exact_host_is_normalized() {
    let host = host::Kind::exact("EXAMPLE.com").unwrap();

    assert!(host.matches("example.com"));
    assert!(!host.matches("EXAMPLE.com"));
}

// The glob `*` matches the empty string; the glob `?` does not.
#[test]
fn star_matches_empty_question_does_not() {
    let star = webcrawler::globs::Pattern::new("*").unwrap();
    assert!(star.matches(""));

    let question = webcrawler::globs::Pattern::new("?").unwrap();
    assert!(!question.matches(""));

    assert!(webcrawler::globs::Pattern::new("[").is_err());
    assert!(webcrawler::globs::Pattern::new("[]").is_err());
    assert!(webcrawler::globs::Pattern::new("[a-c]").unwrap().matches("b"));
}

// URL parsing hands back normalized parts: the scheme and host come out
// lowercased and the default port is filled in.
#[test]
fn url_parts_are_normalized() {
    let parts = UrlParts::parse("HTTP://EXAMPLE.COM/A").unwrap();

    assert_eq!(parts.scheme, "http");
    assert_eq!(parts.host.as_deref(), Some("example.com"));
    assert_eq!(parts.port, Some(80));
    assert_eq!(parts.path, "/A");

    assert!(UrlParts::parse("not a url").is_err());
}

// The same URL is judged the same way on repeated calls.
#[test]
fn validate_url_is_pure() {
    let route = Route::default();
    let url = UrlParts::parse("https://example.com/x").unwrap();

    let first = validate_url(&url, &route);
    let second = validate_url(&url, &route);

    assert_eq!(first, second);
    assert!(first);
}
