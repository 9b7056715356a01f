use webcrawler::config::parser::{
    parse_polling_from_toml, parse_route_from_toml, parse_rules_from_toml, ParsePollingErrorKind,
    ParseRouteErrorKind,
};
use webcrawler::models::routes::{host, path, port, scheme};

#[test]
fn test_parse_route_from_toml() {
    let raw = r#"
        [routes]

        [[routes.root_urls]]
        value = "https://example.com"

        [[routes.root_urls]]
        value = "https://example2.com"

        [[routes.hosts.acceptable]]

        [[routes.hosts.acceptable]]
        exact = "example.com"

        [[routes.hosts.acceptable]]
        glob = "example*.com"

        [[routes.hosts.unacceptable]]
        exact = "127.0.0.1"

        [[routes.schemes.acceptable]]
        exact = "https"

        [[routes.schemes.acceptable]]

        [[routes.schemes.acceptable]]
        exact = "http"

        [[routes.schemes.unacceptable]]
        exact = "http"

        [[routes.ports.acceptable]]
        exact = "8080"

        [[routes.ports.acceptable]]
        exact = 80

        [[routes.ports.acceptable]]
        glob = "80*"

        [[routes.ports.unacceptable]]

        [[routes.paths.acceptable]]
        exact = "/example/"

        [[routes.paths.acceptable]]
        glob = "/example2/*"

        [[routes.paths.unacceptable]]
        glob = "/admin/*"

        [[routes.paths.unacceptable]]
    "#;

    let route = parse_route_from_toml(raw).unwrap();

    assert_eq!(route.root_urls.len(), 2);
    assert_eq!(
        route.root_urls.0.first().unwrap().value.text,
        url::Url::parse("https://example.com").unwrap().as_str()
    );
    assert_eq!(
        route.root_urls.0.last().unwrap().value.text,
        url::Url::parse("https://example2.com").unwrap().as_str()
    );

    assert_eq!(route.hosts.acceptable.len(), 2);
    assert_eq!(
        route.hosts.acceptable[0],
        host::Kind::exact("example.com").unwrap()
    );
    assert_eq!(
        route.hosts.acceptable[1],
        host::Kind::glob("example*.com").unwrap()
    );
    assert_eq!(route.hosts.unacceptable.len(), 1);
    assert_eq!(
        route.hosts.unacceptable[0],
        host::Kind::exact("127.0.0.1").unwrap()
    );

    assert_eq!(route.schemes.acceptable.len(), 2);
    assert_eq!(route.schemes.acceptable[0], scheme::Kind::Https);
    assert_eq!(route.schemes.acceptable[1], scheme::Kind::Http);
    assert_eq!(route.schemes.unacceptable.len(), 1);
    assert_eq!(route.schemes.unacceptable[0], scheme::Kind::Http);

    assert_eq!(route.ports.acceptable.len(), 3);
    assert_eq!(route.ports.acceptable[0], port::Kind::Exact(8080));
    assert_eq!(route.ports.acceptable[1], port::Kind::Exact(80));
    assert_eq!(route.ports.acceptable[2], port::Kind::glob("80*").unwrap());
    assert_eq!(route.ports.unacceptable.len(), 0);

    assert_eq!(route.paths.acceptable.len(), 2);
    assert_eq!(
        route.paths.acceptable[0],
        path::Kind::Exact("/example/".to_owned())
    );
    assert_eq!(
        route.paths.acceptable[1],
        path::Kind::glob("/example2/*").unwrap()
    );
    assert_eq!(route.paths.unacceptable.len(), 1);
    assert_eq!(
        route.paths.unacceptable[0],
        path::Kind::glob("/admin/*").unwrap()
    );
}

#[test]
fn test_parse_polling_from_toml() {
    let raw = r#"
        [polling]

        [polling.redirections]
        acceptable = true
        max_redirects = 10

        [polling.depth]
        acceptable = true
        max_depth = 10

        [polling.time]
        min_sleep_between_requests = 1000
        max_sleep_between_requests = 10000
        request_timeout = 1000

        [polling.user_agent]
        value = "Mozilla/5.0 (compatible; Googlebot/2.1; +http://www.google.com/bot.html)"

        [polling.proxy]
        value = "http://"
    "#;

    let polling = parse_polling_from_toml(raw).unwrap();

    assert_eq!(polling.redirections.acceptable(), true);
    assert_eq!(polling.redirections.max_redirects(), 10);

    assert_eq!(polling.depth.acceptable(), true);
    assert_eq!(polling.depth.max_depth(), 10);

    assert_eq!(polling.time.min_sleep_between_requests, 1000);
    assert_eq!(polling.time.max_sleep_between_requests, 10000);
    assert_eq!(polling.time.request_timeout, 1000);

    assert!(polling.user_agent.is_some());
    assert_eq!(
        polling.user_agent.unwrap().value,
        "Mozilla/5.0 (compatible; Googlebot/2.1; +http://www.google.com/bot.html)"
    );

    assert!(polling.proxy.is_some());
    assert_eq!(polling.proxy.unwrap().value, "http://");
}

// Parsing the same document twice yields rule sets that decide alike.
#[test]
fn parsing_is_deterministic() {
    let raw = r#"
        [routes]

        [[routes.hosts.acceptable]]
        glob = "*.example.com"

        [[routes.paths.unacceptable]]
        glob = "/admin/*"
    "#;

    let one = parse_route_from_toml(raw).unwrap();
    let two = parse_route_from_toml(raw).unwrap();

    let urls = [
        "https://www.example.com/",
        "https://www.example.com/admin/x",
        "https://example.org/",
        "http://api.example.com/a/b",
    ];
    for u in urls {
        let parts = webcrawler::urls::UrlParts::parse(u).unwrap();
        assert_eq!(
            webcrawler::validation::route::validate_url(&parts, &one),
            webcrawler::validation::route::validate_url(&parts, &two),
        );
    }
}

// Each fault in a route document is reported as the error for that fault.
#[test]
fn route_parse_errors() {
    assert!(matches!(
        parse_route_from_toml("= not toml"),
        Err(ParseRouteErrorKind::ParseToml(_))
    ));
    assert!(matches!(
        parse_route_from_toml("[other]"),
        Err(ParseRouteErrorKind::RoutesNotFound(_))
    ));
    assert!(matches!(
        parse_route_from_toml("routes = 3"),
        Err(ParseRouteErrorKind::RoutesMustBeTable(_))
    ));
    assert!(matches!(
        parse_route_from_toml("[routes]\nroot_urls = 3"),
        Err(ParseRouteErrorKind::RootUrlsMustBeArray(_))
    ));
    assert!(matches!(
        parse_route_from_toml("[routes]\n[[routes.root_urls]]\nvalue = 3"),
        Err(ParseRouteErrorKind::RootUrlValueMustBeString(_))
    ));
    assert!(matches!(
        parse_route_from_toml("[routes]\n[[routes.root_urls]]\nvalue = \"no scheme\""),
        Err(ParseRouteErrorKind::RootUrlParseError(_))
    ));
    assert!(matches!(
        parse_route_from_toml("[routes.hosts]\nacceptable = 3"),
        Err(ParseRouteErrorKind::HostsMustBeArray(_))
    ));
    assert!(matches!(
        parse_route_from_toml("[routes]\n[[routes.hosts.acceptable]]\nexact = 3"),
        Err(ParseRouteErrorKind::HostExactMustBeString(_))
    ));
    assert!(matches!(
        parse_route_from_toml("[routes]\n[[routes.hosts.acceptable]]\nglob = 3"),
        Err(ParseRouteErrorKind::HostGlobMustBeString(_))
    ));
    assert!(matches!(
        parse_route_from_toml("[routes]\n[[routes.hosts.acceptable]]\nglob = \"[\""),
        Err(ParseRouteErrorKind::HostGlobPattern(_))
    ));
    assert!(matches!(
        parse_route_from_toml("[routes]\n[[routes.hosts.acceptable]]\nexact = \"\""),
        Err(ParseRouteErrorKind::HostParseError(_))
    ));
    assert!(matches!(
        parse_route_from_toml("[routes.schemes]\nacceptable = 3"),
        Err(ParseRouteErrorKind::SchemesMustBeArray(_))
    ));
    assert!(matches!(
        parse_route_from_toml("[routes]\n[[routes.schemes.acceptable]]\nexact = 3"),
        Err(ParseRouteErrorKind::SchemeExactMustBeString(_))
    ));
    assert!(matches!(
        parse_route_from_toml("[routes]\n[[routes.schemes.acceptable]]\nexact = \"ftp\""),
        Err(ParseRouteErrorKind::UnsupportedScheme(_))
    ));
    assert!(matches!(
        parse_route_from_toml("[routes.ports]\nacceptable = 3"),
        Err(ParseRouteErrorKind::PortsMustBeArray(_))
    ));
    assert!(matches!(
        parse_route_from_toml("[routes]\n[[routes.ports.acceptable]]\nglob = 3"),
        Err(ParseRouteErrorKind::PortGlobMustBeString(_))
    ));
    assert!(matches!(
        parse_route_from_toml("[routes]\n[[routes.ports.acceptable]]\nglob = \"[\""),
        Err(ParseRouteErrorKind::PortGlobPattern(_))
    ));
    assert!(matches!(
        parse_route_from_toml("[routes]\n[[routes.ports.acceptable]]\nexact = \"no\""),
        Err(ParseRouteErrorKind::PortExactParseError(_))
    ));
    assert!(matches!(
        parse_route_from_toml("[routes]\n[[routes.ports.acceptable]]\nexact = 65536"),
        Err(ParseRouteErrorKind::PortExactMustBeStringOrInt(_))
    ));
    assert!(matches!(
        parse_route_from_toml("[routes]\n[[routes.ports.acceptable]]\nexact = true"),
        Err(ParseRouteErrorKind::PortExactMustBeStringOrInt(_))
    ));
    assert!(matches!(
        parse_route_from_toml("[routes.paths]\nacceptable = 3"),
        Err(ParseRouteErrorKind::PathsMustBeArray(_))
    ));
    assert!(matches!(
        parse_route_from_toml("[routes]\n[[routes.paths.acceptable]]\nglob = \"[\""),
        Err(ParseRouteErrorKind::PathGlobPattern(_))
    ));
    assert!(matches!(
        parse_route_from_toml("[routes]\n[[routes.paths.acceptable]]\nglob = 3"),
        Err(ParseRouteErrorKind::PathGlobMustBeString(_))
    ));
    assert!(matches!(
        parse_route_from_toml("[routes]\n[[routes.paths.acceptable]]\nexact = 3"),
        Err(ParseRouteErrorKind::PathExactMustBeString(_))
    ));
}

// Each fault in a polling document is reported as the error for that fault.
#[test]
fn polling_parse_errors() {
    assert!(matches!(
        parse_polling_from_toml("= not toml"),
        Err(ParsePollingErrorKind::ParseToml(_))
    ));
    assert!(matches!(
        parse_polling_from_toml("[other]"),
        Err(ParsePollingErrorKind::PollingNotFound(_))
    ));
    assert!(matches!(
        parse_polling_from_toml("polling = 3"),
        Err(ParsePollingErrorKind::PollingMustBeTable(_))
    ));
    assert!(matches!(
        parse_polling_from_toml("[polling.redirections]\nmax_redirects = 1"),
        Err(ParsePollingErrorKind::RedirectionsAcceptableNotFound(_))
    ));
    assert!(matches!(
        parse_polling_from_toml("[polling.redirections]\nacceptable = 3\nmax_redirects = 1"),
        Err(ParsePollingErrorKind::RedirectionsAcceptableMustBeBool(_))
    ));
    assert!(matches!(
        parse_polling_from_toml("[polling.redirections]\nacceptable = true"),
        Err(ParsePollingErrorKind::RedirectionsMaxRedirectsNotFound(_))
    ));
    assert!(matches!(
        parse_polling_from_toml("[polling.redirections]\nacceptable = true\nmax_redirects = -1"),
        Err(ParsePollingErrorKind::RedirectionsMaxRedirectsMustBeStringOrInt(_))
    ));
    assert!(matches!(
        parse_polling_from_toml("[polling.depth]\nmax_depth = 1"),
        Err(ParsePollingErrorKind::DepthAcceptableNotFound(_))
    ));
    assert!(matches!(
        parse_polling_from_toml("[polling.depth]\nacceptable = \"yes\"\nmax_depth = 1"),
        Err(ParsePollingErrorKind::DepthAcceptableMustBeBool(_))
    ));
    assert!(matches!(
        parse_polling_from_toml("[polling.depth]\nacceptable = true"),
        Err(ParsePollingErrorKind::DepthMaxRedirectsNotFound(_))
    ));
    assert!(matches!(
        parse_polling_from_toml("[polling.depth]\nacceptable = true\nmax_depth = \"x\""),
        Err(ParsePollingErrorKind::DepthMaxDepthMustBeStringOrInt(_))
    ));
    assert!(matches!(
        parse_polling_from_toml(
            "[polling.time]\nmax_sleep_between_requests = 1\nrequest_timeout = 1"
        ),
        Err(ParsePollingErrorKind::MinSleepBetweenRequestsNotFound(_))
    ));
    assert!(matches!(
        parse_polling_from_toml(
            "[polling.time]\nmin_sleep_between_requests = true\nmax_sleep_between_requests = 1\nrequest_timeout = 1"
        ),
        Err(ParsePollingErrorKind::MinSleepBetweenRequestsMustBeStringOrInt(_))
    ));
    assert!(matches!(
        parse_polling_from_toml(
            "[polling.time]\nmin_sleep_between_requests = 1\nrequest_timeout = 1"
        ),
        Err(ParsePollingErrorKind::MaxSleepBetweenRequestsNotFound(_))
    ));
    assert!(matches!(
        parse_polling_from_toml(
            "[polling.time]\nmin_sleep_between_requests = 1\nmax_sleep_between_requests = -2\nrequest_timeout = 1"
        ),
        Err(ParsePollingErrorKind::MaxSleepBetweenRequestsMustBeStringOrInt(_))
    ));
    assert!(matches!(
        parse_polling_from_toml(
            "[polling.time]\nmin_sleep_between_requests = 1\nmax_sleep_between_requests = 2"
        ),
        Err(ParsePollingErrorKind::RequestTimeoutNotFound(_))
    ));
    assert!(matches!(
        parse_polling_from_toml(
            "[polling.time]\nmin_sleep_between_requests = 1\nmax_sleep_between_requests = 2\nrequest_timeout = []"
        ),
        Err(ParsePollingErrorKind::RequestTimeoutMustBeStringOrInt(_))
    ));
    assert!(matches!(
        parse_polling_from_toml("[polling.user_agent]\nvalue = 3"),
        Err(ParsePollingErrorKind::UserAgentValueMustBeString(_))
    ));
    assert!(matches!(
        parse_polling_from_toml("[polling.proxy]\nvalue = 3"),
        Err(ParsePollingErrorKind::ProxyValueMustBeString(_))
    ));
}

// Absent polling sections keep their defaults, and numbers may come as
// digit strings.
#[test]
fn polling_defaults_and_digit_strings() {
    let polling = parse_polling_from_toml("[polling]").unwrap();

    assert_eq!(polling.depth.acceptable(), true);
    assert_eq!(polling.depth.max_depth(), 7);
    assert_eq!(polling.redirections.acceptable(), true);
    assert_eq!(polling.redirections.max_redirects(), 5);
    assert_eq!(polling.time.min_sleep_between_requests, 3000);
    assert_eq!(polling.time.max_sleep_between_requests, 60000);
    assert_eq!(polling.time.request_timeout, 7000);
    assert!(polling.user_agent.is_none());
    assert!(polling.proxy.is_none());

    let polling = parse_polling_from_toml(
        "[polling.depth]\nacceptable = false\nmax_depth = \"10\"",
    )
    .unwrap();

    assert_eq!(polling.depth.acceptable(), false);
    assert_eq!(polling.depth.max_depth(), 0);
    assert!(!polling.depth.matches(0));
    assert!(!polling.depth.matches(1));
}

// The two documents of a rule set parse together.
#[test]
fn rules_parse_together() {
    let rules = parse_rules_from_toml(
        "[routes]\n[[routes.root_urls]]\nvalue = \"https://example.com\"",
        "[polling.depth]\nacceptable = true\nmax_depth = 3",
    )
    .unwrap();

    assert_eq!(rules.route.root_urls.len(), 1);
    assert_eq!(rules.polling.depth.max_depth(), 3);
    assert!(rules.polling.depth.matches(2));
    assert!(!rules.polling.depth.matches(3));
}
