use webcrawler::models::routes::host;
use webcrawler::models::routes::hosts::Hosts;
use webcrawler::models::routes::method;
use webcrawler::models::routes::methods::Methods;
use webcrawler::models::routes::path;
use webcrawler::models::routes::paths::Paths;
use webcrawler::models::routes::permission::Kind as PermissionKind;
use webcrawler::models::routes::port;
use webcrawler::models::routes::ports::Ports;
use webcrawler::models::routes::scheme;
use webcrawler::models::routes::schemes::Schemes;

#[test]
fn host_test_matches() {
    let host = host::Kind::exact("example.com").unwrap();

    assert!(host.matches("example.com"));
    assert!(!host.matches("example.org"));
    assert!(!host.matches("example"));

    let host = host::Kind::glob("*.example.com").unwrap();

    assert!(host.matches("www.example.com"));
    assert!(host.matches("api.example.com"));
    assert!(host.matches(".example.com"));
    assert!(!host.matches("example.com"));
    assert!(!host.matches("example.org"));
    assert!(!host.matches("example"));

    let host = host::Kind::glob("*.example.*").unwrap();

    assert!(host.matches("www.example.com"));
    assert!(host.matches("www.example.org"));
    assert!(host.matches("api.example.com"));
    assert!(host.matches("api.example.org"));
    assert!(host.matches(".example.com"));
    assert!(!host.matches("example.com"));
    assert!(!host.matches("example.org"));
    assert!(!host.matches("example"));

    let host = host::Kind::Any;

    assert!(host.matches("example.com"));
    assert!(host.matches("example.org"));
    assert!(host.matches("example"));

    let host = host::Kind::glob("ex?mple.com").unwrap();

    assert!(host.matches("example.com"));
    assert!(host.matches("exbmple.com"));
    assert!(host.matches("excmple.com"));
    assert!(!host.matches("exmple.com"));
    assert!(!host.matches("example.org"));
    assert!(!host.matches("example"));

    let host = host::Kind::glob("ex[ab]mple.com").unwrap();

    assert!(host.matches("example.com"));
    assert!(host.matches("exbmple.com"));
    assert!(!host.matches("excmple.com"));
    assert!(!host.matches("exmple.com"));
    assert!(!host.matches("example.org"));
    assert!(!host.matches("example"));

    let host = host::Kind::glob("ex[!ab]mple.com").unwrap();

    assert!(!host.matches("example.com"));
    assert!(!host.matches("exbmple.com"));
    assert!(host.matches("excmple.com"));
    assert!(!host.matches("exmple.com"));
    assert!(!host.matches("example.org"));
    assert!(!host.matches("example"));
}

#[test]
fn hosts_test_matches() {
    let hosts = Hosts::new(vec![]);

    assert!(hosts.matches("example.com"));
    assert!(hosts.matches("www.example.com"));
    assert!(hosts.matches("api.example.com"));
    assert!(hosts.matches("www.example.org"));
    assert!(hosts.matches("api.example.org"));
    assert!(hosts.matches("example"));
    assert!(hosts.matches("example.org"));

    let hosts = Hosts::new(vec![
        host::Matcher::new(
            PermissionKind::Acceptable,
            host::Kind::exact("example.com").unwrap(),
        ),
        host::Matcher::new(
            PermissionKind::Acceptable,
            host::Kind::glob("*.example.com").unwrap(),
        ),
    ]);

    assert!(hosts.matches("example.com"));
    assert!(hosts.matches("www.example.com"));
    assert!(hosts.matches("api.example.com"));
    assert!(hosts.matches(".example.com"));
    assert!(!hosts.matches("www.example.org"));
    assert!(!hosts.matches("api.example.org"));
    assert!(!hosts.matches("example"));
    assert!(!hosts.matches("example.org"));

    let hosts = Hosts::new(vec![
        host::Matcher::new(
            PermissionKind::Acceptable,
            host::Kind::exact("example.com").unwrap(),
        ),
        host::Matcher::new(
            PermissionKind::Acceptable,
            host::Kind::glob("*.example.com").unwrap(),
        ),
        host::Matcher::new(
            PermissionKind::Unacceptable,
            host::Kind::exact("api.example.com").unwrap(),
        ),
    ]);

    assert!(hosts.matches("example.com"));
    assert!(hosts.matches("www.example.com"));
    assert!(!hosts.matches("api.example.com"));
    assert!(!hosts.matches("www.example.org"));
    assert!(!hosts.matches("api.example.org"));
    assert!(!hosts.matches("example"));
    assert!(!hosts.matches("example.org"));

    let hosts = Hosts::new(vec![
        host::Matcher::new(
            PermissionKind::Acceptable,
            host::Kind::exact("example.com").unwrap(),
        ),
        host::Matcher::new(
            PermissionKind::Unacceptable,
            host::Kind::glob("*.example.com").unwrap(),
        ),
    ]);

    assert!(hosts.matches("example.com"));
    assert!(!hosts.matches(".example.com"));
    assert!(!hosts.matches("www.example.com"));
    assert!(!hosts.matches("api.example.com"));
    assert!(!hosts.matches("www.example.org"));
    assert!(!hosts.matches("api.example.org"));
    assert!(!hosts.matches("example"));
    assert!(!hosts.matches("example.org"));

    let hosts = Hosts::new(vec![
        host::Matcher::new(
            PermissionKind::Acceptable,
            host::Kind::exact("example.com").unwrap(),
        ),
        host::Matcher::new(
            PermissionKind::Unacceptable,
            host::Kind::glob("example.*").unwrap(),
        ),
    ]);

    assert!(!hosts.matches("example.com"));
    assert!(!hosts.matches("example.com."));
    assert!(!hosts.matches("www.example.com"));
    assert!(!hosts.matches("api.example.com"));
    assert!(!hosts.matches("www.example.org"));
    assert!(!hosts.matches("api.example.org"));
    assert!(!hosts.matches("example"));
    assert!(!hosts.matches("example.org"));
}

#[test]
fn method_test_matches() {
    let method = method::Kind::Get;

    assert!(method.matches("get"));
    assert!(method.matches("GET"));
    assert!(method.matches("GeT"));
    assert!(!method.matches("post"));

    let method = method::Kind::Post;

    assert!(method.matches("post"));
    assert!(method.matches("POST"));
    assert!(method.matches("PoSt"));
    assert!(!method.matches("get"));

    let method = method::Kind::AnySupported;

    assert!(method.matches("get"));
    assert!(method.matches("GET"));
    assert!(method.matches("GeT"));
    assert!(method.matches("post"));
    assert!(method.matches("POST"));
    assert!(method.matches("PoSt"));
    assert!(method.matches("put"));
    assert!(method.matches("patch"));
    assert!(method.matches("delete"));
    assert!(method.matches("head"));
    assert!(method.matches("options"));
}

#[test]
fn methods_test_matches() {
    let methods = Methods::new(vec![]);

    assert!(methods.matches("get"));
    assert!(methods.matches("GET"));
    assert!(methods.matches("post"));
    assert!(methods.matches("POST"));
    assert!(methods.matches("put"));
    assert!(methods.matches("PUT"));
    assert!(methods.matches("patch"));
    assert!(methods.matches("PATCH"));
    assert!(methods.matches("delete"));
    assert!(methods.matches("DELETE"));
    assert!(methods.matches("head"));
    assert!(methods.matches("HEAD"));
    assert!(methods.matches("options"));
    assert!(methods.matches("OPTIONS"));
    assert!(!methods.matches("foo"));
    assert!(!methods.matches("bar"));
    assert!(!methods.matches("baz"));

    let methods = Methods::new(vec![
        method::Matcher::new(PermissionKind::Acceptable, method::Kind::Get),
        method::Matcher::new(PermissionKind::Acceptable, method::Kind::Post),
        method::Matcher::new(PermissionKind::Acceptable, method::Kind::Put),
        method::Matcher::new(PermissionKind::Acceptable, method::Kind::Patch),
        method::Matcher::new(PermissionKind::Acceptable, method::Kind::Delete),
    ]);

    assert!(methods.matches("get"));
    assert!(methods.matches("GET"));
    assert!(methods.matches("post"));
    assert!(methods.matches("POST"));
    assert!(methods.matches("put"));
    assert!(methods.matches("PUT"));
    assert!(methods.matches("patch"));
    assert!(methods.matches("PATCH"));
    assert!(methods.matches("delete"));
    assert!(methods.matches("DELETE"));
    assert!(!methods.matches("head"));
    assert!(!methods.matches("HEAD"));
    assert!(!methods.matches("options"));
    assert!(!methods.matches("OPTIONS"));
    assert!(!methods.matches("foo"));
    assert!(!methods.matches("bar"));
    assert!(!methods.matches("baz"));

    let methods = Methods::new(vec![method::Matcher::new(
        PermissionKind::Acceptable,
        method::Kind::AnySupported,
    )]);

    assert!(methods.matches("get"));
    assert!(methods.matches("GET"));
    assert!(methods.matches("post"));
    assert!(methods.matches("POST"));
    assert!(methods.matches("put"));
    assert!(methods.matches("PUT"));
    assert!(methods.matches("patch"));
    assert!(methods.matches("PATCH"));
    assert!(methods.matches("delete"));
    assert!(methods.matches("DELETE"));
    assert!(methods.matches("head"));
    assert!(methods.matches("HEAD"));
    assert!(methods.matches("options"));
    assert!(methods.matches("OPTIONS"));
    assert!(!methods.matches("foo"));
    assert!(!methods.matches("bar"));
    assert!(!methods.matches("baz"));

    let methods = Methods::new(vec![
        method::Matcher::new(PermissionKind::Acceptable, method::Kind::AnySupported),
        method::Matcher::new(PermissionKind::Unacceptable, method::Kind::Head),
    ]);

    assert!(methods.matches("get"));
    assert!(methods.matches("GET"));
    assert!(methods.matches("post"));
    assert!(methods.matches("POST"));
    assert!(methods.matches("put"));
    assert!(methods.matches("PUT"));
    assert!(methods.matches("patch"));
    assert!(methods.matches("PATCH"));
    assert!(methods.matches("delete"));
    assert!(methods.matches("DELETE"));
    assert!(methods.matches("options"));
    assert!(methods.matches("OPTIONS"));
    assert!(!methods.matches("head"));
    assert!(!methods.matches("HEAD"));
    assert!(!methods.matches("foo"));
    assert!(!methods.matches("bar"));
    assert!(!methods.matches("baz"));
}

#[test]
fn path_test_matches() {
    let path = path::Kind::exact("/foo/bar");

    assert!(path.matches("/foo/bar"));
    assert!(path.matches("/foo/bar/"));
    assert!(!path.matches("/foo"));
    assert!(!path.matches("/foo/"));
    assert!(!path.matches("/foo/bar/baz"));
    assert!(!path.matches("/foo/bar/baz/"));

    let path = path::Kind::glob("/foo/*").unwrap();

    assert!(path.matches("/foo/bar"));
    assert!(path.matches("/foo/bar/"));
    assert!(path.matches("/foo/bar/baz"));
    assert!(path.matches("/foo/bar/baz/"));
    assert!(!path.matches("/foo"));
    assert!(!path.matches("/foo/"));

    let path = path::Kind::glob("/foo/*/baz").unwrap();

    assert!(path.matches("/foo/bar/baz"));
    assert!(path.matches("/foo/bar/baz/"));
    assert!(path.matches("/foo/a/baz"));
    assert!(path.matches("/foo/a/baz/"));
    assert!(!path.matches("/foo/bar"));
    assert!(!path.matches("/foo/bar/"));
    assert!(!path.matches("/foo/bar/bar"));
    assert!(!path.matches("/foo/bar/bar/"));
    assert!(!path.matches("/foo/a/bar"));
    assert!(!path.matches("/foo/a/bar/"));

    let path = path::Kind::glob("/foo/?/baz").unwrap();

    assert!(path.matches("/foo/a/baz"));
    assert!(path.matches("/foo/a/baz/"));
    assert!(path.matches("/foo/b/baz"));
    assert!(path.matches("/foo/b/baz/"));
    assert!(!path.matches("/foo/bar/baz"));
    assert!(!path.matches("/foo/bar/baz/"));
    assert!(!path.matches("/foo/a/bar"));
    assert!(!path.matches("/foo/a/bar/"));
    assert!(!path.matches("/foo/b/bar"));
    assert!(!path.matches("/foo/b/bar/"));

    let path = path::Kind::exact("/");

    assert!(path.matches("/"));
    assert!(!path.matches("/foo"));
    assert!(!path.matches("/foo/"));

    let path = path::Kind::exact("");

    assert!(path.matches(""));
    assert!(!path.matches("/"));
    assert!(!path.matches("/foo"));
    assert!(!path.matches("/foo/"));
}

#[test]
fn paths_test_matches() {
    let paths = Paths::new(vec![]);

    assert!(paths.matches(""));
    assert!(paths.matches("/"));
    assert!(paths.matches("/foo/bar"));
    assert!(paths.matches("/foo/bar/"));
    assert!(paths.matches("/foo/bar/baz"));
    assert!(paths.matches("/foo/bar/baz/"));
    assert!(paths.matches("/foo"));
    assert!(paths.matches("/foo/"));
    assert!(paths.matches("/foo/bar/baz"));
    assert!(paths.matches("/foo/bar/baz/"));

    let paths = Paths::new(vec![
        path::Matcher::new(PermissionKind::Acceptable, path::Kind::exact("/foo/bar")),
        path::Matcher::new(
            PermissionKind::Acceptable,
            path::Kind::glob("/foo/bar/*").unwrap(),
        ),
        path::Matcher::new(
            PermissionKind::Acceptable,
            path::Kind::glob("/foo/*/baz").unwrap(),
        ),
    ]);

    assert!(paths.matches("/foo/bar"));
    assert!(paths.matches("/foo/bar/"));
    assert!(paths.matches("/foo/bar/baz"));
    assert!(paths.matches("/foo/bar/baz/"));
    assert!(paths.matches("/foo/a/baz"));
    assert!(paths.matches("/foo/a/baz/"));
    assert!(paths.matches("/foo/b/baz"));
    assert!(paths.matches("/foo/b/baz/"));
    assert!(!paths.matches("/foo"));
    assert!(!paths.matches("/foo/"));
    assert!(!paths.matches("/foot/bar/bar"));
    assert!(!paths.matches("/foot/bar/bar/"));
    assert!(!paths.matches("/foo/a/bar"));
    assert!(!paths.matches("/foo/a/bar/"));

    let paths = Paths::new(vec![
        path::Matcher::new(PermissionKind::Acceptable, path::Kind::exact("/foo/bar")),
        path::Matcher::new(
            PermissionKind::Acceptable,
            path::Kind::glob("/foo/bar/*").unwrap(),
        ),
        path::Matcher::new(
            PermissionKind::Unacceptable,
            path::Kind::glob("/foo/*/baz").unwrap(),
        ),
    ]);

    assert!(paths.matches("/foo/bar"));
    assert!(paths.matches("/foo/bar/"));
    assert!(paths.matches("/foo/bar/a"));
    assert!(paths.matches("/foo/bar/a/"));
    assert!(!paths.matches("/foo/bar/baz"));
    assert!(!paths.matches("/foo/bar/baz/"));
    assert!(!paths.matches("/foo/a/baz"));
    assert!(!paths.matches("/foo/a/baz/"));
    assert!(!paths.matches("/foo/b/baz"));
    assert!(!paths.matches("/foo/b/baz/"));
    assert!(!paths.matches("/foo"));
    assert!(!paths.matches("/foo/"));
    assert!(!paths.matches("/foot/bar/bar"));
    assert!(!paths.matches("/foot/bar/bar/"));
    assert!(!paths.matches("/foo/a/bar"));
    assert!(!paths.matches("/foo/a/bar/"));

    let paths = Paths::new(vec![path::Matcher::new(
        PermissionKind::Acceptable,
        path::Kind::glob("/*/bar").unwrap(),
    )]);

    assert!(paths.matches("/foo/bar"));
    assert!(paths.matches("/foo/bar/"));
    assert!(paths.matches("/bar/bar"));
    assert!(paths.matches("/bar/bar/"));
    assert!(!paths.matches("/foo"));
    assert!(!paths.matches("/foo/"));
    assert!(!paths.matches("/foo/bar/baz"));
    assert!(!paths.matches("/foo/bar/baz/"));
    assert!(!paths.matches("foo/bar"));
    assert!(!paths.matches("foo/bar/"));
    assert!(!paths.matches("/bar"));
    assert!(!paths.matches("/bar/"));

    let paths = Paths::new(vec![path::Matcher::new(
        PermissionKind::Acceptable,
        path::Kind::glob("/*/bar/*").unwrap(),
    )]);

    assert!(paths.matches("/foo/bar/baz"));
    assert!(paths.matches("/foo/bar/baz/"));
    assert!(paths.matches("/bar/bar/baz"));
    assert!(paths.matches("/bar/bar/baz/"));
    assert!(!paths.matches("/foo"));
    assert!(!paths.matches("/foo/"));
    assert!(!paths.matches("/foo/bar"));
    assert!(!paths.matches("/foo/bar/"));
    assert!(!paths.matches("/bar"));
    assert!(!paths.matches("/bar/"));
}

#[test]
fn port_test_matches() {
    let port = port::Kind::exact(80);

    assert!(port.matches(80));
    assert!(port.matches_str("80"));
    assert!(!port.matches(8080));
    assert!(!port.matches_str("8080"));

    let port = port::Kind::exact_str("80").unwrap();

    assert!(port.matches(80));
    assert!(port.matches_str("80"));
    assert!(!port.matches(8080));
    assert!(!port.matches_str("8080"));

    let port = port::Kind::glob("8?8?").unwrap();

    assert!(port.matches(8080));
    assert!(port.matches_str("8080"));
    assert!(port.matches(8181));
    assert!(port.matches_str("8181"));
    assert!(!port.matches(80));
    assert!(!port.matches_str("80"));
    assert!(!port.matches(8071));
    assert!(!port.matches_str("8071"));

    let port = port::Kind::glob("1*1*").unwrap();

    assert!(port.matches(1010));
    assert!(port.matches_str("1010"));
    assert!(port.matches(1111));
    assert!(port.matches_str("1111"));
    assert!(port.matches(10010));
    assert!(port.matches_str("10010"));
    assert!(!port.matches(80));
    assert!(!port.matches_str("80"));

    let port = port::Kind::glob("80*").unwrap();

    assert!(port.matches(8080));
    assert!(port.matches_str("8080"));
    assert!(port.matches(8081));
    assert!(port.matches_str("8081"));
    assert!(port.matches(80));
    assert!(port.matches_str("80"));
    assert!(port.matches(808));
    assert!(port.matches_str("808"));
    assert!(!port.matches(11));
    assert!(!port.matches_str("11"));
}

#[test]
fn ports_test_matches() {
    let ports = Ports::new(vec![]);

    assert!(ports.matches(80));
    assert!(ports.matches_str("80"));
    assert!(ports.matches(8080));
    assert!(ports.matches_str("8080"));

    let ports = Ports::new(vec![
        port::Matcher::new(PermissionKind::Acceptable, port::Kind::exact(80)),
        port::Matcher::new(PermissionKind::Acceptable, port::Kind::glob("8?8?").unwrap()),
        port::Matcher::new(PermissionKind::Unacceptable, port::Kind::exact(8080)),
    ]);

    assert!(ports.matches(80));
    assert!(ports.matches_str("80"));
    assert!(ports.matches(8081));
    assert!(ports.matches_str("8081"));
    assert!(ports.matches(8180));
    assert!(ports.matches_str("8180"));
    assert!(!ports.matches(8071));
    assert!(!ports.matches_str("8071"));
    assert!(!ports.matches(8080));
    assert!(!ports.matches_str("8080"));

    let ports = Ports::new(vec![
        port::Matcher::new(PermissionKind::Acceptable, port::Kind::exact(80)),
        port::Matcher::new(PermissionKind::Acceptable, port::Kind::glob("8?8?").unwrap()),
        port::Matcher::new(PermissionKind::Unacceptable, port::Kind::exact(8080)),
        port::Matcher::new(PermissionKind::Unacceptable, port::Kind::exact(80)),
    ]);

    assert!(ports.matches(8081));
    assert!(ports.matches_str("8081"));
    assert!(ports.matches(8180));
    assert!(ports.matches_str("8180"));
    assert!(!ports.matches(80));
    assert!(!ports.matches_str("80"));
    assert!(!ports.matches(8071));
    assert!(!ports.matches_str("8071"));
    assert!(!ports.matches(8080));
    assert!(!ports.matches_str("8080"));
}

#[test]
fn scheme_test_matches() {
    let scheme = scheme::Kind::Http;

    assert!(scheme.matches("http"));
    assert!(scheme.matches("HTTP"));
    assert!(scheme.matches("HtTP"));
    assert!(!scheme.matches("https"));
    assert!(!scheme.matches("HTTPS"));
    assert!(!scheme.matches("HtTPs"));

    let scheme = scheme::Kind::Https;

    assert!(scheme.matches("https"));
    assert!(scheme.matches("HTTPS"));
    assert!(scheme.matches("HtTPs"));
    assert!(!scheme.matches("http"));
    assert!(!scheme.matches("HTTP"));
    assert!(!scheme.matches("HtTP"));

    let scheme = scheme::Kind::AnySupported;

    assert!(scheme.matches("http"));
    assert!(scheme.matches("HTTP"));
    assert!(scheme.matches("HtTP"));
    assert!(scheme.matches("https"));
    assert!(scheme.matches("HTTPS"));
    assert!(scheme.matches("HtTPs"));
    assert!(!scheme.matches("ftp"));
    assert!(!scheme.matches("FTP"));
    assert!(!scheme.matches("FtP"));
    assert!(!scheme.matches("qwe"));
    assert!(!scheme.matches("QWE"));
    assert!(!scheme.matches("QwE"));
}

#[test]
fn schemes_test_matches() {
    let schemes = Schemes::new(vec![]);

    assert!(schemes.matches("http"));
    assert!(schemes.matches("HTTP"));
    assert!(schemes.matches("HtTP"));
    assert!(schemes.matches("https"));
    assert!(schemes.matches("HTTPS"));
    assert!(schemes.matches("HtTPS"));
    assert!(!schemes.matches("ftp"));
    assert!(!schemes.matches("FTP"));
    assert!(!schemes.matches("FtP"));
    assert!(!schemes.matches("qwe"));
    assert!(!schemes.matches("QWE"));
    assert!(!schemes.matches("QwE"));

    let schemes = Schemes::new(vec![
        scheme::Matcher::new(PermissionKind::Acceptable, scheme::Kind::Http),
        scheme::Matcher::new(PermissionKind::Acceptable, scheme::Kind::Https),
    ]);

    assert!(schemes.matches("http"));
    assert!(schemes.matches("HTTP"));
    assert!(schemes.matches("HtTP"));
    assert!(schemes.matches("https"));
    assert!(schemes.matches("HTTPS"));
    assert!(schemes.matches("HtTPS"));
    assert!(!schemes.matches("ftp"));
    assert!(!schemes.matches("FTP"));
    assert!(!schemes.matches("FtP"));
    assert!(!schemes.matches("qwe"));
    assert!(!schemes.matches("QWE"));
    assert!(!schemes.matches("QwE"));

    let schemes = Schemes::new(vec![
        scheme::Matcher::new(PermissionKind::Acceptable, scheme::Kind::Http),
        scheme::Matcher::new(PermissionKind::Unacceptable, scheme::Kind::Https),
    ]);

    assert!(schemes.matches("http"));
    assert!(schemes.matches("HTTP"));
    assert!(schemes.matches("HtTP"));
    assert!(!schemes.matches("https"));
    assert!(!schemes.matches("HTTPS"));
    assert!(!schemes.matches("HtTPs"));
    assert!(!schemes.matches("ftp"));
    assert!(!schemes.matches("FTP"));
    assert!(!schemes.matches("FtP"));
    assert!(!schemes.matches("qwe"));
    assert!(!schemes.matches("QWE"));
    assert!(!schemes.matches("QwE"));
}
