use webcrawler::crawl::filter_roots;
use webcrawler::crawlers::urls::get_page_urls;
use webcrawler::machine_config::{merge_blacklist, should_blacklist_url};
use webcrawler::models::polling::time::Time;
use webcrawler::models::polling::Polling as PollingRules;
use webcrawler::models::route::Route;
use webcrawler::models::routes::root_url::RootUrl;
use webcrawler::parser::robots_txt::get_robot_rules;
use webcrawler::parser::urls::get_urls_from_hrefs;
use webcrawler::parser::{concat_url_with_href, filter_hrefs, get_url, value_in_blacklist};
use webcrawler::polling::{
    CrawlWithParentUrlErrorKind, ErrorKind, Polling, SiblingAction, MAX_PAGE_URLS,
};
use webcrawler::urls::UrlParts;
use webcrawler::validation::robots_rules::validate_robots_rules;

fn hrefs_of(html: &str) -> Vec<String> {
    let dom = tl::parse(html, tl::ParserOptions::default()).unwrap();
    let parser = dom.parser();
    let mut hrefs: Vec<String> = Vec::new();
    for node in dom.query_selector("a[href]").unwrap() {
        if let Some(n) = node.get(parser) {
            if let Some(tag) = n.as_tag() {
                if let Some(Some(value)) = tag.attributes().get("href") {
                    hrefs.push(value.as_utf8_str().to_string());
                }
            }
        }
    }
    hrefs
}

const PAGE: &str = r#"
    <html>
        <body>
            <a href="https://example1.com">hello</a>
            <a href="https://example2.com">hello2</a>
            <a href="https://example3.com">hello3</a>
            <a href="hdata:text/plain,Stuff">hello4</a>
            <a href="example5.com">hello5</a>
            <a href="test://example6.com">hello6</a>
            <a>hello5</a>
            <link href="https://example.com" />
        </body>
    </html>"#;

#[test]
fn test_get_urls_from_dom() {
    let hrefs = hrefs_of(PAGE);

    let urls = get_urls_from_hrefs(&hrefs);

    let expected = [
        url::Url::parse("https://example1.com").unwrap(),
        url::Url::parse("https://example2.com").unwrap(),
        url::Url::parse("https://example3.com").unwrap(),
    ];
    assert_eq!(urls.len(), expected.len());
    for (got, want) in urls.iter().zip(expected.iter()) {
        assert_eq!(got.text, want.as_str());
    }
}

#[test]
fn test_get_page_urls() {
    let hrefs = hrefs_of(PAGE);

    let rules = webcrawler::models::rules::Rules::new(Route::default(), PollingRules::default());

    let urls = get_page_urls(&hrefs, &rules.route);

    let expected = [
        url::Url::parse("https://example1.com").unwrap(),
        url::Url::parse("https://example2.com").unwrap(),
        url::Url::parse("https://example3.com").unwrap(),
    ];
    assert_eq!(urls.len(), expected.len());
    for (got, want) in urls.iter().zip(expected.iter()) {
        assert_eq!(got.text, want.as_str());
    }
}

// A scheduler without seed URLs refuses to run.
#[test]
fn empty_roots_refuse_to_run() {
    let polling = Polling::new(Route::default(), PollingRules::default());

    assert!(matches!(
        polling.check_root_urls(),
        Err(ErrorKind::RootUrlsEmpty)
    ));
    assert!(polling.get_random_root_url().is_none());

    let mut route = Route::default();
    route
        .root_urls
        .extend(vec![RootUrl::new("https://example.com").unwrap()]);
    let polling = Polling::new(route, PollingRules::default());

    assert!(polling.check_root_urls().is_ok());
    assert!(polling.get_random_root_url().is_some());
}

// The depth gate lets the root through and stops at the cap.
#[test]
fn depth_gate() {
    let rules = PollingRules::new(
        webcrawler::models::polling::depth::Depth::new(true, 2),
        None,
        webcrawler::models::polling::redirections::Redirections::new(true, 5),
        Time::new(0, 0, 1000),
        None,
    );
    let polling = Polling::new(Route::default(), rules);

    assert!(polling.check_depth(0).is_ok());
    assert!(polling.check_depth(1).is_ok());
    assert!(matches!(
        polling.check_depth(2),
        Err(CrawlWithParentUrlErrorKind::DepthLimitReached)
    ));
    assert!(polling.depth_matches(1));
    assert!(!polling.depth_matches(2));
}

// No page contributes more than the cap, the kept links are the first that
// many, and a page with fewer than two links is a leaf.
#[test]
fn page_url_selection() {
    let polling = Polling::new(Route::default(), PollingRules::default());

    let mut many: Vec<UrlParts> = Vec::new();
    for i in 0..150 {
        let url = format!("https://example.com/{}", i);
        many.push(UrlParts::parse(&url).unwrap());
    }
    let first_hundred: Vec<String> = many[..MAX_PAGE_URLS]
        .iter()
        .map(|u| u.text.clone())
        .collect();

    let selected = polling.select_page_urls(many).unwrap();
    assert_eq!(selected.len(), MAX_PAGE_URLS);
    let mut got: Vec<String> = selected.iter().map(|u| u.text.clone()).collect();
    let mut want = first_hundred;
    got.sort();
    want.sort();
    assert_eq!(got, want);

    let one = vec![UrlParts::parse("https://example.com/").unwrap()];
    assert!(matches!(
        polling.select_page_urls(one),
        Err(CrawlWithParentUrlErrorKind::NoUrlsFound)
    ));
    assert!(matches!(
        polling.select_page_urls(Vec::new()),
        Err(CrawlWithParentUrlErrorKind::NoUrlsFound)
    ));
}

// A successful child and a child stopped by the depth cap both end the
// sibling loop; other failures move to the next sibling.
#[test]
fn sibling_actions() {
    assert_eq!(Polling::sibling_action(&Ok(())), SiblingAction::Stop);
    assert_eq!(
        Polling::sibling_action(&Err(CrawlWithParentUrlErrorKind::DepthLimitReached)),
        SiblingAction::Stop
    );
    assert_eq!(
        Polling::sibling_action(&Err(CrawlWithParentUrlErrorKind::NoUrlsFound)),
        SiblingAction::Next
    );
    assert_eq!(
        Polling::sibling_action(&Err(CrawlWithParentUrlErrorKind::Crawl(
            webcrawler::crawlers::urls::CrawlFailed::Transport("timed out".to_owned())
        ))),
        SiblingAction::Next
    );
}

// Every drawn sleep lies within the configured range.
#[test]
fn sleep_stays_in_range() {
    let time = Time::new(5, 9, 1000);
    for _ in 0..200 {
        let drawn = time.get_random_sleep_between_requests();
        assert!((5..=9).contains(&drawn));
    }
    let fixed = Time::new(42, 42, 1000);
    assert_eq!(fixed.get_random_sleep_between_requests(), 42);
}

// The robots table honors its rules for the configured user agent, with
// `*` as the fallback.
#[test]
fn robots_rules() {
    let raw = "User-agent: *\nDisallow: /private/\n";
    let robot = get_robot_rules(None::<&str>, raw).unwrap();

    assert!(!validate_robots_rules(
        "https://example.com/private/x",
        &robot
    ));
    assert!(validate_robots_rules("https://example.com/public", &robot));

    let named = get_robot_rules(Some("crawler"), raw).unwrap();
    assert!(!validate_robots_rules(
        "https://example.com/private/x",
        &named
    ));
}

// Joining a site-relative reference onto its page keeps the protocol and
// the authority.
#[test]
fn join_reference_onto_page() {
    assert_eq!(
        concat_url_with_href("http://example.com", "/foo"),
        "http://example.com/foo"
    );
    assert_eq!(
        concat_url_with_href("https://example.com/bar/baz", "/foo"),
        "https://example.com/foo"
    );

    assert_eq!(
        get_url("https://example.com/bar", "/foo", &vec![]),
        Some("https://example.com/foo".to_owned())
    );
    assert_eq!(
        get_url("https://example.com/bar", "https://other.org/x", &vec![]),
        Some("https://other.org/x".to_owned())
    );
    assert_eq!(
        get_url(
            "https://example.com/bar",
            "/foo",
            &vec!["https://example.com/".to_owned()]
        ),
        None
    );
}

// Prefix blacklists cover values that start with an entry.
#[test]
fn blacklist_prefixes() {
    let blacklist = vec!["https://bad.example".to_owned()];

    assert!(value_in_blacklist("https://bad.example/page", &blacklist));
    assert!(value_in_blacklist("https://bad.example", &blacklist));
    assert!(!value_in_blacklist("https://good.example/", &blacklist));

    let roots = vec![
        "https://bad.example/a".to_owned(),
        "https://good.example/b".to_owned(),
    ];
    let kept = filter_roots(roots, &blacklist);
    assert_eq!(kept, vec!["https://good.example/b".to_owned()]);
}

// The href sieve keeps typed links whose type is allowed and plain
// candidates outside the blacklist, and drops bare domains.
#[test]
fn href_sieve() {
    let hrefs = vec![
        "https://example.com/a.html".to_owned(),
        "https://example.com".to_owned(),
        "/page".to_owned(),
        "nope".to_owned(),
        "/x.pdf".to_owned(),
    ];
    let blacklist_hrefs: Vec<String> = vec![];
    let blacklist_types = vec!["pdf".to_owned()];

    let kept = filter_hrefs(hrefs, &blacklist_hrefs, &blacklist_types);

    assert_eq!(
        kept,
        vec![
            "https://example.com/a.html".to_owned(),
            "/page".to_owned(),
        ]
    );
}

// Merging appends only entries the list does not already hold.
#[test]
fn blacklist_merge() {
    let mut save = vec!["a".to_owned()];
    let urls = vec![
        "b".to_owned(),
        "a".to_owned(),
        "b".to_owned(),
        "c".to_owned(),
    ];

    merge_blacklist(&mut save, &urls);

    assert_eq!(save, vec!["a".to_owned(), "b".to_owned(), "c".to_owned()]);
}

// A fetch outcome earns the URL a blacklist entry exactly as the decision
// rule says.
#[test]
fn blacklist_decisions() {
    assert!(!should_blacklist_url(Some(200), None, false));
    assert!(should_blacklist_url(Some(404), None, false));
    assert!(should_blacklist_url(Some(500), None, false));
    assert!(!should_blacklist_url(None, Some(500), false));
    assert!(!should_blacklist_url(None, Some(301), false));
    assert!(!should_blacklist_url(None, None, true));
    assert!(should_blacklist_url(None, None, false));
}
