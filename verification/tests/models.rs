use webcrawler::models::polling::depth::Depth;
use webcrawler::models::polling::proxies::Proxies;
use webcrawler::models::polling::proxy::Proxy;
use webcrawler::models::polling::redirections::Redirections;
use webcrawler::models::polling::user_agent::UserAgent;
use webcrawler::models::polling::user_agents::UserAgents;
use webcrawler::models::polling::Polling;
use webcrawler::models::routes::follow_robots_exclusion_protocol::FollowRobotsExclusionProtocol;
use webcrawler::models::routes::root_url::RootUrl;
use webcrawler::models::routes::root_urls::RootUrls;

// The depth cap is the configured maximum only while depth is acceptable,
// and a depth matches exactly when it lies below the cap.
#[test]
fn depth_caps() {
    let depth = Depth::new_acceptable(3);
    assert!(depth.acceptable());
    assert_eq!(depth.max_depth(), 3);
    assert!(depth.matches(0));
    assert!(depth.matches(2));
    assert!(!depth.matches(3));
    assert!(!depth.matches(4));

    let depth = Depth::new_unacceptable();
    assert!(!depth.acceptable());
    assert_eq!(depth.max_depth(), 0);
    assert!(!depth.matches(0));

    let depth = Depth::new(false, 9);
    assert_eq!(depth.max_depth(), 0);
    assert!(!depth.matches(1));

    assert_eq!(Depth::default(), Depth::new(true, 7));
}

// The redirect cap follows the same switch.
#[test]
fn redirection_caps() {
    let redirections = Redirections::new(true, 4);
    assert!(redirections.acceptable());
    assert_eq!(redirections.max_redirects(), 4);

    let redirections = Redirections::new(false, 4);
    assert!(!redirections.acceptable());
    assert_eq!(redirections.max_redirects(), 0);

    assert_eq!(Redirections::default(), Redirections::new(true, 5));
}

// Collections keep insertion order when extended, and a random pick comes
// from the collection.
#[test]
fn collections_extend_and_pick() {
    let mut agents = UserAgents::new(vec![UserAgent::new("one".to_owned())]);
    agents.extend(vec![
        UserAgent::new("two".to_owned()),
        UserAgent::new("three".to_owned()),
    ]);
    assert_eq!(
        agents.0,
        vec![
            UserAgent::new("one".to_owned()),
            UserAgent::new("two".to_owned()),
            UserAgent::new("three".to_owned()),
        ]
    );
    let picked = agents.get_random().unwrap();
    assert!(agents.0.contains(picked));
    assert!(UserAgents::default().get_random().is_none());

    let mut proxies = Proxies::default();
    proxies.extend(vec![Proxy::new("http://proxy.example/".to_owned())]);
    assert_eq!(proxies.0.len(), 1);

    let mut roots = RootUrls::default();
    assert!(roots.is_empty());
    assert!(roots.get_random().is_none());
    roots.extend(vec![
        RootUrl::new("https://example.com").unwrap(),
        RootUrl::new("https://example.org").unwrap(),
    ]);
    assert_eq!(roots.len(), 2);
    assert!(!roots.is_empty());
    let picked = roots.get_random().unwrap();
    assert!(roots.0.contains(picked));
}

// The polling builder carries every part through to the built value.
#[test]
fn polling_builder_carries_parts() {
    let polling = Polling::builder()
        .depth(Depth::new_acceptable(2))
        .redirections(Redirections::new(true, 1))
        .time(webcrawler::models::polling::time::Time::new(1, 2, 3))
        .user_agent(Some(UserAgent::new("bot".to_owned())))
        .proxy(Some(Proxy::new("http://proxy.example/".to_owned())))
        .build();

    assert_eq!(polling.depth, Depth::new_acceptable(2));
    assert_eq!(polling.redirections, Redirections::new(true, 1));
    assert_eq!(polling.time.min_sleep_between_requests, 1);
    assert_eq!(polling.time.max_sleep_between_requests, 2);
    assert_eq!(polling.time.request_timeout, 3);
    assert_eq!(polling.user_agent, Some(UserAgent::new("bot".to_owned())));
    assert_eq!(
        polling.proxy,
        Some(Proxy::new("http://proxy.example/".to_owned()))
    );

    assert!(polling.depth_matches(1));
    assert!(!polling.depth_matches(2));

    let follow = FollowRobotsExclusionProtocol::default();
    assert!(follow.value);
    assert_eq!(FollowRobotsExclusionProtocol::new(false).value, false);
}
