use aura::net::{cache_file_name, cache_is_fresh, intercept, intercept_checked, InterceptDecision, NetState};
use aura::weburl::WebUrl;

fn url(s: &str) -> WebUrl {
    WebUrl::parse(s).unwrap()
}

fn rules() -> NetState {
    NetState::from_lists(&vec!["! comment\n||ads.example.com^\n".to_string(), "||tracker.test^".to_string()])
}

#[test]
fn plain_http_is_upgraded() {
    let d = intercept(None, &url("http://example.com/a"), &url("http://example.com/"), "main_frame");
    match d {
        InterceptDecision::Redirect(u) => assert_eq!(u.as_str(), "https://example.com/a"),
        other => panic!("{:?}", other),
    }
}

#[test]
fn upgrade_rewrites_every_plain_http() {
    let d = intercept(
        None,
        &url("http://example.com/?next=http://other.test/"),
        &url("https://example.com/"),
        "main_frame",
    );
    match d {
        InterceptDecision::Redirect(u) => {
            assert_eq!(u.as_str(), "https://example.com/?next=https://other.test/")
        }
        other => panic!("{:?}", other),
    }
}

#[test]
fn blocking_comes_before_upgrade() {
    let state = rules();
    let d = intercept(Some(&state), &url("http://ads.example.com/x.js"), &url("https://news.test/"), "script");
    match d {
        InterceptDecision::Block { reason } => assert_eq!(reason, "adblock_matched"),
        other => panic!("{:?}", other),
    }
    let d = intercept(Some(&state), &url("http://news.test/story"), &url("https://news.test/"), "main_frame");
    match d {
        InterceptDecision::Redirect(u) => assert_eq!(u.as_str(), "https://news.test/story"),
        other => panic!("{:?}", other),
    }
}

#[test]
fn comment_lines_block_nothing() {
    let state = NetState::from_lists(&vec!["! ||news.test^\n\n[Adblock Plus 2.0]".to_string()]);
    let d = intercept(Some(&state), &url("https://news.test/story"), &url("https://news.test/"), "main_frame");
    assert!(matches!(d, InterceptDecision::Allow(_)));
}

#[test]
fn filters_block_matching_requests() {
    let state = rules();
    let d = intercept(Some(&state), &url("https://ads.example.com/banner.js"), &url("https://news.test/"), "script");
    match d {
        InterceptDecision::Block { reason } => assert_eq!(reason, "adblock_matched"),
        other => panic!("{:?}", other),
    }
    let d = intercept(Some(&state), &url("https://tracker.test/p.gif"), &url("https://news.test/"), "image");
    assert!(matches!(d, InterceptDecision::Block { .. }));
}

#[test]
fn other_requests_are_allowed() {
    let state = rules();
    let d = intercept(Some(&state), &url("https://news.test/story"), &url("https://news.test/"), "main_frame");
    match d {
        InterceptDecision::Allow(u) => assert_eq!(u.as_str(), "https://news.test/story"),
        other => panic!("{:?}", other),
    }
    let d = intercept(None, &url("https://ads.example.com/banner.js"), &url("https://news.test/"), "script");
    assert!(matches!(d, InterceptDecision::Allow(_)));
}

#[test]
fn hostless_request_cannot_be_checked() {
    let state = rules();
    assert!(intercept_checked(Some(&state), &url("data:text/plain,hi"), &url("https://news.test/"), "other").is_none());
    assert!(matches!(
        intercept_checked(None, &url("data:text/plain,hi"), &url("https://news.test/"), "other"),
        Some(InterceptDecision::Allow(_))
    ));
}

#[test]
fn filter_cache_names_and_freshness() {
    assert_eq!(
        cache_file_name("https://easylist.to/easylist/easylist.txt"),
        "d830652ca9effb01098cac7485cc98820432c4174970389c190cc36ada100f82"
    );
    assert!(cache_is_fresh(Some(0)));
    assert!(cache_is_fresh(Some(86_399)));
    assert!(!cache_is_fresh(Some(86_400)));
    assert!(!cache_is_fresh(None));
}

#[test]
fn url_parts() {
    let u = url("HTTPS://Example.COM");
    assert_eq!(u.as_str(), "https://example.com/");
    assert_eq!(u.scheme(), "https");
    assert!(WebUrl::parse("not a url").is_none());
    let q = WebUrl::parse_with_param("https://duckduckgo.com/", "q", "a b&c").unwrap();
    assert_eq!(q.as_str(), "https://duckduckgo.com/?q=a+b%26c");
    assert_eq!(q.duplicate().as_str(), q.as_str());
}
