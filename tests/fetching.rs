use feed_reader::error::SyncError;
use feed_reader::fetch::{fallback_url, text_ends_with, FetchEvent, FetchSession, FetchStep};

const RSS: &str = "<?xml version=\"1.0\"?><rss version=\"2.0\"><channel><title>Example</title>\
<link>https://example.tumblr.com/</link><description>d</description>\
<item><title>One</title><link>https://example.tumblr.com/post/1</link>\
<pubDate>Mon, 01 Jan 2024 00:00:00 +0000</pubDate></item>\
<item><title>Two</title></item></channel></rss>";

fn body(s: &str) -> FetchEvent {
    FetchEvent::Body(s.as_bytes().to_vec())
}

#[test]
fn fallback_discovery_on_tumblr() {
    let mut s = FetchSession::start("https://example.tumblr.com/").unwrap();
    assert_eq!(s.current_url(), "https://example.tumblr.com/");
    let step = s.on_event(body("<html><body>not a feed</body></html>"));
    assert_eq!(step, FetchStep::Get("https://example.tumblr.com/rss".to_string()));
    match s.on_event(body(RSS)) {
        FetchStep::Found(doc) => {
            assert_eq!(doc.title, "Example");
            assert_eq!(doc.link, "https://example.tumblr.com/");
            assert_eq!(doc.items.len(), 2);
            assert_eq!(doc.items[0].title.as_deref(), Some("One"));
            assert_eq!(doc.items[0].pub_date.as_deref(), Some("Mon, 01 Jan 2024 00:00:00 +0000"));
            assert_eq!(doc.items[1].link, None);
        }
        other => panic!("unexpected step {:?}", other),
    }
    assert!(s.finished);
    assert_eq!(s.current_url(), "https://example.tumblr.com/rss");
}

#[test]
fn feed_found_at_first_address() {
    let mut s = FetchSession::start("https://example.com/feed.xml").unwrap();
    match s.on_event(body(RSS)) {
        FetchStep::Found(doc) => assert_eq!(doc.title, "Example"),
        other => panic!("unexpected step {:?}", other),
    }
    assert_eq!(s.current_url(), "https://example.com/feed.xml");
}

#[test]
fn no_feed_after_fallback_fails() {
    let mut s = FetchSession::start("https://example.com").unwrap();
    assert_eq!(s.current_url(), "https://example.com/");
    assert_eq!(s.on_event(body("nope")), FetchStep::Get("https://example.com/feed".to_string()));
    assert_eq!(s.on_event(body("still nope")), FetchStep::NotFound);
    assert!(s.finished);
}

#[test]
fn failures_are_retried_with_growing_waits() {
    let mut s = FetchSession::start("https://example.com/rss").unwrap();
    let url = "https://example.com/rss".to_string();
    assert_eq!(s.on_event(FetchEvent::Failed), FetchStep::Retry { delay_ms: 100, url: url.clone() });
    assert_eq!(s.on_event(FetchEvent::Failed), FetchStep::Retry { delay_ms: 250, url: url.clone() });
    assert_eq!(s.on_event(FetchEvent::Failed), FetchStep::GiveUp { delay_ms: 500 });
    assert!(s.finished);
}

#[test]
fn at_most_three_requests_per_address() {
    let mut s = FetchSession::start("https://example.com/").unwrap();
    let mut requests = 1;
    loop {
        match s.on_event(FetchEvent::Failed) {
            FetchStep::Retry { .. } | FetchStep::Get(_) => requests += 1,
            FetchStep::NotFound | FetchStep::GiveUp { .. } => break,
            FetchStep::Found(_) => panic!("no body was given"),
        }
    }
    assert_eq!(requests, 3);
}

#[test]
fn rejected_response_moves_to_fallback() {
    let mut s = FetchSession::start("https://example.tumblr.com/").unwrap();
    assert_eq!(s.on_event(FetchEvent::Rejected), FetchStep::Get("https://example.tumblr.com/rss".to_string()));
    assert_eq!(s.on_event(FetchEvent::Rejected), FetchStep::NotFound);
    assert!(s.finished);
}

#[test]
fn retry_then_success() {
    let mut s = FetchSession::start("https://example.com/rss").unwrap();
    assert!(matches!(s.on_event(FetchEvent::Failed), FetchStep::Retry { delay_ms: 100, .. }));
    assert!(matches!(s.on_event(body(RSS)), FetchStep::Found(_)));
}

#[test]
fn malformed_url_is_refused() {
    assert_eq!(FetchSession::start("not a url").err(), Some(SyncError::InvalidUrl));
    assert_eq!(FetchSession::start("").err(), Some(SyncError::InvalidUrl));
    assert_eq!(FetchSession::start("/relative/path").err(), Some(SyncError::InvalidUrl));
}

#[test]
fn fallback_paths_by_host() {
    assert_eq!(fallback_url("https://example.tumblr.com/").as_deref(), Some("https://example.tumblr.com/rss"));
    assert_eq!(
        fallback_url("https://me.blogspot.com/").as_deref(),
        Some("https://me.blogspot.com/feeds/posts/default")
    );
    assert_eq!(fallback_url("https://site.org/blog").as_deref(), Some("https://site.org/blog/feed"));
    assert_eq!(fallback_url("https://x.com/?a=1").as_deref(), Some("https://x.com/feed?a=1"));
    assert_eq!(fallback_url("https://x.com/blog/#top").as_deref(), Some("https://x.com/blog/feed#top"));
    assert_eq!(fallback_url("mailto:someone@example.com"), None);
    assert_eq!(fallback_url("garbage"), None);
}

#[test]
fn suffix_check() {
    assert!(text_ends_with("example.tumblr.com", "tumblr.com"));
    assert!(!text_ends_with("tumblr.co", "tumblr.com"));
    assert!(text_ends_with("abc", ""));
}
