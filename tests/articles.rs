use feed_reader::article::{aggregate, dedup_by_link, eq_ignore_ascii_case, sort_by_date, Article};
use feed_reader::records::{FeedItemRecord, FeedRecord};

fn feed(id: i32, name: &str) -> FeedRecord {
    FeedRecord {
        id,
        url: format!("https://{}.example/", name),
        feed_url: format!("https://{}.example/feed", name),
        name: name.to_string(),
        create_date: 0,
        update_date: 0,
    }
}

fn item(id: i32, channel_id: i32, title: &str, url: Option<&str>, date: Option<&str>) -> FeedItemRecord {
    FeedItemRecord {
        id,
        channel_id,
        title: Some(title.to_string()),
        url: url.map(|u| u.to_string()),
        description: None,
        author: None,
        pub_date: date.map(|d| d.to_string()),
        create_date: 0,
        update_date: 0,
    }
}

fn article(title: &str, link: Option<&str>, date: Option<i64>) -> Article {
    Article {
        title: Some(title.to_string()),
        link: link.map(|l| l.to_string()),
        description: None,
        author: None,
        pub_date: date,
        channel_title: "c".to_string(),
        channel_link: "https://c.example/".to_string(),
    }
}

fn titles(articles: &[Article]) -> Vec<String> {
    articles.iter().map(|a| a.title.clone().unwrap()).collect()
}

#[test]
fn aggregate_sorts_newest_first_and_undated_last() {
    let feeds = vec![feed(1, "one")];
    let items = vec![
        item(1, 1, "C", Some("https://one.example/c"), None),
        item(2, 1, "B", Some("https://one.example/b"), Some("Mon, 01 Jan 2024 00:00:00 +0000")),
        item(3, 1, "A", Some("https://one.example/a"), Some("Tue, 02 Jan 2024 00:00:00 +0000")),
    ];
    let out = aggregate(&feeds, &items);
    assert_eq!(titles(&out), vec!["A", "B", "C"]);
    assert_eq!(out[0].pub_date, Some(1704153600));
    assert_eq!(out[1].pub_date, Some(1704067200));
    assert_eq!(out[2].pub_date, None);
    assert_eq!(out[0].channel_title, "one");
    assert_eq!(out[0].channel_link, "https://one.example/");
}

#[test]
fn aggregate_treats_unparsable_date_as_undated() {
    let feeds = vec![feed(1, "one")];
    let items = vec![
        item(1, 1, "bad", Some("https://one.example/x"), Some("yesterday")),
        item(2, 1, "good", Some("https://one.example/y"), Some("Mon, 01 Jan 2024 00:00:00 +0000")),
    ];
    let out = aggregate(&feeds, &items);
    assert_eq!(titles(&out), vec!["good", "bad"]);
    assert_eq!(out[1].pub_date, None);
}

#[test]
fn aggregate_drops_items_without_stored_feed() {
    let feeds = vec![feed(1, "one"), feed(2, "two")];
    let items = vec![
        item(1, 2, "kept", Some("https://two.example/k"), None),
        item(2, 9, "orphan", Some("https://gone.example/o"), None),
    ];
    let out = aggregate(&feeds, &items);
    assert_eq!(titles(&out), vec!["kept"]);
    assert_eq!(out[0].channel_title, "two");
}

#[test]
fn aggregate_merges_case_variant_links() {
    let feeds = vec![feed(1, "one"), feed(2, "two")];
    let items = vec![
        item(1, 1, "first", Some("http://x.com/a"), Some("Mon, 01 Jan 2024 00:00:00 +0000")),
        item(2, 2, "second", Some("HTTP://X.COM/A"), Some("Mon, 01 Jan 2024 00:00:00 +0000")),
    ];
    let out = aggregate(&feeds, &items);
    assert_eq!(titles(&out), vec!["first"]);
}

#[test]
fn sort_keeps_load_order_for_equal_dates() {
    let input = vec![
        article("u1", None, None),
        article("d1", None, Some(5)),
        article("u2", None, None),
        article("d2", None, Some(5)),
        article("n", None, Some(9)),
    ];
    let out = sort_by_date(input);
    assert_eq!(titles(&out), vec!["n", "d1", "d2", "u1", "u2"]);
}

#[test]
fn sort_of_empty_list_is_empty() {
    assert!(sort_by_date(Vec::new()).is_empty());
}

#[test]
fn dedup_treats_case_variants_as_duplicates() {
    let input = vec![article("a", Some("http://x.com/a"), None), article("b", Some("HTTP://X.COM/A"), None)];
    let out = dedup_by_link(&input);
    assert_eq!(titles(&out), vec!["a"]);
}

#[test]
fn dedup_never_drops_linkless_articles() {
    let input = vec![
        article("n1", None, None),
        article("n1", None, None),
        article("l", Some("http://x.com/a"), None),
        article("n2", None, None),
    ];
    let out = dedup_by_link(&input);
    assert_eq!(titles(&out), vec!["n1", "n1", "l", "n2"]);
}

#[test]
fn dedup_only_merges_neighbours() {
    let input = vec![
        article("a", Some("http://x.com/a"), None),
        article("b", Some("http://x.com/b"), None),
        article("a2", Some("http://x.com/A"), None),
    ];
    let out = dedup_by_link(&input);
    assert_eq!(titles(&out), vec!["a", "b", "a2"]);
}

#[test]
fn ascii_case_comparison() {
    assert!(eq_ignore_ascii_case("http://X.com/A", "HTTP://x.COM/a"));
    assert!(!eq_ignore_ascii_case("http://x.com/a", "http://x.com/b"));
    assert!(!eq_ignore_ascii_case("abc", "abcd"));
    assert!(eq_ignore_ascii_case("", ""));
    assert!(!eq_ignore_ascii_case("é", "É"));
}

#[test]
fn aggregate_keeps_every_linkless_item() {
    let feeds = vec![feed(1, "one")];
    let items = vec![
        item(1, 1, "n1", None, None),
        item(2, 1, "l", Some("https://one.example/l"), None),
        item(3, 1, "n2", None, Some("Mon, 01 Jan 2024 00:00:00 +0000")),
        item(4, 1, "n1", None, None),
        item(5, 1, "L", Some("HTTPS://ONE.EXAMPLE/L"), None),
    ];
    let out = aggregate(&feeds, &items);
    assert_eq!(titles(&out), vec!["n2", "n1", "l", "n1", "L"]);
    assert_eq!(out.iter().filter(|a| a.link.is_none()).count(), 3);
}
