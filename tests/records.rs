use feed_reader::channel::{new_feed_record, normalize, ChannelDoc, ChannelItem};
use feed_reader::records::{feed_names, FeedRecord, StringTime, EARLIEST_TIME, LATEST_TIME};

#[test]
fn string_time_writes_rfc2822() {
    let t = StringTime::from_timestamp(0);
    assert_eq!(t.0, "Thu, 1 Jan 1970 00:00:00 +0000");
    assert_eq!(t.to_timestamp(), Some(0));
}

#[test]
fn string_time_round_trips_at_the_bounds() {
    assert_eq!(StringTime::from_timestamp(EARLIEST_TIME).to_timestamp(), Some(EARLIEST_TIME));
    assert_eq!(StringTime::from_timestamp(LATEST_TIME).to_timestamp(), Some(LATEST_TIME));
}

#[test]
fn string_time_reads_offsets() {
    let t = StringTime("Tue, 02 Jan 2024 02:00:00 +0200".to_string());
    assert_eq!(t.to_timestamp(), Some(1704153600));
    assert_eq!(StringTime("not a date".to_string()).to_timestamp(), None);
}

fn item(title: Option<&str>, link: Option<&str>) -> ChannelItem {
    ChannelItem {
        title: title.map(|s| s.to_string()),
        link: link.map(|s| s.to_string()),
        description: Some("d".to_string()),
        author: None,
        pub_date: Some("Mon, 01 Jan 2024 00:00:00 +0000".to_string()),
    }
}

#[test]
fn normalize_maps_each_item_with_one_timestamp() {
    let items = vec![item(Some("a"), Some("https://x/a")), item(None, None)];
    let out = normalize(7, &items, 1000);
    assert_eq!(out.len(), 2);
    assert_eq!(out[0].channel_id, 7);
    assert_eq!(out[0].title.as_deref(), Some("a"));
    assert_eq!(out[0].url.as_deref(), Some("https://x/a"));
    assert_eq!(out[0].description.as_deref(), Some("d"));
    assert_eq!(out[0].pub_date.as_deref(), Some("Mon, 01 Jan 2024 00:00:00 +0000"));
    assert_eq!(out[1].title, None);
    assert_eq!(out[1].url, None);
    assert!(out.iter().all(|r| r.create_date == 1000 && r.update_date == 1000));
}

#[test]
fn normalize_of_no_items_is_empty() {
    assert!(normalize(1, &Vec::new(), 5).is_empty());
}

#[test]
fn new_feed_record_uses_channel_title() {
    let doc = ChannelDoc { title: "Ars".to_string(), link: "https://ars/".to_string(), items: Vec::new() };
    let r = new_feed_record("https://ars/", "https://ars/feed", &doc, 42);
    assert_eq!(r.url, "https://ars/");
    assert_eq!(r.feed_url, "https://ars/feed");
    assert_eq!(r.name, "Ars");
    assert_eq!((r.create_date, r.update_date), (42, 42));
}

#[test]
fn feed_names_lists_ids_and_names() {
    let feeds = vec![
        FeedRecord { id: 3, url: "u".to_string(), feed_url: "f".to_string(), name: "A".to_string(), create_date: 0, update_date: 0 },
        FeedRecord { id: 5, url: "v".to_string(), feed_url: "g".to_string(), name: "B".to_string(), create_date: 0, update_date: 0 },
    ];
    let names = feed_names(&feeds);
    assert_eq!(names.len(), 2);
    assert_eq!((names[0].id, names[0].channel_name.as_str()), (3, "A"));
    assert_eq!((names[1].id, names[1].channel_name.as_str()), (5, "B"));
}

#[test]
fn touched_feed_changes_only_update_time() {
    let f = FeedRecord { id: 4, url: "u".to_string(), feed_url: "f".to_string(), name: "N".to_string(), create_date: 10, update_date: 20 };
    let t = f.touched(99);
    assert_eq!(t.update_date, 99);
    assert_eq!(FeedRecord { update_date: 20, ..t }, f);
}
