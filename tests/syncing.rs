use feed_reader::error::SyncError;
use feed_reader::records::{FeedItemRecord, FeedNameId, FeedRecord, NewFeedItemRecord};
use feed_reader::sync::{feed_added, feed_url_of, open_feed, select_feed, FeedInsert, ItemInsert, RefreshBatch};

fn new_item(n: usize) -> NewFeedItemRecord {
    NewFeedItemRecord {
        channel_id: 1,
        title: Some(format!("item {}", n)),
        url: Some(format!("https://x.example/{}", n)),
        description: None,
        author: None,
        pub_date: None,
        create_date: 10,
        update_date: 10,
    }
}

fn stored(id: i32, channel_id: i32) -> FeedItemRecord {
    FeedItemRecord {
        id,
        channel_id,
        title: None,
        url: Some(format!("https://x.example/{}", id)),
        description: None,
        author: None,
        pub_date: None,
        create_date: 10,
        update_date: 10,
    }
}

fn feed(id: i32, name: &str, feed_url: &str) -> FeedRecord {
    FeedRecord { id, url: feed_url.to_string(), feed_url: feed_url.to_string(), name: name.to_string(), create_date: 0, update_date: 0 }
}

fn run(batch: &mut RefreshBatch, answers: &[ItemInsert]) {
    let mut k = 0;
    while batch.next_item().is_some() {
        batch.record(answers[k]);
        k += 1;
    }
}

#[test]
fn partial_insert_counts_only_new_rows() {
    let items: Vec<_> = (0..10).map(new_item).collect();
    let mut batch = RefreshBatch::new(items);
    let mut answers = vec![ItemInsert::Inserted; 10];
    answers[1] = ItemInsert::Conflict;
    answers[4] = ItemInsert::Conflict;
    answers[9] = ItemInsert::Conflict;
    run(&mut batch, &answers);
    assert_eq!(batch.next, 10);
    assert_eq!(batch.finish(), Ok(7));
}

#[test]
fn second_refresh_adds_nothing() {
    let items: Vec<_> = (0..4).map(new_item).collect();
    let mut first = RefreshBatch::new(items.clone());
    run(&mut first, &[ItemInsert::Inserted; 4]);
    assert_eq!(first.finish(), Ok(4));
    let mut second = RefreshBatch::new(items);
    run(&mut second, &[ItemInsert::Conflict; 4]);
    assert_eq!(second.finish(), Ok(0));
}

#[test]
fn store_failure_stops_the_batch() {
    let items: Vec<_> = (0..5).map(new_item).collect();
    let mut batch = RefreshBatch::new(items);
    batch.record(ItemInsert::Inserted);
    batch.record(ItemInsert::Failed);
    assert!(batch.next_item().is_none());
    assert_eq!(batch.next, 2);
    assert_eq!(batch.finish(), Err(SyncError::Store));
}

#[test]
fn next_item_hands_out_items_in_order() {
    let items: Vec<_> = (0..2).map(new_item).collect();
    let mut batch = RefreshBatch::new(items);
    assert_eq!(batch.next_item().unwrap().title.as_deref(), Some("item 0"));
    batch.record(ItemInsert::Conflict);
    assert_eq!(batch.next_item().unwrap().title.as_deref(), Some("item 1"));
    batch.record(ItemInsert::Inserted);
    assert!(batch.next_item().is_none());
    assert_eq!(batch.finish(), Ok(1));
}

#[test]
fn empty_refresh_succeeds_with_nothing() {
    let batch = RefreshBatch::new(Vec::new());
    assert!(batch.next_item().is_none());
    assert_eq!(batch.finish(), Ok(0));
}

#[test]
fn add_feed_conflict_is_reported() {
    assert_eq!(feed_added(FeedInsert::Created(3)), Ok(3));
    assert_eq!(feed_added(FeedInsert::Conflict), Err(SyncError::DuplicateFeed));
    assert_eq!(feed_added(FeedInsert::Failed), Err(SyncError::Store));
}

#[test]
fn added_feed_is_selected_with_its_items() {
    let feeds = vec![feed(1, "Old", "https://old/feed"), feed(2, "New", "https://new/feed")];
    let items = vec![stored(10, 2), stored(11, 2)];
    let view = open_feed(&feeds, 2, items.clone()).unwrap();
    assert_eq!(view.name, "New");
    assert_eq!(view.id, 2);
    assert_eq!(view.selected, 1);
    assert_eq!(view.items, items);
    assert_eq!(open_feed(&feeds, 9, Vec::new()), Err(SyncError::MissingFeed));
}

#[test]
fn refreshed_view_keeps_selection() {
    let feeds = vec![feed(1, "Old", "https://old/feed"), feed(2, "Renamed", "https://new/feed")];
    let view = select_feed(&FeedNameId { id: 2, channel_name: "New".to_string() }, 1, vec![stored(10, 2)]);
    assert_eq!((view.name.as_str(), view.id, view.selected), ("New", 2, 1));
    let after = view.refreshed(&feeds, vec![stored(10, 2), stored(12, 2)]).unwrap();
    assert_eq!(after.name, "Renamed");
    assert_eq!(after.selected, 1);
    assert_eq!(after.items.len(), 2);
    let lone = select_feed(&FeedNameId { id: 5, channel_name: "Gone".to_string() }, 0, Vec::new());
    assert_eq!(lone.refreshed(&feeds, Vec::new()), Err(SyncError::MissingFeed));
}

#[test]
fn feed_address_lookup() {
    let feeds = vec![feed(1, "A", "https://a/feed"), feed(2, "B", "https://b/rss")];
    assert_eq!(feed_url_of(&feeds, 2), Ok("https://b/rss".to_string()));
    assert_eq!(feed_url_of(&feeds, 3), Err(SyncError::MissingFeed));
}
