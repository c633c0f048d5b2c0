use vstd::prelude::*;

use crate::article::{find_feed, find_feed_index, Article};
use crate::error::SyncError;
use crate::records::{FeedItemRecord, FeedNameId, FeedRecord, NewFeedItemRecord};

verus! {

/// What the store answered to inserting a feed row.
#[derive(Debug, Clone, Copy, PartialEq, Eq, Structural)]
pub enum FeedInsert {
    /// The row was created under this id.
    Created(i32),
    /// A feed with the same feed address is already stored.
    Conflict,
    /// Any other store failure.
    Failed,
}

/// What the store answered to inserting one item row.
#[derive(Debug, Clone, Copy, PartialEq, Eq, Structural)]
pub enum ItemInsert {
    Inserted,
    /// An item with the same feed and address is already stored.
    Conflict,
    /// Any other store failure.
    Failed,
}

/// The outcome of an add pass given the store's answer to the feed insert.
pub open spec fn add_result(answer: FeedInsert) -> Result<i32, SyncError> {
    match answer {
        FeedInsert::Created(id) => Ok(id),
        FeedInsert::Conflict => Err(SyncError::DuplicateFeed),
        FeedInsert::Failed => Err(SyncError::Store),
    }
}

/// Decides an add pass from the store's answer to the feed insert: the new
/// id, a duplicate-feed error on a conflict, a store error otherwise.
pub fn feed_added(answer: FeedInsert) -> (r: Result<i32, SyncError>)
    ensures
        r == add_result(answer),
{
    match answer {
        FeedInsert::Created(id) => Ok(id),
        FeedInsert::Conflict => Err(SyncError::DuplicateFeed),
        FeedInsert::Failed => Err(SyncError::Store),
    }
}

/// How many of the answers are `Inserted`.
pub open spec fn count_inserted(answers: Seq<ItemInsert>) -> nat
    decreases answers.len(),
{
    if answers.len() == 0 {
        0
    } else {
        count_inserted(answers.drop_last()) + if answers.last() == ItemInsert::Inserted {
            1nat
        } else {
            0nat
        }
    }
}

proof fn lemma_count_inserted_bound(answers: Seq<ItemInsert>)
    ensures
        count_inserted(answers) <= answers.len(),
    decreases answers.len(),
{
    if answers.len() > 0 {
        lemma_count_inserted_bound(answers.drop_last());
    }
}

/// How many of the answers are `Conflict`.
pub open spec fn count_conflicts(answers: Seq<ItemInsert>) -> nat
    decreases answers.len(),
{
    if answers.len() == 0 {
        0
    } else {
        count_conflicts(answers.drop_last()) + if answers.last() == ItemInsert::Conflict {
            1nat
        } else {
            0nat
        }
    }
}

/// The outcome of a refresh pass whose item inserts got these answers: the
/// number of new rows, or a store error where one insert failed otherwise
/// than by a conflict.
pub open spec fn refresh_result(answers: Seq<ItemInsert>) -> Result<nat, SyncError> {
    if answers.contains(ItemInsert::Failed) {
        Err(SyncError::Store)
    } else {
        Ok(count_inserted(answers))
    }
}

/// The item inserts of a refresh pass, one at a time: the caller inserts
/// `next_item`, reports the store's answer with `record`, and reads the
/// outcome with `finish` once no item is left. Conflicts are skipped; any
/// other failure stops the batch.
pub struct RefreshBatch {
    pub items: Vec<NewFeedItemRecord>,
    pub next: usize,
    pub inserted: usize,
    pub failed: bool,
    pub answers: Ghost<Seq<ItemInsert>>,
}

impl RefreshBatch {
    pub open spec fn wf(&self) -> bool {
        &&& self.next <= self.items@.len()
        &&& self.answers@.len() == self.next
        &&& self.inserted == count_inserted(self.answers@)
        &&& self.failed == self.answers@.contains(ItemInsert::Failed)
    }

    /// A batch over the normalized items of one pass.
    pub fn new(items: Vec<NewFeedItemRecord>) -> (r: RefreshBatch)
        ensures
            r.wf(),
            r.items == items,
            r.next == 0,
            r.answers@ == Seq::<ItemInsert>::empty(),
    {
        RefreshBatch { items, next: 0, inserted: 0, failed: false, answers: Ghost(Seq::empty()) }
    }

    /// The item to insert next, or `None` once every item was answered or
    /// an insert failed.
    pub fn next_item(&self) -> (r: Option<&NewFeedItemRecord>)
        requires
            self.wf(),
        ensures
            match r {
                Some(item) => !self.failed && self.next < self.items@.len() && *item
                    == self.items@[self.next as int],
                None => self.failed || self.next == self.items@.len(),
            },
    {
        if self.failed || self.next >= self.items.len() {
            None
        } else {
            Some(&self.items[self.next])
        }
    }

    /// Records the store's answer to inserting the item `next_item` gave.
    pub fn record(&mut self, answer: ItemInsert)
        requires
            old(self).wf(),
            !old(self).failed,
            old(self).next < old(self).items@.len(),
        ensures
            final(self).wf(),
            final(self).items == old(self).items,
            final(self).next == old(self).next + 1,
            final(self).answers@ == old(self).answers@.push(answer),
    {
        let ghost before = self.answers@;
        // The item count, a usize, bounds both counters.
        let _len = self.items.len();
        proof {
            lemma_count_inserted_bound(before);
            assert(before.push(answer).drop_last() =~= before);
            if answer != ItemInsert::Failed {
                assert forall|x: ItemInsert| before.push(answer).contains(x) implies before.contains(
                    x,
                ) || x == answer by {
                    let k = choose|k: int| 0 <= k < before.len() + 1 && before.push(answer)[k] == x;
                    if k < before.len() {
                        assert(before[k] == x);
                    }
                }
            } else {
                assert(before.push(answer)[before.len() as int] == answer);
            }
        }
        match answer {
            ItemInsert::Inserted => {
                self.inserted = self.inserted + 1;
            },
            ItemInsert::Conflict => {},
            ItemInsert::Failed => {
                self.failed = true;
            },
        }
        self.next = self.next + 1;
        self.answers = Ghost(before.push(answer));
    }

    /// The outcome of the pass so far: the number of rows inserted, or a
    /// store error.
    pub fn finish(&self) -> (r: Result<usize, SyncError>)
        requires
            self.wf(),
        ensures
            match (r, refresh_result(self.answers@)) {
                (Ok(n), Ok(m)) => n == m,
                (Err(e), Err(f)) => e == f,
                _ => false,
            },
    {
        if self.failed {
            Err(SyncError::Store)
        } else {
            Ok(self.inserted)
        }
    }
}


/// The view of one selected feed: its name and id, its stored items, and its
/// position in the feed list.
#[derive(Clone, Debug, PartialEq, Eq)]
pub struct ChannelFeed {
    pub name: String,
    pub id: i32,
    pub items: Vec<FeedItemRecord>,
    pub selected: usize,
}

/// What the reader shows: every feed's articles merged, or one feed.
#[derive(Clone, Debug, PartialEq, Eq)]
pub enum CurrentView {
    AllFeeds(Vec<Article>),
    SelectedFeed(ChannelFeed),
}

/// The feed address stored for the feed `feed_id`.
pub fn feed_url_of(feeds: &Vec<FeedRecord>, feed_id: i32) -> (r: Result<String, SyncError>)
    ensures
        match r {
            Ok(u) => find_feed(feeds@, feed_id) matches Some(f) && u == f.feed_url,
            Err(e) => e == SyncError::MissingFeed && find_feed(feeds@, feed_id) is None,
        },
{
    match find_feed_index(feeds, feed_id) {
        Some(k) => Ok(feeds[k].feed_url.clone()),
        None => Err(SyncError::MissingFeed),
    }
}

/// Selects the feed `feed_id` after an add pass, from the feed list and
/// item list read back from the store. The feed must be in the list.
pub fn open_feed(feeds: &Vec<FeedRecord>, feed_id: i32, items: Vec<FeedItemRecord>) -> (r: Result<
    ChannelFeed,
    SyncError,
>)
    ensures
        match r {
            Ok(v) => {
                &&& find_feed(feeds@, feed_id) matches Some(f)
                &&& v.selected < feeds@.len()
                &&& feeds@[v.selected as int] == f
                &&& v.name == f.name
                &&& v.id == feed_id
                &&& v.items == items
            },
            Err(e) => e == SyncError::MissingFeed && find_feed(feeds@, feed_id) is None,
        },
{
    match find_feed_index(feeds, feed_id) {
        Some(k) => Ok(ChannelFeed { name: feeds[k].name.clone(), id: feed_id, items, selected: k }),
        None => Err(SyncError::MissingFeed),
    }
}

/// The view of the feed at position `index` of the feed list.
pub fn select_feed(feed: &FeedNameId, index: usize, items: Vec<FeedItemRecord>) -> (r: ChannelFeed)
    ensures
        r.name == feed.channel_name,
        r.id == feed.id,
        r.items == items,
        r.selected == index,
{
    ChannelFeed { name: feed.channel_name.clone(), id: feed.id, items, selected: index }
}

impl ChannelFeed {
    /// The view after a refresh pass: the same feed at the same position,
    /// with its name and items as read back from the store.
    pub fn refreshed(&self, feeds: &Vec<FeedRecord>, items: Vec<FeedItemRecord>) -> (r: Result<
        ChannelFeed,
        SyncError,
    >)
        ensures
            match r {
                Ok(v) => {
                    &&& find_feed(feeds@, self.id) matches Some(f)
                    &&& v.name == f.name
                    &&& v.id == self.id
                    &&& v.items == items
                    &&& v.selected == self.selected
                },
                Err(e) => e == SyncError::MissingFeed && find_feed(feeds@, self.id) is None,
            },
    {
        match find_feed_index(feeds, self.id) {
            Some(k) => Ok(
                ChannelFeed {
                    name: feeds[k].name.clone(),
                    id: self.id,
                    items,
                    selected: self.selected,
                },
            ),
            None => Err(SyncError::MissingFeed),
        }
    }
}

} // verus!
