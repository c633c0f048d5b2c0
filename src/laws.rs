//! Properties of add and refresh passes run against a store that keeps feed
//! addresses unique and keeps one row per item of a feed (see `same_key`),
//! as the feeds and feed_items tables do.
use vstd::prelude::*;

use crate::channel::{normalized, ChannelItem};
use crate::error::SyncError;
use crate::records::{NewFeedItemRecord, NewFeedRecord};
use crate::sync::{
    add_result, count_conflicts, count_inserted, refresh_result, FeedInsert, ItemInsert, RefreshBatch,
};

verus! {

/// A feed row with this feed address is stored.
pub open spec fn feed_stored(rows: Seq<NewFeedRecord>, feed_url: Seq<char>) -> bool {
    exists|k: int| 0 <= k < rows.len() && #[trigger] rows[k].feed_url@ == feed_url
}

/// The stored feed rows with this feed address.
pub open spec fn feeds_with_url(rows: Seq<NewFeedRecord>, feed_url: Seq<char>) -> Seq<NewFeedRecord> {
    rows.filter(|r: NewFeedRecord| r.feed_url@ == feed_url)
}

/// A store's answer to inserting the feed row `rec`, and its rows after.
pub open spec fn store_add_feed(rows: Seq<NewFeedRecord>, rec: NewFeedRecord) -> (
    Seq<NewFeedRecord>,
    FeedInsert,
) {
    if feed_stored(rows, rec.feed_url@) {
        (rows, FeedInsert::Conflict)
    } else {
        (rows.push(rec), FeedInsert::Created(rows.len() as i32))
    }
}

/// Adding the same feed address twice leaves exactly one feed row with it:
/// the first pass succeeds and the second reports a duplicate feed.
pub proof fn lemma_add_twice_conflicts(rows: Seq<NewFeedRecord>, a: NewFeedRecord, b: NewFeedRecord)
    requires
        !feed_stored(rows, a.feed_url@),
        b.feed_url@ == a.feed_url@,
    ensures
        ({
            let (rows1, first) = store_add_feed(rows, a);
            let (rows2, second) = store_add_feed(rows1, b);
            &&& add_result(first) is Ok
            &&& add_result(second) == Err::<i32, SyncError>(SyncError::DuplicateFeed)
            &&& feeds_with_url(rows2, a.feed_url@).len() == 1
        }),
{
    let rows1 = rows.push(a);
    reveal(Seq::filter);
    assert(rows1.drop_last() =~= rows);
    assert(rows1[rows.len() as int].feed_url@ == b.feed_url@);
    assert(feed_stored(rows1, b.feed_url@));
    lemma_no_feed_with_url(rows, a.feed_url@);
    assert(feeds_with_url(rows1, a.feed_url@) =~= seq![a]);
}

proof fn lemma_no_feed_with_url(rows: Seq<NewFeedRecord>, feed_url: Seq<char>)
    requires
        !feed_stored(rows, feed_url),
    ensures
        feeds_with_url(rows, feed_url) == Seq::<NewFeedRecord>::empty(),
    decreases rows.len(),
{
    reveal(Seq::filter);
    if rows.len() > 0 {
        let init = rows.drop_last();
        if feed_stored(init, feed_url) {
            let k = choose|k: int| 0 <= k < init.len() && #[trigger] init[k].feed_url@ == feed_url;
            assert(rows[k].feed_url@ == feed_url);
        }
        lemma_no_feed_with_url(init, feed_url);
        assert(rows[rows.len() - 1].feed_url@ != feed_url);
    }
}

/// An optional text as the store's unique keys compare it: a missing text
/// counts as empty.
pub open spec fn text_key(t: Option<String>) -> Seq<char> {
    match t {
        Some(s) => s@,
        None => Seq::empty(),
    }
}

/// Two item rows are the same item of a feed: the same feed, and either the
/// same address, or no address and the same title, description, author and
/// date text. Creation and update times play no part.
pub open spec fn same_key(a: NewFeedItemRecord, b: NewFeedItemRecord) -> bool {
    &&& a.channel_id == b.channel_id
    &&& match (a.url, b.url) {
        (Some(x), Some(y)) => x@ == y@,
        (None, None) => {
            &&& text_key(a.title) == text_key(b.title)
            &&& text_key(a.description) == text_key(b.description)
            &&& text_key(a.author) == text_key(b.author)
            &&& text_key(a.pub_date) == text_key(b.pub_date)
        },
        _ => false,
    }
}

/// A row that is the same item as `item` is stored.
pub open spec fn item_stored(rows: Seq<NewFeedItemRecord>, item: NewFeedItemRecord) -> bool {
    exists|k: int| 0 <= k < rows.len() && same_key(#[trigger] rows[k], item)
}

/// A store's answer to inserting one item row, and its rows after.
pub open spec fn store_insert_item(rows: Seq<NewFeedItemRecord>, item: NewFeedItemRecord) -> (
    Seq<NewFeedItemRecord>,
    ItemInsert,
) {
    if item_stored(rows, item) {
        (rows, ItemInsert::Conflict)
    } else {
        (rows.push(item), ItemInsert::Inserted)
    }
}

/// A store's answers to inserting the items one after another, and its rows
/// after.
pub open spec fn store_insert_all(rows: Seq<NewFeedItemRecord>, items: Seq<NewFeedItemRecord>) -> (
    Seq<NewFeedItemRecord>,
    Seq<ItemInsert>,
)
    decreases items.len(),
{
    if items.len() == 0 {
        (rows, Seq::empty())
    } else {
        let (before, answers) = store_insert_all(rows, items.drop_last());
        let (after, answer) = store_insert_item(before, items.last());
        (after, answers.push(answer))
    }
}

proof fn lemma_stored_after_push(rows: Seq<NewFeedItemRecord>, x: NewFeedItemRecord, item: NewFeedItemRecord)
    requires
        item_stored(rows, item),
    ensures
        item_stored(rows.push(x), item),
{
    let k = choose|k: int| 0 <= k < rows.len() && same_key(#[trigger] rows[k], item);
    assert(rows.push(x)[k] == rows[k]);
}

proof fn lemma_insert_all_stores(rows: Seq<NewFeedItemRecord>, items: Seq<NewFeedItemRecord>)
    ensures
        forall|k: int| 0 <= k < items.len() ==> item_stored(store_insert_all(rows, items).0, #[trigger] items[k]),
    decreases items.len(),
{
    if items.len() > 0 {
        let init = items.drop_last();
        lemma_insert_all_stores(rows, init);
        let before = store_insert_all(rows, init).0;
        let last = items.last();
        if !item_stored(before, last) {
            let after = before.push(last);
            assert(after[before.len() as int] == last);
            assert(same_key(after[before.len() as int], last));
            assert forall|k: int| 0 <= k < items.len() implies item_stored(after, #[trigger] items[k]) by {
                if k < init.len() {
                    assert(init[k] == items[k]);
                    lemma_stored_after_push(before, last, items[k]);
                }
            }
        } else {
            assert forall|k: int| 0 <= k < items.len() implies item_stored(before, #[trigger] items[k]) by {
                if k < init.len() {
                    assert(init[k] == items[k]);
                }
            }
        }
    }
}

proof fn lemma_insert_all_stored(rows: Seq<NewFeedItemRecord>, items: Seq<NewFeedItemRecord>)
    requires
        forall|k: int| 0 <= k < items.len() ==> item_stored(rows, #[trigger] items[k]),
    ensures
        store_insert_all(rows, items).0 == rows,
        store_insert_all(rows, items).1.len() == items.len(),
        forall|k: int| 0 <= k < items.len() ==> #[trigger] store_insert_all(rows, items).1[k] == ItemInsert::Conflict,
    decreases items.len(),
{
    if items.len() > 0 {
        let init = items.drop_last();
        assert forall|k: int| 0 <= k < init.len() implies item_stored(rows, #[trigger] init[k]) by {
            assert(init[k] == items[k]);
        }
        lemma_insert_all_stored(rows, init);
        assert(item_stored(rows, items[items.len() - 1]));
    }
}

proof fn lemma_all_conflicts(answers: Seq<ItemInsert>)
    requires
        forall|k: int| 0 <= k < answers.len() ==> answers[k] == ItemInsert::Conflict,
    ensures
        count_inserted(answers) == 0,
        !answers.contains(ItemInsert::Failed),
    decreases answers.len(),
{
    if answers.len() > 0 {
        lemma_all_conflicts(answers.drop_last());
    }
}

proof fn lemma_stored_other_time(
    rows: Seq<NewFeedItemRecord>,
    feed_id: i32,
    items: Seq<ChannelItem>,
    t1: i64,
    t2: i64,
)
    requires
        forall|k: int|
            0 <= k < items.len() ==> item_stored(rows, #[trigger] normalized(feed_id, items, t1)[k]),
    ensures
        forall|k: int|
            0 <= k < items.len() ==> item_stored(rows, #[trigger] normalized(feed_id, items, t2)[k]),
{
    assert forall|k: int| 0 <= k < items.len() implies item_stored(
        rows,
        #[trigger] normalized(feed_id, items, t2)[k],
    ) by {
        let a = normalized(feed_id, items, t1)[k];
        let b = normalized(feed_id, items, t2)[k];
        let j = choose|j: int| 0 <= j < rows.len() && same_key(#[trigger] rows[j], a);
        assert(same_key(rows[j], b));
    }
}

/// Refreshing twice with an unchanged document adds nothing the second time,
/// whatever the two passes' times: every insert of the second pass is a
/// conflict, the stored rows stay as they were, and the pass reports zero
/// new rows.
pub proof fn lemma_refresh_idempotent(
    rows: Seq<NewFeedItemRecord>,
    feed_id: i32,
    items: Seq<ChannelItem>,
    t1: i64,
    t2: i64,
)
    ensures
        ({
            let (rows1, first) = store_insert_all(rows, normalized(feed_id, items, t1));
            let (rows2, second) = store_insert_all(rows1, normalized(feed_id, items, t2));
            &&& rows2 == rows1
            &&& second.len() == items.len()
            &&& forall|k: int| 0 <= k < second.len() ==> second[k] == ItemInsert::Conflict
            &&& refresh_result(second) == Ok::<nat, SyncError>(0)
        }),
{
    let first_items = normalized(feed_id, items, t1);
    let second_items = normalized(feed_id, items, t2);
    lemma_insert_all_stores(rows, first_items);
    let rows1 = store_insert_all(rows, first_items).0;
    lemma_stored_other_time(rows1, feed_id, items, t1, t2);
    lemma_insert_all_stored(rows1, second_items);
    lemma_all_conflicts(store_insert_all(rows1, second_items).1);
}

proof fn lemma_counts(answers: Seq<ItemInsert>)
    requires
        !answers.contains(ItemInsert::Failed),
    ensures
        count_inserted(answers) + count_conflicts(answers) == answers.len(),
    decreases answers.len(),
{
    if answers.len() > 0 {
        let init = answers.drop_last();
        if init.contains(ItemInsert::Failed) {
            let k = choose|k: int| 0 <= k < init.len() && init[k] == ItemInsert::Failed;
            assert(answers[k] == ItemInsert::Failed);
        }
        lemma_counts(init);
        assert(answers[answers.len() - 1] != ItemInsert::Failed);
    }
}

/// A refresh pass whose inserts all succeeded or conflicted reports success,
/// with one new row for each insert that did not conflict.
pub proof fn lemma_partial_insert(answers: Seq<ItemInsert>)
    requires
        !answers.contains(ItemInsert::Failed),
    ensures
        refresh_result(answers) == Ok::<nat, SyncError>((answers.len() - count_conflicts(answers)) as nat),
{
    lemma_counts(answers);
}

/// No two of the items are the same item (see `same_key`).
pub open spec fn distinct_items(items: Seq<NewFeedItemRecord>) -> bool {
    forall|a: int, b: int|
        0 <= a < b < items.len() ==> !same_key(#[trigger] items[a], #[trigger] items[b])
}

/// The items that collide with no stored row, in order.
pub open spec fn fresh_items(rows: Seq<NewFeedItemRecord>, items: Seq<NewFeedItemRecord>) -> Seq<
    NewFeedItemRecord,
>
    decreases items.len(),
{
    if items.len() == 0 {
        Seq::empty()
    } else {
        let before = fresh_items(rows, items.drop_last());
        if item_stored(rows, items.last()) {
            before
        } else {
            before.push(items.last())
        }
    }
}

proof fn lemma_fresh_from(rows: Seq<NewFeedItemRecord>, items: Seq<NewFeedItemRecord>, i: int)
    requires
        0 <= i < fresh_items(rows, items).len(),
    ensures
        exists|j: int| 0 <= j < items.len() && fresh_items(rows, items)[i] == #[trigger] items[j],
    decreases items.len(),
{
    let init = items.drop_last();
    let f = fresh_items(rows, init);
    if i < f.len() {
        lemma_fresh_from(rows, init, i);
        let j = choose|j: int| 0 <= j < init.len() && f[i] == #[trigger] init[j];
        assert(items[j] == init[j]);
    } else {
        assert(fresh_items(rows, items)[i] == items[items.len() - 1]);
    }
}

proof fn lemma_insert_fresh(rows: Seq<NewFeedItemRecord>, items: Seq<NewFeedItemRecord>)
    requires
        distinct_items(items),
    ensures
        ({
            let (after, answers) = store_insert_all(rows, items);
            &&& after == rows + fresh_items(rows, items)
            &&& answers.len() == items.len()
            &&& forall|k: int|
                0 <= k < items.len() ==> #[trigger] answers[k] == if item_stored(rows, items[k]) {
                    ItemInsert::Conflict
                } else {
                    ItemInsert::Inserted
                }
            &&& count_inserted(answers) == fresh_items(rows, items).len()
        }),
    decreases items.len(),
{
    if items.len() == 0 {
        assert(rows + Seq::<NewFeedItemRecord>::empty() =~= rows);
    } else {
        let init = items.drop_last();
        let last = items.last();
        let n = items.len() - 1;
        assert forall|a: int, b: int| 0 <= a < b < init.len() implies !same_key(
            #[trigger] init[a],
            #[trigger] init[b],
        ) by {
            assert(init[a] == items[a] && init[b] == items[b]);
        }
        lemma_insert_fresh(rows, init);
        let f = fresh_items(rows, init);
        let before = rows + f;
        if item_stored(before, last) {
            let k = choose|k: int| 0 <= k < before.len() && same_key(#[trigger] before[k], last);
            if k < rows.len() {
                assert(rows[k] == before[k]);
            } else {
                lemma_fresh_from(rows, init, k - rows.len());
                let j = choose|j: int| 0 <= j < init.len() && f[k - rows.len()] == #[trigger] init[j];
                assert(items[j] == init[j]);
                assert(items[n] == last);
                assert(false);
            }
        }
        if item_stored(rows, last) {
            let k = choose|k: int| 0 <= k < rows.len() && same_key(#[trigger] rows[k], last);
            assert(before[k] == rows[k]);
        } else {
            assert(before.push(last) =~= rows + f.push(last));
        }
        let answers = store_insert_all(rows, items).1;
        let init_answers = store_insert_all(rows, init).1;
        assert(answers.drop_last() =~= init_answers);
        assert forall|k: int| 0 <= k < items.len() implies #[trigger] answers[k] == if item_stored(
            rows,
            items[k],
        ) {
            ItemInsert::Conflict
        } else {
            ItemInsert::Inserted
        } by {
            if k < n {
                assert(init[k] == items[k]);
                assert(answers[k] == init_answers[k]);
            }
        }
    }
}

/// A refresh pass whose items have distinct addresses stores exactly the
/// items that collide with no stored row, in order, and reports success with
/// their number; the others are skipped as conflicts.
pub proof fn lemma_refresh_inserts_new_items(rows: Seq<NewFeedItemRecord>, items: Seq<NewFeedItemRecord>)
    requires
        distinct_items(items),
    ensures
        ({
            let (after, answers) = store_insert_all(rows, items);
            &&& after == rows + fresh_items(rows, items)
            &&& refresh_result(answers) == Ok::<nat, SyncError>(fresh_items(rows, items).len())
            &&& count_conflicts(answers) + fresh_items(rows, items).len() == items.len()
        }),
{
    lemma_insert_fresh(rows, items);
    let answers = store_insert_all(rows, items).1;
    if answers.contains(ItemInsert::Failed) {
        let k = choose|k: int| 0 <= k < answers.len() && answers[k] == ItemInsert::Failed;
        assert(answers[k] != ItemInsert::Failed);
    }
    lemma_counts(answers);
}

/// A refresh batch whose inserts the store answered as a unique-keyed store
/// does has inserted exactly the items that collided with no stored row, and
/// has not failed.
pub proof fn lemma_batch_against_store(rows: Seq<NewFeedItemRecord>, batch: RefreshBatch)
    requires
        batch.wf(),
        batch.next == batch.items@.len(),
        distinct_items(batch.items@),
        batch.answers@ == store_insert_all(rows, batch.items@).1,
    ensures
        !batch.failed,
        batch.inserted == fresh_items(rows, batch.items@).len(),
{
    lemma_refresh_inserts_new_items(rows, batch.items@);
}

proof fn lemma_fresh_all(rows: Seq<NewFeedItemRecord>, items: Seq<NewFeedItemRecord>)
    requires
        forall|k: int| 0 <= k < items.len() ==> !item_stored(rows, #[trigger] items[k]),
    ensures
        fresh_items(rows, items) == items,
    decreases items.len(),
{
    if items.len() > 0 {
        let init = items.drop_last();
        assert forall|k: int| 0 <= k < init.len() implies !item_stored(rows, #[trigger] init[k]) by {
            assert(init[k] == items[k]);
        }
        lemma_fresh_all(rows, init);
        assert(!item_stored(rows, items[items.len() - 1]));
        assert(init.push(items.last()) =~= items);
    }
}

/// The stored items of the feed `feed_id`.
pub open spec fn items_of_feed(rows: Seq<NewFeedItemRecord>, feed_id: i32) -> Seq<NewFeedItemRecord> {
    rows.filter(|r: NewFeedItemRecord| r.channel_id == feed_id)
}

/// Read-your-writes for an add pass: inserting the normalized items of a new
/// feed one by one succeeds for each of them, and the items then stored for
/// that feed are exactly those records, in document order. No two of the
/// records may be the same item (see `same_key`): the store keeps only the
/// first of two such.
pub proof fn lemma_read_your_writes(
    rows: Seq<NewFeedItemRecord>,
    feed_id: i32,
    items: Seq<ChannelItem>,
    now: i64,
)
    requires
        forall|k: int| 0 <= k < rows.len() ==> (#[trigger] rows[k]).channel_id != feed_id,
        distinct_items(normalized(feed_id, items, now)),
    ensures
        ({
            let (after, answers) = store_insert_all(rows, normalized(feed_id, items, now));
            &&& items_of_feed(after, feed_id) == normalized(feed_id, items, now)
            &&& refresh_result(answers) == Ok::<nat, SyncError>(items.len())
        }),
{
    let added = normalized(feed_id, items, now);
    assert forall|k: int| 0 <= k < added.len() implies !item_stored(rows, #[trigger] added[k]) by {
        if item_stored(rows, added[k]) {
            let j = choose|j: int| 0 <= j < rows.len() && same_key(#[trigger] rows[j], added[k]);
            assert(rows[j].channel_id != feed_id);
        }
    }
    lemma_fresh_all(rows, added);
    lemma_refresh_inserts_new_items(rows, added);
    lemma_append_of_feed(rows, added, feed_id);
    lemma_none_of_feed(rows, feed_id);
    assert(Seq::<NewFeedItemRecord>::empty() + added =~= added);
}

proof fn lemma_append_of_feed(rows: Seq<NewFeedItemRecord>, added: Seq<NewFeedItemRecord>, feed_id: i32)
    requires
        forall|k: int| 0 <= k < added.len() ==> (#[trigger] added[k]).channel_id == feed_id,
    ensures
        items_of_feed(rows + added, feed_id) == items_of_feed(rows, feed_id) + added,
    decreases added.len(),
{
    reveal(Seq::filter);
    if added.len() == 0 {
        assert(rows + added =~= rows);
        assert(items_of_feed(rows, feed_id) + added =~= items_of_feed(rows, feed_id));
    } else {
        let init = added.drop_last();
        assert forall|k: int| 0 <= k < init.len() implies (#[trigger] init[k]).channel_id == feed_id by {
            assert(init[k] == added[k]);
        }
        lemma_append_of_feed(rows, init, feed_id);
        assert((rows + added).drop_last() =~= rows + init);
        assert((rows + added).last() == added.last());
        assert(added[added.len() - 1].channel_id == feed_id);
        assert(items_of_feed(rows, feed_id) + init.push(added.last()) =~= (items_of_feed(rows, feed_id) + init).push(added.last()));
        assert(init.push(added.last()) =~= added);
    }
}

proof fn lemma_none_of_feed(rows: Seq<NewFeedItemRecord>, feed_id: i32)
    requires
        forall|k: int| 0 <= k < rows.len() ==> (#[trigger] rows[k]).channel_id != feed_id,
    ensures
        items_of_feed(rows, feed_id) == Seq::<NewFeedItemRecord>::empty(),
    decreases rows.len(),
{
    reveal(Seq::filter);
    if rows.len() > 0 {
        let init = rows.drop_last();
        assert forall|k: int| 0 <= k < init.len() implies (#[trigger] init[k]).channel_id != feed_id by {
            assert(init[k] == rows[k]);
        }
        lemma_none_of_feed(init, feed_id);
        assert(rows[rows.len() - 1].channel_id != feed_id);
    }
}

} // verus!
