use vstd::prelude::*;

use crate::article::copy_text;
use crate::records::{NewFeedItemRecord, NewFeedRecord};

verus! {

/// One item of a parsed feed document; every field may be absent.
#[derive(Clone, Debug, PartialEq, Eq)]
pub struct ChannelItem {
    pub title: Option<String>,
    pub link: Option<String>,
    pub description: Option<String>,
    pub author: Option<String>,
    pub pub_date: Option<String>,
}

/// A parsed feed document: the channel's title and link, and its items in
/// document order.
#[derive(Clone, Debug, PartialEq, Eq)]
pub struct ChannelDoc {
    pub title: String,
    pub link: String,
    pub items: Vec<ChannelItem>,
}

/// The channel that an RSS document's bytes parse to, or `None` where they
/// are not an RSS document.
pub uninterp spec fn rss_channel(b: Seq<u8>) -> Option<ChannelDoc>;

/// Relies on rss's `Channel::read_from`: parses RSS document bytes. The
/// fields the reader keeps are moved over as they are.
#[verifier::external_body]
pub(crate) fn read_channel(bytes: &[u8]) -> (r: Option<ChannelDoc>)
    ensures
        r == rss_channel(bytes@),
{
    let c = rss::Channel::read_from(bytes).ok()?;
    let items = c.items.into_iter().map(|i| ChannelItem {
        title: i.title,
        link: i.link,
        description: i.description,
        author: i.author,
        pub_date: i.pub_date,
    }).collect();
    Some(ChannelDoc { title: c.title, link: c.link, items })
}

/// The record under which a parsed item is stored for the feed `channel_id`,
/// stamped with the pass's time `now`.
pub open spec fn item_record(channel_id: i32, item: ChannelItem, now: i64) -> NewFeedItemRecord {
    NewFeedItemRecord {
        channel_id,
        title: item.title,
        url: item.link,
        description: item.description,
        author: item.author,
        pub_date: item.pub_date,
        create_date: now,
        update_date: now,
    }
}

/// The records to store for `items`, one for each, in order.
pub open spec fn normalized(channel_id: i32, items: Seq<ChannelItem>, now: i64) -> Seq<
    NewFeedItemRecord,
> {
    items.map_values(|item: ChannelItem| item_record(channel_id, item, now))
}

/// Maps parsed items one for one to records of the feed `channel_id`, all
/// stamped with the same time `now`. Optional fields stay as they are.
pub fn normalize(channel_id: i32, items: &Vec<ChannelItem>, now: i64) -> (r: Vec<
    NewFeedItemRecord,
>)
    ensures
        r@ == normalized(channel_id, items@, now),
{
    let mut out: Vec<NewFeedItemRecord> = Vec::new();
    let mut i: usize = 0;
    while i < items.len()
        invariant
            i <= items@.len(),
            out@ == normalized(channel_id, items@.subrange(0, i as int), now),
        decreases items@.len() - i,
    {
        let item = &items[i];
        out.push(
            NewFeedItemRecord {
                channel_id,
                title: copy_text(&item.title),
                url: copy_text(&item.link),
                description: copy_text(&item.description),
                author: copy_text(&item.author),
                pub_date: copy_text(&item.pub_date),
                create_date: now,
                update_date: now,
            },
        );
        proof {
            assert(out@ =~= normalized(channel_id, items@.subrange(0, i + 1), now));
        }
        i = i + 1;
    }
    proof {
        assert(items@.subrange(0, items@.len() as int) =~= items@);
    }
    out
}

/// The feed row to create for a parsed document: the site address, the
/// address the document came from, the channel's title as name, and `now`
/// as both dates.
pub fn new_feed_record(url: &str, feed_url: &str, channel: &ChannelDoc, now: i64) -> (r:
    NewFeedRecord)
    ensures
        r.url@ == url@,
        r.feed_url@ == feed_url@,
        r.name == channel.title,
        r.create_date == now,
        r.update_date == now,
{
    NewFeedRecord {
        url: url.to_owned(),
        feed_url: feed_url.to_owned(),
        name: channel.title.clone(),
        create_date: now,
        update_date: now,
    }
}

} // verus!
