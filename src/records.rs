use vstd::prelude::*;

verus! {

/// Earliest time, in seconds since the epoch, that RFC 2822 text can hold
/// (the start of year 0).
pub const EARLIEST_TIME: i64 = -62167219200;

/// Latest time, in seconds since the epoch, that RFC 2822 text can hold
/// (the end of year 9999).
pub const LATEST_TIME: i64 = 253402300799;

/// The RFC 2822 text of a UTC time given in seconds since the epoch.
pub uninterp spec fn rfc2822_of(t: int) -> Seq<char>;

/// The time, in seconds since the epoch, that RFC 2822 text denotes, or
/// `None` where the text does not parse as RFC 2822.
pub uninterp spec fn rfc2822_time(s: Seq<char>) -> Option<i64>;

/// Relies on chrono's `DateTime::from_timestamp` and `DateTime::to_rfc2822`:
/// the RFC 2822 text of a UTC time. chrono refuses to write years outside
/// 0..=9999, hence the bounds.
#[verifier::external_body]
fn format_rfc2822(t: i64) -> (r: String)
    requires
        EARLIEST_TIME <= t <= LATEST_TIME,
    ensures
        r@ == rfc2822_of(t as int),
{
    match chrono::DateTime::from_timestamp(t, 0) {
        Some(d) => d.to_rfc2822(),
        None => String::new(),
    }
}

/// Relies on chrono's `DateTime::parse_from_rfc2822` and `DateTime::timestamp`:
/// the time that RFC 2822 text denotes, in seconds since the epoch.
#[verifier::external_body]
pub(crate) fn parse_rfc2822(s: &str) -> (r: Option<i64>)
    ensures
        r == rfc2822_time(s@),
{
    match chrono::DateTime::parse_from_rfc2822(s) {
        Ok(d) => Some(d.timestamp()),
        Err(_) => None,
    }
}

/// A time as the store keeps it: RFC 2822 text.
#[derive(Clone, Debug, PartialEq, Eq)]
pub struct StringTime(pub String);

impl StringTime {
    /// The stored form of a time given in seconds since the epoch.
    pub fn from_timestamp(t: i64) -> (r: StringTime)
        requires
            EARLIEST_TIME <= t <= LATEST_TIME,
        ensures
            r.0@ == rfc2822_of(t as int),
    {
        StringTime(format_rfc2822(t))
    }

    /// The time that the stored text denotes, if it parses.
    pub fn to_timestamp(&self) -> (r: Option<i64>)
        ensures
            r == rfc2822_time(self.0@),
    {
        parse_rfc2822(self.0.as_str())
    }
}

/// A stored feed. Times are seconds since the epoch.
#[derive(Clone, Debug, PartialEq, Eq)]
pub struct FeedRecord {
    pub id: i32,
    pub url: String,
    pub feed_url: String,
    pub name: String,
    pub create_date: i64,
    pub update_date: i64,
}

impl FeedRecord {
    /// The feed as a refresh pass at time `now` leaves it: its update time is
    /// `now`, everything else is unchanged.
    pub fn touched(&self, now: i64) -> (r: FeedRecord)
        ensures
            r == (FeedRecord { update_date: now, ..*self }),
    {
        FeedRecord {
            id: self.id,
            url: self.url.clone(),
            feed_url: self.feed_url.clone(),
            name: self.name.clone(),
            create_date: self.create_date,
            update_date: now,
        }
    }
}

/// A feed about to be stored; the store assigns its id.
#[derive(Clone, Debug, PartialEq, Eq)]
pub struct NewFeedRecord {
    pub url: String,
    pub feed_url: String,
    pub name: String,
    pub create_date: i64,
    pub update_date: i64,
}

/// A stored item of a feed. `pub_date` is the item's date text as the feed
/// gave it.
#[derive(Clone, Debug, PartialEq, Eq)]
pub struct FeedItemRecord {
    pub id: i32,
    pub channel_id: i32,
    pub title: Option<String>,
    pub url: Option<String>,
    pub description: Option<String>,
    pub author: Option<String>,
    pub pub_date: Option<String>,
    pub create_date: i64,
    pub update_date: i64,
}

/// An item about to be stored under the feed `channel_id`.
#[derive(Clone, Debug, PartialEq, Eq)]
pub struct NewFeedItemRecord {
    pub channel_id: i32,
    pub title: Option<String>,
    pub url: Option<String>,
    pub description: Option<String>,
    pub author: Option<String>,
    pub pub_date: Option<String>,
    pub create_date: i64,
    pub update_date: i64,
}

/// The id and name of a stored feed, as the feed list shows it.
#[derive(Clone, Debug, PartialEq, Eq)]
pub struct FeedNameId {
    pub id: i32,
    pub channel_name: String,
}

/// The feed list: id and name of each stored feed, in order.
pub fn feed_names(feeds: &Vec<FeedRecord>) -> (r: Vec<FeedNameId>)
    ensures
        r@.len() == feeds@.len(),
        forall|k: int|
            0 <= k < feeds@.len() ==> (#[trigger] r@[k]).id == feeds@[k].id && r@[k].channel_name
                == feeds@[k].name,
{
    let mut out: Vec<FeedNameId> = Vec::new();
    let mut i: usize = 0;
    while i < feeds.len()
        invariant
            i <= feeds@.len(),
            out@.len() == i,
            forall|k: int|
                0 <= k < i ==> (#[trigger] out@[k]).id == feeds@[k].id && out@[k].channel_name
                    == feeds@[k].name,
        decreases feeds@.len() - i,
    {
        out.push(FeedNameId { id: feeds[i].id, channel_name: feeds[i].name.clone() });
        i = i + 1;
    }
    out
}

} // verus!
