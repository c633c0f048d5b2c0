use vstd::prelude::*;
use vstd::string::*;

use crate::channel::{read_channel, rss_channel, ChannelDoc};
use crate::error::SyncError;

verus! {

/// The serialization of a well-formed absolute URL, or `None` where the text
/// is not one.
pub uninterp spec fn url_serialization(s: Seq<char>) -> Option<Seq<char>>;

/// The host of a well-formed absolute URL, where it has one.
pub uninterp spec fn url_host(s: Seq<char>) -> Option<Seq<char>>;

/// Relies on url's `Url::parse` and `Url::as_str`: checks that the text is a
/// well-formed absolute URL and gives its serialization.
#[verifier::external_body]
fn parse_url(s: &str) -> (r: Option<String>)
    ensures
        match r {
            Some(t) => url_serialization(s@) == Some(t@),
            None => url_serialization(s@) is None,
        },
{
    match url::Url::parse(s) {
        Ok(u) => Some(u.as_str().to_string()),
        Err(_) => None,
    }
}

/// Relies on url's `Url::parse` and `Url::host_str`: the host of a URL.
#[verifier::external_body]
fn host_of(s: &str) -> (r: Option<String>)
    ensures
        match r {
            Some(h) => url_host(s@) == Some(h@),
            None => url_host(s@) is None,
        },
{
    match url::Url::parse(s) {
        Ok(u) => u.host_str().map(|h| h.to_string()),
        Err(_) => None,
    }
}

/// `s` ends with `suffix`.
pub open spec fn ends_with(s: Seq<char>, suffix: Seq<char>) -> bool {
    suffix.len() <= s.len() && s.subrange(s.len() - suffix.len(), s.len() as int) == suffix
}

/// Whether `s` ends with `suffix`.
pub fn text_ends_with(s: &str, suffix: &str) -> (r: bool)
    ensures
        r == ends_with(s@, suffix@),
{
    let n = s.unicode_len();
    let m = suffix.unicode_len();
    if m > n {
        return false;
    }
    let off = n - m;
    let mut i: usize = 0;
    while i < m
        invariant
            n == s@.len(),
            m == suffix@.len(),
            off == n - m,
            i <= m,
            forall|k: int| 0 <= k < i ==> s@[off + k] == #[trigger] suffix@[k],
        decreases m - i,
    {
        if s.get_char(off + i) != suffix.get_char(i) {
            proof {
                assert(s@.subrange(off as int, n as int)[i as int] != suffix@[i as int]);
            }
            return false;
        }
        i = i + 1;
    }
    proof {
        assert(s@.subrange(off as int, n as int) =~= suffix@);
    }
    true
}

/// The path at which a site on `host` is expected to publish its feed.
pub open spec fn fallback_path(host: Seq<char>) -> Seq<char> {
    if ends_with(host, "tumblr.com"@) {
        "/rss"@
    } else if ends_with(host, "blogspot.com"@) {
        "/feeds/posts/default"@
    } else {
        "/feed"@
    }
}

/// `s` without one trailing slash.
pub open spec fn trim_slash(s: Seq<char>) -> Seq<char> {
    if s.len() > 0 && s.last() == '/' {
        s.drop_last()
    } else {
        s
    }
}

/// A query or fragment starts at this character of a URL's serialization.
pub open spec fn is_query_mark(c: char) -> bool {
    c == '?' || c == '#'
}

/// Where the path of a URL's serialization ends, looking from position
/// `i`: at the first `?` or `#`, or at the end.
pub open spec fn path_end(s: Seq<char>, i: int) -> int
    decreases s.len() - i,
{
    if i >= s.len() {
        s.len() as int
    } else if is_query_mark(s[i]) {
        i
    } else {
        path_end(s, i + 1)
    }
}

/// The address to try when `url` itself does not give a feed: the host's
/// feed path appended to the URL's path, with its query and fragment kept
/// after it. A URL without a host has none.
pub open spec fn fallback_of(url: Seq<char>) -> Option<Seq<char>> {
    match url_host(url) {
        Some(h) => {
            let e = path_end(url, 0);
            Some(
                trim_slash(url.subrange(0, e)) + fallback_path(h) + url.subrange(
                    e,
                    url.len() as int,
                ),
            )
        },
        None => None,
    }
}

proof fn lemma_path_end_skip(s: Seq<char>, i: int)
    requires
        0 <= i <= s.len(),
        forall|k: int| 0 <= k < i ==> !is_query_mark(#[trigger] s[k]),
    ensures
        path_end(s, 0) == path_end(s, i),
    decreases i,
{
    if i > 0 {
        lemma_path_end_skip(s, i - 1);
        assert(!is_query_mark(s[i - 1]));
    }
}

/// The position where the path of a URL's serialization ends.
fn find_path_end(url: &str) -> (r: usize)
    ensures
        r == path_end(url@, 0),
        r <= url@.len(),
{
    let n = url.unicode_len();
    let mut i: usize = 0;
    while i < n
        invariant
            n == url@.len(),
            i <= n,
            forall|k: int| 0 <= k < i ==> !is_query_mark(#[trigger] url@[k]),
        decreases n - i,
    {
        let c = url.get_char(i);
        if c == '?' || c == '#' {
            proof {
                lemma_path_end_skip(url@, i as int);
            }
            return i;
        }
        i = i + 1;
    }
    proof {
        lemma_path_end_skip(url@, n as int);
    }
    n
}

/// The fallback address for `url` (see `fallback_of`).
pub fn fallback_url(url: &str) -> (r: Option<String>)
    ensures
        match r {
            Some(t) => fallback_of(url@) == Some(t@),
            None => fallback_of(url@) is None,
        },
{
    let host = match host_of(url) {
        Some(h) => h,
        None => return None,
    };
    let path = if text_ends_with(host.as_str(), "tumblr.com") {
        "/rss"
    } else if text_ends_with(host.as_str(), "blogspot.com") {
        "/feeds/posts/default"
    } else {
        "/feed"
    };
    let n = url.unicode_len();
    let e = find_path_end(url);
    let end = if e > 0 && url.get_char(e - 1) == '/' {
        e - 1
    } else {
        e
    };
    let base = url.substring_char(0, end);
    let rest = url.substring_char(e, n);
    proof {
        assert(base@ =~= trim_slash(url@.subrange(0, e as int)));
    }
    Some(String::from_str(base).concat(path).concat(rest))
}


/// Requests made to one address at most: the first and two retries.
pub const MAX_ATTEMPTS: usize = 3;

/// The wait, in milliseconds, after failed request number `k` (from 0) to
/// one address: before the next request to it, or, after the last one,
/// before the fetch gives up.
pub open spec fn retry_delay(k: int) -> u64 {
    if k == 0 {
        100
    } else if k == 1 {
        250
    } else {
        500
    }
}

fn retry_delay_exec(k: usize) -> (r: u64)
    ensures
        r == retry_delay(k as int),
{
    if k == 0 {
        100
    } else if k == 1 {
        250
    } else {
        500
    }
}

/// The addresses a fetch tries, in order: the URL's serialization, then its
/// fallback where it has one.
pub open spec fn candidates_for(url: Seq<char>) -> Seq<Seq<char>> {
    match fallback_of(url) {
        Some(f) => seq![url, f],
        None => seq![url],
    }
}

/// What the caller saw when it performed the last request.
#[derive(Debug, PartialEq, Eq)]
pub enum FetchEvent {
    /// A response arrived with this body.
    Body(Vec<u8>),
    /// A response arrived with a non-success status.
    Rejected,
    /// The request failed before any response arrived.
    Failed,
}

/// What the caller is to do next.
#[derive(Debug, PartialEq, Eq)]
pub enum FetchStep {
    /// Request this address now.
    Get(String),
    /// Wait this many milliseconds, then request this address again.
    Retry { delay_ms: u64, url: String },
    /// The last body parsed as a feed document.
    Found(ChannelDoc),
    /// Every address was tried: there is no feed here.
    NotFound,
    /// Requests kept failing: wait this many milliseconds, then report that
    /// there is no feed here.
    GiveUp { delay_ms: u64 },
}

/// A fetch in progress: which address is being tried, how many requests to
/// it have failed, and whether the fetch has ended.
#[derive(Debug)]
pub struct FetchSession {
    pub candidates: Vec<String>,
    pub current: usize,
    pub retries: usize,
    pub finished: bool,
}

impl FetchSession {
    /// The addresses as texts.
    pub open spec fn candidate_urls(&self) -> Seq<Seq<char>> {
        self.candidates@.map_values(|c: String| c@)
    }

    /// The request in flight to the current address is number `retries + 1`,
    /// never more than `MAX_ATTEMPTS`.
    pub open spec fn wf(&self) -> bool {
        &&& 1 <= self.candidates@.len() <= 2
        &&& self.current < self.candidates@.len()
        &&& self.retries < MAX_ATTEMPTS
    }

    /// Requests the fetch may still make: it ends within this many events.
    pub open spec fn remaining(&self) -> int {
        if self.finished {
            0
        } else {
            (self.candidates@.len() - self.current) * MAX_ATTEMPTS - self.retries
        }
    }

    /// Starts fetching `url`. A text that is not a well-formed absolute URL
    /// is refused before any request.
    pub fn start(url: &str) -> (r: Result<FetchSession, SyncError>)
        ensures
            match r {
                Ok(s) => {
                    &&& url_serialization(url@) matches Some(t)
                    &&& s.wf()
                    &&& s.candidate_urls() == candidates_for(t)
                    &&& s.current == 0
                    &&& s.retries == 0
                    &&& !s.finished
                },
                Err(e) => e == SyncError::InvalidUrl && url_serialization(url@) is None,
            },
    {
        let t = match parse_url(url) {
            Some(t) => t,
            None => return Err(SyncError::InvalidUrl),
        };
        let mut candidates: Vec<String> = Vec::new();
        let fallback = fallback_url(t.as_str());
        candidates.push(t);
        match fallback {
            Some(f) => candidates.push(f),
            None => {},
        }
        let s = FetchSession { candidates, current: 0, retries: 0, finished: false };
        proof {
            assert(s.candidate_urls() =~= candidates_for(t@));
        }
        Ok(s)
    }

    /// The address being tried.
    pub fn current_url(&self) -> (r: String)
        requires
            self.wf(),
        ensures
            r@ == self.candidate_urls()[self.current as int],
    {
        self.candidates[self.current].clone()
    }

    /// Takes the outcome of the last request and says what to do next. A
    /// failed request is retried after 100 ms, then after 250 ms; after the
    /// third failure at one address the fetch waits 500 ms and gives up, so no
    /// address is requested more than three times. A body that is not a feed
    /// document, or a non-success status, moves on to the next address, or
    /// ends the fetch after the last one.
    pub fn on_event(&mut self, event: FetchEvent) -> (step: FetchStep)
        requires
            old(self).wf(),
            !old(self).finished,
        ensures
            final(self).wf(),
            final(self).candidates == old(self).candidates,
            match event {
                FetchEvent::Body(b) => match rss_channel(b@) {
                    Some(doc) => step == FetchStep::Found(doc) && final(self).finished
                        && final(self).current == old(self).current,
                    None => moved_on(*old(self), *final(self), step),
                },
                FetchEvent::Rejected => moved_on(*old(self), *final(self), step),
                FetchEvent::Failed => if old(self).retries + 1 < MAX_ATTEMPTS {
                    &&& step matches FetchStep::Retry { delay_ms, url }
                    &&& delay_ms == retry_delay(old(self).retries as int)
                    &&& url@ == old(self).candidate_urls()[old(self).current as int]
                    &&& final(self).current == old(self).current
                    &&& final(self).retries == old(self).retries + 1
                    &&& !final(self).finished
                } else {
                    &&& step == FetchStep::GiveUp { delay_ms: retry_delay(old(self).retries as int) }
                    &&& final(self).finished
                },
            },
            final(self).remaining() < old(self).remaining(),
            final(self).remaining() >= 0,
    {
        match event {
            FetchEvent::Body(b) => match read_channel(b.as_slice()) {
                Some(doc) => {
                    self.finished = true;
                    FetchStep::Found(doc)
                },
                None => self.move_on(),
            },
            FetchEvent::Rejected => self.move_on(),
            FetchEvent::Failed => {
                if self.retries + 1 < MAX_ATTEMPTS {
                    let delay_ms = retry_delay_exec(self.retries);
                    self.retries = self.retries + 1;
                    FetchStep::Retry { delay_ms, url: self.candidates[self.current].clone() }
                } else {
                    self.finished = true;
                    FetchStep::GiveUp { delay_ms: retry_delay_exec(self.retries) }
                }
            },
        }
    }

    /// Leaves an address that answered with no feed: on to the next one, or
    /// the end of the fetch after the last.
    fn move_on(&mut self) -> (step: FetchStep)
        requires
            old(self).wf(),
            !old(self).finished,
        ensures
            moved_on(*old(self), *final(self), step),
            final(self).wf(),
            final(self).candidates == old(self).candidates,
            final(self).remaining() < old(self).remaining(),
            final(self).remaining() >= 0,
    {
        if self.current + 1 < self.candidates.len() {
            self.current = self.current + 1;
            self.retries = 0;
            FetchStep::Get(self.candidates[self.current].clone())
        } else {
            self.finished = true;
            FetchStep::NotFound
        }
    }
}

/// The session went from `s` to `t` with `step` after an address answered
/// with no feed: the next address is requested at once, or after the last
/// address the fetch ends with no feed.
pub open spec fn moved_on(s: FetchSession, t: FetchSession, step: FetchStep) -> bool {
    if s.current + 1 < s.candidates@.len() {
        &&& step matches FetchStep::Get(u)
        &&& u@ == s.candidate_urls()[s.current + 1]
        &&& t.current == s.current + 1
        &&& t.retries == 0
        &&& !t.finished
    } else {
        step == FetchStep::NotFound && t.finished
    }
}

} // verus!
