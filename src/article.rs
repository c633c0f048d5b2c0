use vstd::prelude::*;

use crate::records::{parse_rfc2822, rfc2822_time, FeedItemRecord, FeedRecord};

verus! {

/// ASCII case folding of one character, as a code point.
pub open spec fn fold_char(c: char) -> int {
    if 'A' <= c && c <= 'Z' {
        (c as u32) + 32
    } else {
        c as u32 as int
    }
}

/// Two texts are equal under ASCII case-insensitive comparison.
pub open spec fn eq_ignore_case(a: Seq<char>, b: Seq<char>) -> bool {
    &&& a.len() == b.len()
    &&& forall|i: int| 0 <= i < a.len() ==> #[trigger] fold_char(a[i]) == fold_char(b[i])
}

/// Two optional links name the same page: both are present and equal up to
/// ASCII case. A missing link matches nothing.
pub open spec fn same_link(a: Option<String>, b: Option<String>) -> bool {
    match (a, b) {
        (Some(x), Some(y)) => eq_ignore_case(x@, y@),
        _ => false,
    }
}

fn fold_char_exec(c: char) -> (r: u32)
    ensures
        r as int == fold_char(c),
{
    if 'A' <= c && c <= 'Z' {
        (c as u32) + 32
    } else {
        c as u32
    }
}

/// Compares two texts under ASCII case folding.
pub fn eq_ignore_ascii_case(a: &str, b: &str) -> (r: bool)
    ensures
        r == eq_ignore_case(a@, b@),
{
    let n = a.unicode_len();
    if n != b.unicode_len() {
        return false;
    }
    let mut i: usize = 0;
    while i < n
        invariant
            n == a@.len(),
            n == b@.len(),
            i <= n,
            forall|k: int| 0 <= k < i ==> #[trigger] fold_char(a@[k]) == fold_char(b@[k]),
        decreases n - i,
    {
        if fold_char_exec(a.get_char(i)) != fold_char_exec(b.get_char(i)) {
            return false;
        }
        i = i + 1;
    }
    true
}

/// Whether two optional links name the same page.
pub fn links_match(a: &Option<String>, b: &Option<String>) -> (r: bool)
    ensures
        r == same_link(*a, *b),
{
    match (a, b) {
        (Some(x), Some(y)) => eq_ignore_ascii_case(x.as_str(), y.as_str()),
        _ => false,
    }
}

/// `a` is strictly more recent than `b`; a missing date is older than any date.
pub open spec fn newer(a: Option<i64>, b: Option<i64>) -> bool {
    match (a, b) {
        (Some(x), Some(y)) => x > y,
        (Some(_), None) => true,
        (None, _) => false,
    }
}

/// Whether date `a` is strictly more recent than date `b`.
pub fn is_newer(a: Option<i64>, b: Option<i64>) -> (r: bool)
    ensures
        r == newer(a, b),
{
    match (a, b) {
        (Some(x), Some(y)) => x > y,
        (Some(_), None) => true,
        (None, _) => false,
    }
}


/// One entry of the "all feeds" view: the stored item's fields, its
/// publication time in seconds since the epoch when its date text parses, and
/// the name and address of the feed it came from.
#[derive(Clone, Debug, PartialEq, Eq)]
pub struct Article {
    pub title: Option<String>,
    pub link: Option<String>,
    pub description: Option<String>,
    pub author: Option<String>,
    pub pub_date: Option<i64>,
    pub channel_title: String,
    pub channel_link: String,
}

/// A copy of an optional text.
pub fn copy_text(o: &Option<String>) -> (r: Option<String>)
    ensures
        r == *o,
{
    match o {
        Some(s) => Some(s.clone()),
        None => None,
    }
}

impl Article {
    /// A field-by-field copy.
    pub fn duplicate(&self) -> (r: Article)
        ensures
            r == *self,
    {
        Article {
            title: copy_text(&self.title),
            link: copy_text(&self.link),
            description: copy_text(&self.description),
            author: copy_text(&self.author),
            pub_date: self.pub_date,
            channel_title: self.channel_title.clone(),
            channel_link: self.channel_link.clone(),
        }
    }
}

/// Drops each article whose link matches that of the article kept just
/// before it; articles without a link are always kept.
pub open spec fn dedup_links(s: Seq<Article>) -> Seq<Article>
    decreases s.len(),
{
    if s.len() == 0 {
        Seq::empty()
    } else {
        let kept = dedup_links(s.drop_last());
        if kept.len() > 0 && same_link(kept.last().link, s.last().link) {
            kept
        } else {
            kept.push(s.last())
        }
    }
}

/// Removes consecutive articles whose links are equal up to ASCII case.
pub fn dedup_by_link(articles: &Vec<Article>) -> (r: Vec<Article>)
    ensures
        r@ == dedup_links(articles@),
{
    let mut out: Vec<Article> = Vec::new();
    let n = articles.len();
    let mut i: usize = 0;
    while i < n
        invariant
            n == articles@.len(),
            i <= n,
            out@ == dedup_links(articles@.subrange(0, i as int)),
        decreases n - i,
    {
        proof {
            assert(articles@.subrange(0, i + 1).drop_last() =~= articles@.subrange(0, i as int));
        }
        let dup = out.len() > 0 && links_match(&out[out.len() - 1].link, &articles[i].link);
        if !dup {
            out.push(articles[i].duplicate());
        }
        i = i + 1;
    }
    proof {
        assert(articles@.subrange(0, n as int) =~= articles@);
    }
    out
}

/// The articles of `s` that have no link, in order.
pub open spec fn linkless(s: Seq<Article>) -> Seq<Article> {
    s.filter(|a: Article| a.link is None)
}

/// Deduplication never drops an article without a link: the linkless
/// articles come out exactly as they went in, repeats included.
pub proof fn lemma_dedup_keeps_linkless(s: Seq<Article>)
    ensures
        linkless(dedup_links(s)) == linkless(s),
    decreases s.len(),
{
    reveal(Seq::filter);
    if s.len() > 0 {
        let kept = dedup_links(s.drop_last());
        lemma_dedup_keeps_linkless(s.drop_last());
        if !(kept.len() > 0 && same_link(kept.last().link, s.last().link)) {
            assert(kept.push(s.last()).drop_last() =~= kept);
        }
    }
}

/// Counting linkless articles splits over concatenation.
pub proof fn lemma_linkless_add(a: Seq<Article>, b: Seq<Article>)
    ensures
        linkless(a + b).len() == linkless(a).len() + linkless(b).len(),
    decreases b.len(),
{
    reveal(Seq::filter);
    if b.len() == 0 {
        assert(a + b =~= a);
    } else {
        lemma_linkless_add(a, b.drop_last());
        assert((a + b).drop_last() =~= a + b.drop_last());
        assert((a + b).last() == b.last());
    }
}

/// Two neighbouring articles whose links are equal up to ASCII case are
/// duplicates: only the first is kept.
pub proof fn lemma_dedup_case_variants(a: Article, b: Article)
    requires
        same_link(a.link, b.link),
    ensures
        dedup_links(seq![a, b]) == seq![a],
{
    let e = Seq::<Article>::empty();
    assert(seq![a, b].drop_last() =~= seq![a]);
    assert(seq![a].drop_last() =~= e);
    assert(dedup_links(e) == e);
    assert(e.push(a) =~= seq![a]);
    assert(dedup_links(seq![a]) == e.push(a));
    assert(seq![a, b].last() == b);
}

/// `perm` lists, for each position of `out`, the position in `input` that
/// its article came from, each position exactly once.
pub open spec fn is_rearrangement(input: Seq<Article>, out: Seq<Article>, perm: Seq<int>) -> bool {
    &&& perm.len() == input.len()
    &&& out.len() == input.len()
    &&& forall|k: int| 0 <= k < perm.len() ==> 0 <= #[trigger] perm[k] < input.len()
    &&& forall|k: int| 0 <= k < perm.len() ==> out[k] == input[#[trigger] perm[k]]
    &&& forall|a: int, b: int|
        0 <= a < b < perm.len() ==> #[trigger] perm[a] != #[trigger] perm[b]
}

/// `out` holds the articles of `input` newest first, undated ones last, and
/// articles with equal dates in their order in `input`.
pub open spec fn is_stable_date_sort(input: Seq<Article>, out: Seq<Article>) -> bool {
    exists|perm: Seq<int>|
        {
            &&& is_rearrangement(input, out, perm)
            &&& forall|a: int, b: int|
                0 <= a < b < out.len() ==> newer(#[trigger] out[a].pub_date, #[trigger] out[b].pub_date)
                    || (out[a].pub_date == out[b].pub_date && perm[a] < perm[b])
        }
}


/// Dates are totally ordered by `newer`.
pub proof fn lemma_newer_order(a: Option<i64>, b: Option<i64>, c: Option<i64>)
    ensures
        newer(a, b) || newer(b, a) || a == b,
        !(newer(a, b) && newer(b, a)),
        newer(a, b) && newer(b, c) ==> newer(a, c),
{
}

/// Sorts articles newest first; undated articles go last, and articles with
/// equal dates keep their order.
pub fn sort_by_date(articles: Vec<Article>) -> (r: Vec<Article>)
    ensures
        is_stable_date_sort(articles@, r@),
        linkless(r@).len() == linkless(articles@).len(),
{
    let ghost input = articles@;
    let mut v = articles;
    let n = v.len();
    let ghost mut perm: Seq<int> = Seq::empty();
    let mut i: usize = 0;
    while i < n
        invariant
            n == input.len(),
            v@.len() == n,
            i <= n,
            v@.subrange(i as int, n as int) == input.subrange(i as int, n as int),
            perm.len() == i,
            linkless(v@).len() == linkless(input).len(),
            forall|k: int| 0 <= k < i ==> 0 <= #[trigger] perm[k] < i,
            forall|k: int| 0 <= k < i ==> v@[k] == input[#[trigger] perm[k]],
            forall|a: int, b: int| 0 <= a < b < i ==> #[trigger] perm[a] != #[trigger] perm[b],
            forall|a: int, b: int|
                0 <= a < b < i ==> newer(#[trigger] v@[a].pub_date, #[trigger] v@[b].pub_date)
                    || (v@[a].pub_date == v@[b].pub_date && perm[a] < perm[b]),
        decreases n - i,
    {
        proof {
            assert(v@[i as int] == v@.subrange(i as int, n as int)[0]);
        }
        let ghost before = v@;
        let x = v.remove(i);
        let ghost prefix = v@;
        assert(x == input[i as int]);
        let mut j: usize = i;
        while j > 0 && is_newer(x.pub_date, v[j - 1].pub_date)
            invariant
                j <= i,
                i < n,
                v@ == prefix,
                prefix.len() == n - 1,
                forall|k: int| j <= k < i ==> newer(x.pub_date, #[trigger] prefix[k].pub_date),
            decreases j,
        {
            j = j - 1;
        }
        v.insert(j, x);
        let ghost old_perm = perm;
        proof {
            let x1 = seq![x];
            let a = before.subrange(0, i as int);
            let b = before.subrange(i + 1, n as int);
            assert(before =~= a + x1 + b);
            assert(prefix =~= a + b);
            lemma_linkless_add(a + x1, b);
            lemma_linkless_add(a, x1);
            lemma_linkless_add(a, b);
            let c = prefix.subrange(0, j as int);
            let d = prefix.subrange(j as int, prefix.len() as int);
            assert(prefix =~= c + d);
            assert(v@ =~= c + x1 + d);
            lemma_linkless_add(c + x1, d);
            lemma_linkless_add(c, x1);
            lemma_linkless_add(c, d);
            perm = perm.insert(j as int, i as int);
            assert forall|a: int, b: int| 0 <= a < b < i + 1 implies newer(
                #[trigger] v@[a].pub_date,
                #[trigger] v@[b].pub_date,
            ) || (v@[a].pub_date == v@[b].pub_date && perm[a] < perm[b]) by {
                if b < j {
                } else if a > j {
                    assert(v@[a] == prefix[a - 1]);
                    assert(v@[b] == prefix[b - 1]);
                    assert(perm[a] == old_perm[a - 1]);
                    assert(perm[b] == old_perm[b - 1]);
                } else if a == j {
                    assert(v@[b] == prefix[b - 1]);
                } else if b > j {
                    assert(v@[a] == prefix[a]);
                    assert(v@[b] == prefix[b - 1]);
                    assert(perm[a] == old_perm[a]);
                    assert(perm[b] == old_perm[b - 1]);
                } else {
                    assert(v@[b] == x);
                    assert(!newer(x.pub_date, prefix[j - 1].pub_date));
                    lemma_newer_order(x.pub_date, prefix[j - 1].pub_date, prefix[a].pub_date);
                    lemma_newer_order(prefix[a].pub_date, prefix[j - 1].pub_date, x.pub_date);
                    if a < j - 1 {
                        assert(newer(prefix[a].pub_date, prefix[j - 1].pub_date)
                            || prefix[a].pub_date == prefix[j - 1].pub_date);
                    }
                    assert(old_perm[a] < i);
                }
            }
            assert forall|k: int| 0 <= k < i + 1 implies v@[k] == input[#[trigger] perm[k]] by {
                if k > j {
                    assert(v@[k] == prefix[k - 1]);
                }
            }
            assert forall|a: int, b: int| 0 <= a < b < i + 1 implies #[trigger] perm[a]
                != #[trigger] perm[b] by {
                if a < j && b > j {
                    assert(perm[b] == old_perm[b - 1]);
                }
            }
            assert forall|k: int| i + 1 <= k < n implies #[trigger] v@[k] == input[k] by {
                assert(v@[k] == prefix[k - 1]);
                assert(prefix[k - 1] == before[k]);
                assert(before[k] == before.subrange(i as int, n as int)[k - i]);
            }
            assert(v@.subrange(i + 1, n as int) =~= input.subrange(i + 1, n as int));
        }
        i = i + 1;
    }
    proof {
        assert(is_rearrangement(input, v@, perm));
    }
    v
}


/// The first feed of `feeds` whose id is `id`.
pub open spec fn find_feed(feeds: Seq<FeedRecord>, id: i32) -> Option<FeedRecord>
    decreases feeds.len(),
{
    if feeds.len() == 0 {
        None
    } else {
        match find_feed(feeds.drop_last(), id) {
            Some(f) => Some(f),
            None => if feeds.last().id == id {
                Some(feeds.last())
            } else {
                None
            },
        }
    }
}

/// The publication time of a stored item: its date text read as RFC 2822,
/// or none where it is missing or does not parse.
pub open spec fn item_time(item: FeedItemRecord) -> Option<i64> {
    match item.pub_date {
        Some(t) => rfc2822_time(t@),
        None => None,
    }
}

/// The article that a stored item of the feed `feed` shows as.
pub open spec fn article_of(item: FeedItemRecord, feed: FeedRecord) -> Article {
    Article {
        title: item.title,
        link: item.url,
        description: item.description,
        author: item.author,
        pub_date: item_time(item),
        channel_title: feed.name,
        channel_link: feed.url,
    }
}

/// The articles of all stored items whose feed is stored, in item order.
pub open spec fn joined_articles(feeds: Seq<FeedRecord>, items: Seq<FeedItemRecord>) -> Seq<Article>
    decreases items.len(),
{
    if items.len() == 0 {
        Seq::empty()
    } else {
        let before = joined_articles(feeds, items.drop_last());
        match find_feed(feeds, items.last().channel_id) {
            Some(f) => before.push(article_of(items.last(), f)),
            None => before,
        }
    }
}

/// The "all feeds" view of a store's contents: the joined articles, sorted
/// newest first, with consecutive same-link articles dropped.
pub open spec fn is_aggregate(
    feeds: Seq<FeedRecord>,
    items: Seq<FeedItemRecord>,
    out: Seq<Article>,
) -> bool {
    exists|sorted: Seq<Article>|
        is_stable_date_sort(joined_articles(feeds, items), sorted) && out == dedup_links(
            sorted,
        )
}

proof fn lemma_find_feed_prefix(feeds: Seq<FeedRecord>, j: int, id: i32)
    requires
        0 <= j <= feeds.len(),
        find_feed(feeds.subrange(0, j), id) is Some,
    ensures
        find_feed(feeds, id) == find_feed(feeds.subrange(0, j), id),
    decreases feeds.len() - j,
{
    if j < feeds.len() {
        assert(feeds.subrange(0, j + 1).drop_last() =~= feeds.subrange(0, j));
        lemma_find_feed_prefix(feeds, j + 1, id);
    } else {
        assert(feeds.subrange(0, j) =~= feeds);
    }
}

/// The position of the first feed whose id is `id`.
pub fn find_feed_index(feeds: &Vec<FeedRecord>, id: i32) -> (r: Option<usize>)
    ensures
        match r {
            Some(k) => k < feeds@.len() && find_feed(feeds@, id) == Some(feeds@[k as int]),
            None => find_feed(feeds@, id) is None,
        },
{
    let mut i: usize = 0;
    while i < feeds.len()
        invariant
            i <= feeds@.len(),
            find_feed(feeds@.subrange(0, i as int), id) is None,
        decreases feeds@.len() - i,
    {
        proof {
            assert(feeds@.subrange(0, i + 1).drop_last() =~= feeds@.subrange(0, i as int));
        }
        if feeds[i].id == id {
            proof {
                lemma_find_feed_prefix(feeds@, i + 1, id);
            }
            return Some(i);
        }
        i = i + 1;
    }
    proof {
        assert(feeds@.subrange(0, feeds@.len() as int) =~= feeds@);
    }
    None
}

/// The article that a stored item of the feed `feed` shows as.
pub fn article_from(item: &FeedItemRecord, feed: &FeedRecord) -> (r: Article)
    ensures
        r == article_of(*item, *feed),
{
    let pub_date = match &item.pub_date {
        Some(t) => parse_rfc2822(t.as_str()),
        None => None,
    };
    Article {
        title: copy_text(&item.title),
        link: copy_text(&item.url),
        description: copy_text(&item.description),
        author: copy_text(&item.author),
        pub_date,
        channel_title: feed.name.clone(),
        channel_link: feed.url.clone(),
    }
}

/// Joins stored items with their feeds; an item whose feed is not stored is
/// left out.
pub fn join_articles(feeds: &Vec<FeedRecord>, items: &Vec<FeedItemRecord>) -> (r: Vec<Article>)
    ensures
        r@ == joined_articles(feeds@, items@),
{
    let mut out: Vec<Article> = Vec::new();
    let mut i: usize = 0;
    while i < items.len()
        invariant
            i <= items@.len(),
            out@ == joined_articles(feeds@, items@.subrange(0, i as int)),
        decreases items@.len() - i,
    {
        proof {
            assert(items@.subrange(0, i + 1).drop_last() =~= items@.subrange(0, i as int));
        }
        match find_feed_index(feeds, items[i].channel_id) {
            Some(k) => out.push(article_from(&items[i], &feeds[k])),
            None => {},
        }
        i = i + 1;
    }
    proof {
        assert(items@.subrange(0, items@.len() as int) =~= items@);
    }
    out
}

/// Builds the "all feeds" view from the stored feeds and items: each item
/// with a stored feed becomes an article, the articles are sorted newest
/// first (undated last, ties in load order), and an article whose link equals
/// the one kept before it, up to ASCII case, is dropped. Articles without a
/// link are never dropped, so their number is that of the joined articles.
pub fn aggregate(feeds: &Vec<FeedRecord>, items: &Vec<FeedItemRecord>) -> (r: Vec<Article>)
    ensures
        is_aggregate(feeds@, items@, r@),
        linkless(r@).len() == linkless(joined_articles(feeds@, items@)).len(),
{
    let joined = join_articles(feeds, items);
    let sorted = sort_by_date(joined);
    proof {
        lemma_dedup_keeps_linkless(sorted@);
    }
    dedup_by_link(&sorted)
}

} // verus!
