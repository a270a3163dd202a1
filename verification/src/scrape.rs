//! Posts of the link aggregators: which recent posts are kept, and how the
//! kept posts are listed.
use vstd::prelude::*;
use vstd::string::*;
use crate::text::{join, opt_text};

verus! {

/// Whether `chrono::DateTime::<Utc>::from_timestamp(secs, nanos)` gives a
/// time (the seconds are in chrono's range and the nanoseconds are valid).
pub uninterp spec fn utc_representable(secs: int, nanos: nat) -> bool;

/// How chrono's `Display` writes the UTC time `secs` seconds and `nanos`
/// nanoseconds after the Unix epoch (such as `2015-05-15 00:00:00 UTC`).
pub uninterp spec fn utc_text(secs: int, nanos: nat) -> Seq<char>;

/// Whether chrono can represent the time: `DateTime::from_timestamp(..)`
/// returns `Some`.
/// Claimed: the result is the named `utc_representable`.
#[verifier::external_body]
fn utc_exists(secs: i64, nanos: u32) -> (r: bool)
    ensures
        r == utc_representable(secs as int, nanos as nat),
{
    chrono::DateTime::from_timestamp(secs, nanos).is_some()
}

/// Writes a time with chrono's `Display` of `DateTime<Utc>`.
/// Claimed: the text is the named `utc_text`.
#[verifier::external_body]
fn utc_string(secs: i64, nanos: u32) -> (s: String)
    requires
        utc_representable(secs as int, nanos as nat),
    ensures
        s@ == utc_text(secs as int, nanos as nat),
{
    match chrono::DateTime::from_timestamp(secs, nanos) {
        Some(t) => t.to_string(),
        None => String::new(),
    }
}

/// A point in time in UTC, as seconds and nanoseconds after the Unix epoch;
/// always one that chrono can represent.
#[derive(Clone, Copy)]
pub struct Timestamp {
    secs: i64,
    nanos: u32,
}

impl View for Timestamp {
    type V = (i64, u32);

    closed spec fn view(&self) -> (i64, u32) {
        (self.secs, self.nanos)
    }
}

/// Whether the time `a` comes strictly after the time `b`.
pub open spec fn is_later(a: (i64, u32), b: (i64, u32)) -> bool {
    a.0 > b.0 || (a.0 == b.0 && a.1 > b.1)
}

/// "Comes strictly after" is a strict total order on times.
pub proof fn lemma_later_is_strict_total_order(a: (i64, u32), b: (i64, u32), c: (i64, u32))
    ensures
        !is_later(a, a),
        is_later(a, b) ==> !is_later(b, a),
        is_later(a, b) && is_later(b, c) ==> is_later(a, c),
        a != b ==> is_later(a, b) || is_later(b, a),
{
}

impl Timestamp {
    #[verifier::type_invariant]
    closed spec fn representable(self) -> bool {
        utc_representable(self.secs as int, self.nanos as nat)
    }

    /// The time `secs` seconds and `nanos` nanoseconds after the Unix epoch,
    /// if chrono can represent it.
    pub fn from_unix(secs: i64, nanos: u32) -> (r: Option<Timestamp>)
        ensures
            r is Some == utc_representable(secs as int, nanos as nat),
            r matches Some(t) ==> t@ == (secs, nanos),
    {
        if utc_exists(secs, nanos) {
            Some(Timestamp { secs, nanos })
        } else {
            None
        }
    }

    /// Seconds after the Unix epoch.
    pub fn unix_secs(&self) -> (s: i64)
        ensures
            s == self@.0,
    {
        self.secs
    }

    /// Nanoseconds after the whole second.
    pub fn subsec_nanos(&self) -> (n: u32)
        ensures
            n == self@.1,
    {
        self.nanos
    }

    /// Whether this time comes strictly after `other`.
    pub fn is_after(&self, other: &Timestamp) -> (r: bool)
        ensures
            r == is_later(self@, other@),
    {
        self.secs > other.secs || (self.secs == other.secs && self.nanos > other.nanos)
    }

    /// The time as chrono writes it.
    pub fn to_text(&self) -> (s: String)
        ensures
            utc_representable(self@.0 as int, self@.1 as nat),
            s@ == utc_text(self@.0 as int, self@.1 as nat),
    {
        proof {
            use_type_invariant(self);
        }
        utc_string(self.secs, self.nanos)
    }
}

/// A post on lobste.rs, as its JSON feed gives it.
pub struct Post {
    pub short_id: String,
    pub short_id_url: String,
    pub created_at: Timestamp,
    pub title: String,
    pub url: String,
    pub score: i64,
    pub flags: i64,
    pub comment_count: u64,
    pub description: String,
    pub description_plain: String,
    pub comments_url: String,
    pub submitter_user: String,
    pub tags: Vec<String>,
}

/// A recent lobste.rs post: when it was posted and what it links to.
pub struct LobstersEntry {
    pub time: Timestamp,
    pub url: String,
}

/// A recent link post on the Rust subreddit: when it was posted and what it
/// links to.
pub struct RedditEntry {
    pub time: Timestamp,
    pub url: String,
}

/// A listed post as values: its time and its link.
pub open spec fn listed(time: Timestamp, url: String) -> ((i64, u32), Seq<char>) {
    (time@, url@)
}

/// The lobste.rs posts made after `until`, in feed order, as time and link.
pub open spec fn lobsters_after(posts: Seq<Post>, until: (i64, u32)) -> Seq<((i64, u32), Seq<char>)>
    decreases posts.len(),
{
    if posts.len() == 0 {
        Seq::empty()
    } else {
        let rest = lobsters_after(posts.drop_last(), until);
        let p = posts.last();
        if is_later(p.created_at@, until) {
            rest.push(listed(p.created_at, p.url))
        } else {
            rest
        }
    }
}

/// The entries of a list of lobste.rs entries as values.
pub open spec fn lobsters_view(entries: Seq<LobstersEntry>) -> Seq<((i64, u32), Seq<char>)> {
    entries.map_values(|e: LobstersEntry| listed(e.time, e.url))
}

/// The entries of a list of Reddit entries as values.
pub open spec fn reddit_view(entries: Seq<RedditEntry>) -> Seq<((i64, u32), Seq<char>)> {
    entries.map_values(|e: RedditEntry| listed(e.time, e.url))
}

/// Keeps the lobste.rs posts made after `until`.
pub fn lobsters_since(posts: Vec<Post>, until: &Timestamp) -> (r: Vec<LobstersEntry>)
    ensures
        lobsters_view(r@) == lobsters_after(posts@, until@),
{
    let ghost all = posts@;
    let mut r: Vec<LobstersEntry> = Vec::new();
    let mut i: usize = 0;
    let n = posts.len();
    while i < n
        invariant
            n == all.len(),
            posts@ == all,
            i <= n,
            lobsters_view(r@) == lobsters_after(all.take(i as int), until@),
        decreases n - i,
    {
        let p = &posts[i];
        assert(all.take(i + 1).drop_last() =~= all.take(i as int));
        if p.created_at.is_after(until) {
            let ghost old_r = r@;
            r.push(LobstersEntry { time: p.created_at, url: p.url.clone() });
            assert(lobsters_view(r@) =~= lobsters_view(old_r).push(listed(p.created_at, p.url)));
        }
        i += 1;
    }
    assert(all.take(n as int) =~= all);
    r
}

/// A post of a Reddit listing, as the bot reads it: when it was made (whole
/// seconds), whether it is a text post, and its link.
pub struct RedditPost {
    pub created_secs: i64,
    pub is_self: bool,
    pub url: Option<String>,
}

/// A page of a Reddit listing and the token of the page after it.
pub struct RedditPage {
    pub children: Vec<RedditPost>,
    pub after: Option<String>,
}

/// The state of a scan of the subreddit: the link posts kept so far, newest
/// first, and whether the scan has reached a post it stops at.
pub struct RedditScan {
    pub results: Vec<RedditEntry>,
    pub done: bool,
}

/// A scan as values.
pub struct RedditScanView {
    pub results: Seq<((i64, u32), Seq<char>)>,
    pub done: bool,
}

impl View for RedditScan {
    type V = RedditScanView;

    open spec fn view(&self) -> RedditScanView {
        RedditScanView { results: reddit_view(self.results@), done: self.done }
    }
}

/// The scan after one post. A post whose time chrono cannot represent, or
/// that is not after `until`, ends the scan; a text post is passed over; a
/// link post is kept; a post without a link ends the scan.
pub open spec fn scan_post(s: RedditScanView, p: RedditPost, until: (i64, u32)) -> RedditScanView {
    if s.done {
        s
    } else if !utc_representable(p.created_secs as int, 0) || !is_later((p.created_secs, 0u32), until) {
        RedditScanView { done: true, ..s }
    } else if p.is_self {
        s
    } else {
        match p.url {
            Some(u) => RedditScanView { results: s.results.push(((p.created_secs, 0u32), u@)), done: false },
            None => RedditScanView { done: true, ..s },
        }
    }
}

/// The scan after the posts of `posts`, in order.
pub open spec fn scan_posts(s: RedditScanView, posts: Seq<RedditPost>, until: (i64, u32)) -> RedditScanView
    decreases posts.len(),
{
    if posts.len() == 0 {
        s
    } else {
        scan_post(scan_posts(s, posts.drop_last(), until), posts.last(), until)
    }
}

/// Scanning two runs of posts one after the other gives the scan of the two
/// runs together: how the listing is split into pages does not matter.
pub proof fn lemma_scan_split(s: RedditScanView, first: Seq<RedditPost>, second: Seq<RedditPost>, until: (i64, u32))
    ensures
        scan_posts(scan_posts(s, first, until), second, until) == scan_posts(s, first + second, until),
    decreases second.len(),
{
    if second.len() == 0 {
        assert(first + second =~= first);
    } else {
        lemma_scan_split(s, first, second.drop_last(), until);
        assert((first + second).drop_last() =~= first + second.drop_last());
    }
}

/// A finished scan stays as it is.
pub proof fn lemma_scan_done_is_final(s: RedditScanView, posts: Seq<RedditPost>, until: (i64, u32))
    requires
        s.done,
    ensures
        scan_posts(s, posts, until) == s,
    decreases posts.len(),
{
    if posts.len() > 0 {
        lemma_scan_done_is_final(s, posts.drop_last(), until);
    }
}

/// Every post a scan keeps was made after `until`: scanning keeps that true.
pub proof fn lemma_scan_keeps_only_recent(s: RedditScanView, posts: Seq<RedditPost>, until: (i64, u32))
    requires
        forall|k: int| 0 <= k < s.results.len() ==> is_later(#[trigger] s.results[k].0, until),
    ensures
        forall|k: int|
            0 <= k < scan_posts(s, posts, until).results.len() ==> is_later(
                #[trigger] scan_posts(s, posts, until).results[k].0,
                until,
            ),
    decreases posts.len(),
{
    if posts.len() > 0 {
        lemma_scan_keeps_only_recent(s, posts.drop_last(), until);
        let prev = scan_posts(s, posts.drop_last(), until);
        assert forall|k: int| 0 <= k < scan_post(prev, posts.last(), until).results.len() implies is_later(
            #[trigger] scan_post(prev, posts.last(), until).results[k].0,
            until,
        ) by {
            if k < prev.results.len() {
                assert(is_later(prev.results[k].0, until));
            }
        }
    }
}

/// Whether `r` was kept from the post `p`: a link post, made after
/// `until`, whose time and link the entry holds.
pub open spec fn kept_from(r: ((i64, u32), Seq<char>), p: RedditPost, until: (i64, u32)) -> bool {
    &&& !p.is_self
    &&& p.url matches Some(u) && u@ == r.1
    &&& r.0 == (p.created_secs, 0u32)
    &&& utc_representable(p.created_secs as int, 0)
    &&& is_later(r.0, until)
}

/// A scan only adds entries after the ones it had, and each one it adds is
/// kept from a link post of the page made after `until`: text posts and
/// older posts are never kept.
pub proof fn lemma_scan_results_come_from_link_posts(s: RedditScanView, posts: Seq<RedditPost>, until: (i64, u32))
    ensures
        scan_posts(s, posts, until).results.len() >= s.results.len(),
        scan_posts(s, posts, until).results.take(s.results.len() as int) == s.results,
        forall|k: int|
            s.results.len() <= k < scan_posts(s, posts, until).results.len() ==> exists|i: int|
                0 <= i < posts.len() && kept_from(#[trigger] scan_posts(s, posts, until).results[k], posts[i], until),
    decreases posts.len(),
{
    if posts.len() > 0 {
        let init = posts.drop_last();
        lemma_scan_results_come_from_link_posts(s, init, until);
        let prev = scan_posts(s, init, until);
        let next = scan_posts(s, posts, until);
        assert(next == scan_post(prev, posts.last(), until));
        assert(next.results.take(prev.results.len() as int) == prev.results);
        assert(next.results.take(s.results.len() as int) =~= prev.results.take(s.results.len() as int));
        assert forall|k: int| s.results.len() <= k < next.results.len() implies exists|i: int|
            0 <= i < posts.len() && kept_from(#[trigger] next.results[k], posts[i], until) by {
            if k < prev.results.len() {
                assert(next.results[k] == prev.results[k]);
                let i = choose|i: int| 0 <= i < init.len() && kept_from(prev.results[k], init[i], until);
                assert(posts[i] == init[i]);
            } else {
                assert(kept_from(next.results[k], posts[posts.len() - 1], until));
            }
        }
    }
}

/// What to do after a page of the listing.
pub enum RedditStep {
    /// Read the page after the given token (the first page when there is none).
    FetchAfter(Option<String>),
    Finished,
}

impl RedditScan {
    /// A scan that has kept nothing yet.
    pub fn new() -> (s: RedditScan)
        ensures
            s@ == (RedditScanView { results: Seq::empty(), done: false }),
    {
        let s = RedditScan { results: Vec::new(), done: false };
        assert(s@.results =~= Seq::<((i64, u32), Seq<char>)>::empty());
        s
    }

    /// Takes in one page of the listing and says whether to read on: the
    /// scan reads on with the page's `after` token until it reaches a post
    /// it stops at.
    pub fn absorb(&mut self, page: &RedditPage, until: &Timestamp) -> (step: RedditStep)
        ensures
            final(self)@ == scan_posts(old(self)@, page.children@, until@),
            final(self)@.done ==> step is Finished,
            !final(self)@.done ==> (step matches RedditStep::FetchAfter(a) && opt_text(a) == opt_text(
                page.after,
            )),
    {
        let ghost start = self@;
        let posts = &page.children;
        let mut i: usize = 0;
        while i < posts.len() && !self.done
            invariant
                i <= posts.len(),
                self@ == scan_posts(start, posts@.take(i as int), until@),
            decreases posts.len() - i,
        {
            let p = &posts[i];
            let ghost before = self@;
            assert(posts@.take(i + 1).drop_last() =~= posts@.take(i as int));
            match Timestamp::from_unix(p.created_secs, 0) {
                Some(time) => {
                    if time.is_after(until) {
                        if p.is_self {
                        } else {
                            match &p.url {
                                Some(u) => {
                                    let ghost old_results = self.results@;
                                    self.results.push(RedditEntry { time, url: u.clone() });
                                    assert(reddit_view(self.results@) =~= reddit_view(old_results).push(
                                        ((p.created_secs, 0u32), u@),
                                    ));
                                },
                                None => {
                                    self.done = true;
                                },
                            }
                        }
                    } else {
                        self.done = true;
                    }
                },
                None => {
                    self.done = true;
                },
            }
            assert(self@ == scan_post(before, posts@[i as int], until@));
            i += 1;
        }
        proof {
            let pre = posts@.take(i as int);
            let rest = posts@.skip(i as int);
            assert(pre + rest =~= posts@);
            lemma_scan_split(start, pre, rest, until@);
            if i < posts.len() {
                lemma_scan_done_is_final(self@, rest, until@);
            } else {
                assert(rest =~= Seq::<RedditPost>::empty());
            }
        }
        if self.done {
            RedditStep::Finished
        } else {
            let after = match &page.after {
                Some(t) => Some(t.clone()),
                None => None,
            };
            RedditStep::FetchAfter(after)
        }
    }
}

/// The posts a scan gives when it succeeds, and none when it fails.
pub fn results_or_empty<E>(res: Result<Vec<RedditEntry>, E>) -> (r: Vec<RedditEntry>)
    ensures
        match res {
            Ok(v) => r@ == v@,
            Err(_) => r@.len() == 0,
        },
{
    match res {
        Ok(v) => v,
        Err(_) => Vec::new(),
    }
}

/// The listing line of a post: `[time] link`.
pub open spec fn listing_line(time: (i64, u32), url: Seq<char>) -> Seq<char> {
    "["@ + utc_text(time.0 as int, time.1 as nat) + "] "@ + url
}

/// The listing of posts: one line per post, joined by newlines.
pub open spec fn listing(posts: Seq<((i64, u32), Seq<char>)>) -> Seq<char> {
    join(posts.map_values(|p: ((i64, u32), Seq<char>)| listing_line(p.0, p.1)), "\n"@)
}

/// The listing line of a post.
pub fn listing_line_string(time: &Timestamp, url: &str) -> (s: String)
    ensures
        s@ == listing_line(time@, url@),
{
    let mut s = String::new();
    s.append("[");
    let t = time.to_text();
    s.append(t.as_str());
    s.append("] ");
    s.append(url);
    s
}

/// The listing of lobste.rs entries, attached to the scrape reply.
pub fn lobsters_listing(entries: &Vec<LobstersEntry>) -> (s: String)
    ensures
        s@ == listing(lobsters_view(entries@)),
{
    let ghost lines = lobsters_view(entries@).map_values(|p: ((i64, u32), Seq<char>)| listing_line(p.0, p.1));
    let mut s = String::new();
    let mut i: usize = 0;
    while i < entries.len()
        invariant
            i <= entries.len(),
            lines == lobsters_view(entries@).map_values(|p: ((i64, u32), Seq<char>)| listing_line(p.0, p.1)),
            s@ == join(lines.take(i as int), "\n"@),
        decreases entries.len() - i,
    {
        let line = listing_line_string(&entries[i].time, entries[i].url.as_str());
        assert(lines.take(i + 1).drop_last() =~= lines.take(i as int));
        if i > 0 {
            s.append("\n");
        } else {
            assert(lines.take(0) =~= Seq::<Seq<char>>::empty());
        }
        s.append(line.as_str());
        i += 1;
    }
    assert(lines.take(entries.len() as int) =~= lines);
    s
}

/// The listing of Reddit entries, attached to the scrape reply.
pub fn reddit_listing(entries: &Vec<RedditEntry>) -> (s: String)
    ensures
        s@ == listing(reddit_view(entries@)),
{
    let ghost lines = reddit_view(entries@).map_values(|p: ((i64, u32), Seq<char>)| listing_line(p.0, p.1));
    let mut s = String::new();
    let mut i: usize = 0;
    while i < entries.len()
        invariant
            i <= entries.len(),
            lines == reddit_view(entries@).map_values(|p: ((i64, u32), Seq<char>)| listing_line(p.0, p.1)),
            s@ == join(lines.take(i as int), "\n"@),
        decreases entries.len() - i,
    {
        let line = listing_line_string(&entries[i].time, entries[i].url.as_str());
        assert(lines.take(i + 1).drop_last() =~= lines.take(i as int));
        if i > 0 {
            s.append("\n");
        } else {
            assert(lines.take(0) =~= Seq::<Seq<char>>::empty());
        }
        s.append(line.as_str());
        i += 1;
    }
    assert(lines.take(entries.len() as int) =~= lines);
    s
}

} // verus!

verus! {

/// An article on dev.to, as its API lists it.
pub struct Article {
    pub type_of: String,
    pub id: i64,
    pub title: String,
    pub description: String,
    pub readable_publish_date: String,
    pub slug: String,
    pub path: String,
    pub url: String,
    pub comments_count: i64,
    pub public_reactions_count: i64,
    pub collection_id: Option<i64>,
    pub published_timestamp: Timestamp,
    pub cover_image: Option<String>,
    pub social_image: String,
    pub canonical_url: String,
    pub created_at: Timestamp,
    pub edited_at: Option<Timestamp>,
    pub published_at: Timestamp,
    pub last_comment_at: Option<Timestamp>,
    pub reading_time_minutes: i64,
    pub tag_list: Vec<String>,
    pub tags: String,
}

/// The listing line of an article: `[time] (reactions) link`, the number of
/// reactions right-aligned in four columns.
pub open spec fn article_line(a: Article) -> Seq<char> {
    "["@ + utc_text(a.created_at@.0 as int, a.created_at@.1 as nat) + "] ("@
        + crate::text::pad_left(crate::text::signed_decimal(a.public_reactions_count as int), 4) + ") "@ + a.url@
}

impl Article {
    /// The listing line of the article.
    pub fn listing_line(&self) -> (s: String)
        ensures
            s@ == article_line(*self),
    {
        let mut s = String::new();
        s.append("[");
        let t = self.created_at.to_text();
        s.append(t.as_str());
        s.append("] (");
        let count = crate::text::signed_decimal_string(self.public_reactions_count);
        let padded = crate::text::pad_left_string(count.as_str(), 4);
        s.append(padded.as_str());
        s.append(") ");
        s.append(self.url.as_str());
        s
    }
}

} // verus!

verus! {

/// Every lobste.rs post kept was made after `until`, and no more posts are
/// kept than the feed holds.
pub proof fn lemma_lobsters_kept_are_recent(posts: Seq<Post>, until: (i64, u32))
    ensures
        lobsters_after(posts, until).len() <= posts.len(),
        forall|k: int|
            0 <= k < lobsters_after(posts, until).len() ==> is_later(#[trigger] lobsters_after(posts, until)[k].0, until),
    decreases posts.len(),
{
    if posts.len() > 0 {
        lemma_lobsters_kept_are_recent(posts.drop_last(), until);
        let prev = lobsters_after(posts.drop_last(), until);
        assert forall|k: int| 0 <= k < lobsters_after(posts, until).len() implies is_later(
            #[trigger] lobsters_after(posts, until)[k].0,
            until,
        ) by {
            if k < prev.len() {
                assert(lobsters_after(posts, until)[k] == prev[k]);
            }
        }
    }
}

} // verus!

verus! {

/// Times are ordered chronologically: whole seconds first, nanoseconds only
/// between times of the same second.
pub proof fn lemma_later_is_chronological(a: (i64, u32), b: (i64, u32))
    ensures
        a.0 > b.0 ==> is_later(a, b),
        a.0 < b.0 ==> !is_later(a, b),
        a.0 == b.0 ==> (is_later(a, b) <==> a.1 > b.1),
{
}

/// A lobste.rs post made in a later second than the cutoff is kept, after
/// the posts kept before it; one made in an earlier second is dropped.
pub proof fn lemma_lobsters_keeps_later_posts(posts: Seq<Post>, p: Post, until: (i64, u32))
    ensures
        p.created_at@.0 > until.0 ==> lobsters_after(posts.push(p), until) == lobsters_after(posts, until).push(
            (p.created_at@, p.url@),
        ),
        p.created_at@.0 < until.0 ==> lobsters_after(posts.push(p), until) == lobsters_after(posts, until),
{
    assert(posts.push(p).drop_last() =~= posts);
    assert(posts.push(p).last() == p);
}

/// A running Reddit scan keeps every recent link post it meets, however
/// many it already holds: a post that is not a text post, has a link and
/// was made in a later second than the cutoff (at a time chrono can
/// represent) is appended to the results and the scan goes on.
pub proof fn lemma_scan_keeps_recent_link_post(s: RedditScanView, p: RedditPost, until: (i64, u32))
    requires
        !s.done,
        !p.is_self,
        p.url is Some,
        p.created_secs > until.0,
        utc_representable(p.created_secs as int, 0),
    ensures
        scan_post(s, p, until).results == s.results.push(((p.created_secs, 0u32), p.url->Some_0@)),
        !scan_post(s, p, until).done,
{
}

} // verus!
