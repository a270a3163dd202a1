use twir_bot::replies::{ack_reply, error_reply, help_reply, scrape_summary};
use twir_bot::scrape::{
    lobsters_listing, lobsters_since, reddit_listing, results_or_empty, Article, LobstersEntry, Post,
    RedditEntry, RedditPage, RedditPost, RedditScan, RedditStep, Timestamp,
};

fn ts(secs: i64) -> Timestamp {
    Timestamp::from_unix(secs, 0).unwrap()
}

fn post(created: i64, url: &str) -> Post {
    Post {
        short_id: "abc".to_string(),
        short_id_url: "https://lobste.rs/s/abc".to_string(),
        created_at: ts(created),
        title: "t".to_string(),
        url: url.to_string(),
        score: 1,
        flags: 0,
        comment_count: 0,
        description: String::new(),
        description_plain: String::new(),
        comments_url: String::new(),
        submitter_user: "u".to_string(),
        tags: vec!["rust".to_string()],
    }
}

#[test]
fn help_text_is_rendered() {
    let text = help_reply("abc123", 3661, 0, Some(42)).unwrap();
    assert_eq!(
        text,
        "\n**try**:\n`!help`\n`!collect` - will collect all new entries to add\n`!ack` - will put checkboxes on all found entries\n`!scrape` - will scrape reddit for the last 7 days\n\nversion: abc123 - uptime: 1h 1m 1s - channel: 42\n"
    );
    let text = help_reply("v", 0, 0, None).unwrap();
    assert!(text.ends_with("version: v - uptime: 0s - channel: 1\n"));
}

#[test]
fn ack_text_is_rendered() {
    assert_eq!(ack_reply(3).unwrap(), "\nacknowledged: 3 entries\n");
    assert_eq!(ack_reply(0).unwrap(), "\nacknowledged: 0 entries\n");
}

#[test]
fn plain_replies() {
    assert_eq!(error_reply("boom"), "cmd error: boom");
    assert_eq!(scrape_summary(12, 0), "scrape results: 12/0");
}

#[test]
fn timestamps() {
    let t = ts(1431648000);
    assert_eq!(t.to_text(), "2015-05-15 00:00:00 UTC");
    assert_eq!(t.unix_secs(), 1431648000);
    assert_eq!(t.subsec_nanos(), 0);
    let later = Timestamp::from_unix(1431648000, 5).unwrap();
    assert!(later.is_after(&t));
    assert!(!t.is_after(&later));
    assert!(!t.is_after(&t));
    assert!(Timestamp::from_unix(i64::MAX, 0).is_none());
}

#[test]
fn lobsters_posts_after_the_cutoff() {
    let posts = vec![post(300, "https://c.org"), post(100, "https://a.org"), post(200, "https://b.org")];
    let kept = lobsters_since(posts, &ts(150));
    assert_eq!(kept.len(), 2);
    assert_eq!(kept[0].url, "https://c.org");
    assert_eq!(kept[1].url, "https://b.org");
    assert_eq!(kept[1].time.unix_secs(), 200);
    // a post made exactly at the cutoff is not kept
    let kept = lobsters_since(vec![post(150, "https://x.org")], &ts(150));
    assert_eq!(kept.len(), 0);
}

#[test]
fn reddit_scan_stops_at_old_or_linkless_posts() {
    let until = ts(1000);
    let mut scan = RedditScan::new();
    let page = RedditPage {
        children: vec![
            RedditPost { created_secs: 3000, is_self: false, url: Some("https://a.org".to_string()) },
            RedditPost { created_secs: 2500, is_self: true, url: Some("https://self".to_string()) },
            RedditPost { created_secs: 2000, is_self: false, url: Some("https://b.org".to_string()) },
        ],
        after: Some("t3_next".to_string()),
    };
    match scan.absorb(&page, &until) {
        RedditStep::FetchAfter(Some(t)) => assert_eq!(t, "t3_next"),
        _ => panic!("expected to read on"),
    }
    assert_eq!(scan.results.len(), 2);
    let page = RedditPage {
        children: vec![
            RedditPost { created_secs: 1500, is_self: false, url: Some("https://c.org".to_string()) },
            RedditPost { created_secs: 900, is_self: false, url: Some("https://old.org".to_string()) },
            RedditPost { created_secs: 800, is_self: false, url: Some("https://older.org".to_string()) },
        ],
        after: None,
    };
    assert!(matches!(scan.absorb(&page, &until), RedditStep::Finished));
    assert!(scan.done);
    let urls: Vec<&str> = scan.results.iter().map(|e| e.url.as_str()).collect();
    assert_eq!(urls, vec!["https://a.org", "https://b.org", "https://c.org"]);

    let mut scan = RedditScan::new();
    let page = RedditPage {
        children: vec![RedditPost { created_secs: 3000, is_self: false, url: None }],
        after: None,
    };
    assert!(matches!(scan.absorb(&page, &until), RedditStep::Finished));
    assert_eq!(scan.results.len(), 0);

    let mut scan = RedditScan::new();
    let page = RedditPage { children: vec![], after: None };
    assert!(matches!(scan.absorb(&page, &until), RedditStep::FetchAfter(None)));
}

#[test]
fn failed_scans_give_nothing() {
    let ok: Result<Vec<RedditEntry>, String> = Ok(vec![RedditEntry { time: ts(5), url: "u".to_string() }]);
    assert_eq!(results_or_empty(ok).len(), 1);
    let err: Result<Vec<RedditEntry>, String> = Err("offline".to_string());
    assert_eq!(results_or_empty(err).len(), 0);
}

#[test]
fn listings() {
    let lobsters = vec![
        LobstersEntry { time: ts(1431648000), url: "https://a.org".to_string() },
        LobstersEntry { time: ts(1431648060), url: "https://b.org".to_string() },
    ];
    assert_eq!(
        lobsters_listing(&lobsters),
        "[2015-05-15 00:00:00 UTC] https://a.org\n[2015-05-15 00:01:00 UTC] https://b.org"
    );
    let reddit = vec![RedditEntry { time: ts(0), url: "https://r.org".to_string() }];
    assert_eq!(reddit_listing(&reddit), "[1970-01-01 00:00:00 UTC] https://r.org");
    assert_eq!(reddit_listing(&Vec::new()), "");
}

#[test]
fn article_lines() {
    let mut a = Article {
        type_of: "article".to_string(),
        id: 1,
        title: "T".to_string(),
        description: String::new(),
        readable_publish_date: String::new(),
        slug: String::new(),
        path: String::new(),
        url: "https://dev.to/x".to_string(),
        comments_count: 0,
        public_reactions_count: 7,
        collection_id: None,
        published_timestamp: ts(1431648000),
        cover_image: None,
        social_image: String::new(),
        canonical_url: String::new(),
        created_at: ts(1431648000),
        edited_at: None,
        published_at: ts(1431648000),
        last_comment_at: None,
        reading_time_minutes: 3,
        tag_list: vec![],
        tags: String::new(),
    };
    assert_eq!(a.listing_line(), "[2015-05-15 00:00:00 UTC] (   7) https://dev.to/x");
    a.public_reactions_count = 123456;
    assert_eq!(a.listing_line(), "[2015-05-15 00:00:00 UTC] (123456) https://dev.to/x");
    a.public_reactions_count = -5;
    assert_eq!(a.listing_line(), "[2015-05-15 00:00:00 UTC] (  -5) https://dev.to/x");
    a.public_reactions_count = i64::MIN;
    assert_eq!(a.listing_line(), format!("[2015-05-15 00:00:00 UTC] ({:4}) https://dev.to/x", i64::MIN));
}

#[test]
fn reddit_pages_can_be_split_anywhere() {
    let until = ts(1000);
    let posts = || {
        vec![
            RedditPost { created_secs: 4000, is_self: false, url: Some("https://a.org".to_string()) },
            RedditPost { created_secs: 3000, is_self: true, url: None },
            RedditPost { created_secs: 2000, is_self: false, url: Some("https://b.org".to_string()) },
            RedditPost { created_secs: 500, is_self: false, url: Some("https://c.org".to_string()) },
        ]
    };
    let mut whole = RedditScan::new();
    whole.absorb(&RedditPage { children: posts(), after: None }, &until);
    let mut split = RedditScan::new();
    let mut all = posts();
    let rest = all.split_off(2);
    split.absorb(&RedditPage { children: all, after: Some("x".to_string()) }, &until);
    split.absorb(&RedditPage { children: rest, after: None }, &until);
    assert_eq!(whole.done, split.done);
    let a: Vec<&str> = whole.results.iter().map(|e| e.url.as_str()).collect();
    let b: Vec<&str> = split.results.iter().map(|e| e.url.as_str()).collect();
    assert_eq!(a, b);
    assert_eq!(a, vec!["https://a.org", "https://b.org"]);
}
