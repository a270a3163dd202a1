use twir_bot::collect::{create_collect_response, CollectEntry, GatherStep, Gathering};
use twir_bot::discord::{ChatMessage, Embed, ReactionKind};
use twir_bot::handler::Handler;

fn msg(id: u64, content: &str, reactions: Vec<ReactionKind>, title: Option<&str>) -> ChatMessage {
    ChatMessage {
        id,
        channel_id: 42,
        guild_id: Some(9),
        author_is_bot: false,
        content: content.to_string(),
        reactions,
        embeds: vec![Embed { title: title.map(|t| t.to_string()), kind: Some("link".to_string()) }],
    }
}

fn check() -> ReactionKind {
    ReactionKind::Unicode("\u{2705}".to_string())
}

#[test]
fn gathering_reads_pages_until_the_checkbox() {
    let h = Handler::new(None).unwrap();
    let mut g = Gathering::new(100);

    let first_page = vec![
        msg(99, "new crate https://crates.io/crates/foo", vec![], Some("foo")),
        msg(98, "chat without links", vec![], None),
        msg(97, "https://blog.rust-lang.org/x.html", vec![ReactionKind::Unicode("\u{1F6D1}".to_string())], None),
    ];
    let step = g.absorb(&h, &first_page);
    // the ignored message does not move the cursor
    assert_eq!(step, GatherStep::FetchBefore(98));
    assert_eq!(g.entries.len(), 1);

    let second_page = vec![
        msg(96, "read https://example.com/post", vec![], None),
        msg(95, "older https://old.example.com/", vec![check()], None),
        msg(94, "even older https://never.example.com/", vec![], None),
    ];
    let step = g.absorb(&h, &second_page);
    assert_eq!(step, GatherStep::Finished);
    assert_eq!(g.entries.len(), 2);
    assert_eq!(g.entries[0].url, "https://crates.io/crates/foo");
    assert_eq!(g.entries[0].title, Some("foo".to_string()));
    assert_eq!(g.entries[0].msg_id, 99);
    assert_eq!(g.entries[1].url, "https://example.com/post");
    assert_eq!(g.entries[1].title, None);
    assert_eq!(g.stop_msg_link, Some("https://discord.com/channels/9/42/95".to_string()));
    assert_eq!(g.cursor, 96);

    // once stopped, further pages change nothing
    let third_page = vec![msg(93, "https://late.example.com/", vec![], None)];
    assert_eq!(g.absorb(&h, &third_page), GatherStep::Finished);
    assert_eq!(g.entries.len(), 2);
}

#[test]
fn gathering_ends_on_an_empty_page() {
    let h = Handler::new(None).unwrap();
    let mut g = Gathering::new(10);
    assert_eq!(g.absorb(&h, &[]), GatherStep::Finished);
    assert_eq!(g.entries.len(), 0);
    assert_eq!(g.stop_msg_link, None);
    assert_eq!(g.cursor, 10);
}

#[test]
fn splitting_pages_does_not_change_what_is_collected() {
    let h = Handler::new(None).unwrap();
    let all = || {
        vec![
            msg(9, "a https://a.example.com/1", vec![], Some("A")),
            msg(8, "b https://b.example.com/2", vec![], None),
            msg(7, "c https://c.example.com/3", vec![], Some("C")),
        ]
    };
    let mut whole = Gathering::new(10);
    whole.absorb(&h, &all());
    let mut parts = Gathering::new(10);
    let pages = all();
    parts.absorb(&h, &pages[..1]);
    parts.absorb(&h, &pages[1..]);
    assert_eq!(whole.cursor, parts.cursor);
    assert_eq!(whole.entries.len(), parts.entries.len());
    for (a, b) in whole.entries.iter().zip(parts.entries.iter()) {
        assert_eq!(a.url, b.url);
        assert_eq!(a.title, b.title);
        assert_eq!(a.msg_id, b.msg_id);
    }
}

#[test]
fn collect_response_texts() {
    let entries = vec![
        CollectEntry { title: Some("Foo 1.0".to_string()), url: "https://foo.rs".to_string(), msg_id: 1 },
        CollectEntry { title: None, url: "https://bar.rs/x".to_string(), msg_id: 2 },
    ];
    let (meta, list) = create_collect_response(Some("https://discord.com/channels/1/2/3".to_string()), entries);
    assert_eq!(meta, "entries: 2\nstop msg: https://discord.com/channels/1/2/3");
    assert_eq!(list, "* [Foo 1.0](https://foo.rs)\n* [TODO](https://bar.rs/x)");
    // one line per entry
    assert_eq!(list.lines().count(), 2);
}

#[test]
fn collect_response_without_entries_or_stop() {
    let (meta, list) = create_collect_response(None, Vec::new());
    assert_eq!(meta, "entries: 0\nstop msg: ");
    assert_eq!(list, "");
}

#[test]
fn collect_response_counts_many_entries() {
    let entries: Vec<CollectEntry> = (0..12)
        .map(|i| CollectEntry { title: None, url: format!("https://e.com/{}", i), msg_id: i })
        .collect();
    let (meta, list) = create_collect_response(None, entries);
    assert_eq!(meta, "entries: 12\nstop msg: ");
    assert_eq!(list.matches('\n').count() + 1, 12);
    assert!(list.ends_with("* [TODO](https://e.com/11)"));
}

#[test]
fn collect_right_after_ack_finds_nothing_new() {
    let h = Handler::new(None).unwrap();
    let mut history = vec![
        msg(50, "chat", vec![], None),
        msg(49, "https://one.example.com/a", vec![], Some("One")),
        msg(48, "dup https://two.example.com/b", vec![ReactionKind::Unicode("\u{1F1E9}".to_string())], None),
        msg(47, "https://three.example.com/c", vec![], None),
        msg(46, "old https://old.example.com/", vec![check()], None),
    ];
    // `!ack` at id 51 gathers the entries
    let mut ack = Gathering::new(51);
    assert_eq!(ack.absorb(&h, &history), GatherStep::Finished);
    let ids: Vec<u64> = ack.entries.iter().map(|e| e.msg_id).collect();
    assert_eq!(ids, vec![49, 47]);
    // the flagged duplicate is never collected, and entries run newest first
    assert!(ids.windows(2).all(|w| w[0] > w[1]));
    // each collected link is text of its message
    assert!(history[1].content.contains(&ack.entries[0].url));
    // the bot checks them off, replies, and `!collect` follows at id 53
    for m in history.iter_mut() {
        if ids.contains(&m.id) {
            m.reactions.push(check());
        }
    }
    let mut reply = msg(52, "\nacknowledged: 2 entries\n", vec![], None);
    reply.author_is_bot = true;
    let ack_msg = msg(51, "!ack", vec![], None);
    let mut page = vec![reply, ack_msg];
    page.extend(history);
    let mut collect = Gathering::new(53);
    assert_eq!(collect.absorb(&h, &page), GatherStep::Finished);
    assert_eq!(collect.entries.len(), 0);
    assert_eq!(collect.stop_msg_link, Some("https://discord.com/channels/9/42/49".to_string()));
}
