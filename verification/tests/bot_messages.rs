use twir_bot::discord::{ChatMessage, Embed, ReactionKind};
use twir_bot::handler::{channel_from_setting, command_of_text, Command, Handler};
use twir_bot::links::LinksFile;

fn message(content: &str, reactions: Vec<ReactionKind>) -> ChatMessage {
    ChatMessage {
        id: 7,
        channel_id: 42,
        guild_id: Some(9),
        author_is_bot: false,
        content: content.to_string(),
        reactions,
        embeds: Vec::new(),
    }
}

#[test]
fn test_embed_title() {
    let embed = Embed { title: Some("test-title".to_string()), kind: Some("rich".to_string()) };

    let res = Handler::get_link_title(&[embed]);
    assert_eq!(&res.unwrap(), "test-title");
}

#[test]
fn main_test_embed_title() {
    let embed = Embed { title: Some("test-title".to_string()), kind: Some("rich".to_string()) };

    let res = Handler::get_link_title(&[embed]);
    assert_eq!(&res.unwrap(), "test-title");
}

#[test]
fn test_url_filter() {
    let h = Handler::new(None).unwrap();

    let url = "https://nadim.computer/posts/2022-02-11-maccatalyst.html";
    assert_eq!(h.find_url(url).unwrap(), url);

    assert_eq!(h.find_url(&format!("foo bar {}", url)).unwrap(), url);
}

#[test]
fn main_test_url_filter() {
    let h = Handler::new(None).unwrap();

    let url = "https://nadim.computer/posts/2022-02-11-maccatalyst.html";
    assert_eq!(h.find_url(url).unwrap(), url);

    assert_eq!(h.find_url(&format!("foo bar {}", url)).unwrap(), url);
}

#[test]
fn link_title_absent_cases() {
    assert_eq!(Handler::get_link_title(&[]), None);
    let untitled = Embed { title: None, kind: Some("rich".to_string()) };
    let titled = Embed { title: Some("second".to_string()), kind: None };
    assert_eq!(Handler::get_link_title(&[untitled, titled]), None);
}

#[test]
fn find_url_without_link_and_with_trailing_punctuation() {
    let h = Handler::new(None).unwrap();
    assert_eq!(h.find_url("no links in here"), None);
    assert_eq!(h.find_url("see https://example.com/a, then"), Some("https://example.com/a".to_string()));
    assert_eq!(h.find_url("(www.rust-lang.org)"), Some("www.rust-lang.org".to_string()));
}

#[test]
fn command_texts() {
    assert_eq!(command_of_text("!collect"), Command::Collect);
    assert_eq!(command_of_text("!ack"), Command::Ack);
    assert_eq!(command_of_text("!scrape"), Command::Scrape);
    assert_eq!(command_of_text("!help"), Command::Help);
    assert_eq!(command_of_text("!collect "), Command::NoCommand);
    assert_eq!(command_of_text("hello"), Command::NoCommand);
}

#[test]
fn routing_follows_the_configured_channel() {
    let h = Handler::new(Some(42)).unwrap();
    let in_channel = message("!help", vec![]);
    assert_eq!(h.route(&in_channel), Some(Command::Help));

    let mut elsewhere = message("!help", vec![]);
    elsewhere.channel_id = 43;
    assert_eq!(h.route(&elsewhere), None);

    let mut private = message("!collect", vec![]);
    private.channel_id = 43;
    private.guild_id = None;
    assert_eq!(h.route(&private), Some(Command::Collect));

    let unconfigured = Handler::new(None).unwrap();
    assert_eq!(unconfigured.route(&in_channel), None);
    assert!(unconfigured.serves_channel(5, true));
    assert!(!unconfigured.serves_channel(5, false));
}

#[test]
fn stop_and_ignore_marks() {
    let h = Handler::new(None).unwrap();
    let plain = message("text", vec![ReactionKind::Custom { id: 3 }]);
    assert!(!Handler::is_stop_msg(&plain));
    assert!(!h.ignore_msg(&plain));

    let checked = message("text", vec![ReactionKind::Unicode("\u{2705}".to_string())]);
    assert!(Handler::is_stop_msg(&checked));
    assert!(!h.ignore_msg(&checked));

    for emoji in ["\u{1F1E9}", "\u{1F1EE}", "\u{1F6D1}"] {
        let marked = message("text", vec![ReactionKind::Unicode("\u{1F44D}".to_string()), ReactionKind::Unicode(emoji.to_string())]);
        assert!(h.ignore_msg(&marked));
        assert!(!Handler::is_stop_msg(&marked));
    }

    let mut from_bot = message("text", vec![]);
    from_bot.author_is_bot = true;
    assert!(h.ignore_msg(&from_bot));
}

#[test]
fn duplicate_links_are_flagged() {
    let h = Handler::new(None).unwrap();
    let links = LinksFile::new("* [A post](https://example.com/post)\n* [Other](https://other.org/x)\n");
    let dup = message("look: https://example.com/post", vec![]);
    let fresh = message("look: https://fresh.dev/new", vec![]);
    assert!(h.flags_duplicate(&dup, Some(&links)));
    assert!(!h.flags_duplicate(&fresh, Some(&links)));
    assert!(!h.flags_duplicate(&dup, None));
    let ignored = message("look: https://example.com/post", vec![ReactionKind::Unicode("\u{1F6D1}".to_string())]);
    assert!(!h.flags_duplicate(&ignored, Some(&links)));
    let no_link = message("nothing", vec![]);
    assert!(!h.flags_duplicate(&no_link, Some(&links)));
}

#[test]
fn channel_settings() {
    assert_eq!(channel_from_setting(None), None);
    assert_eq!(channel_from_setting(Some("123456789012345678")), Some(123456789012345678));
    assert_eq!(channel_from_setting(Some("+17")), Some(17));
    assert_eq!(channel_from_setting(Some("0")), None);
    assert_eq!(channel_from_setting(Some("")), None);
    assert_eq!(channel_from_setting(Some("12a")), None);
    assert_eq!(channel_from_setting(Some("18446744073709551616")), None);
}

#[test]
fn message_links() {
    let m = message("x", vec![]);
    assert_eq!(m.link(), "https://discord.com/channels/9/42/7");
    let mut p = message("x", vec![]);
    p.guild_id = None;
    assert!(p.is_private());
    assert_eq!(p.link(), "https://discord.com/channels/@me/42/7");
}
