use twir_bot::bsky::{announcement_for, issue_number, post_url, record_key, BskyPostingError};

#[test]
fn issue_numbers_from_links() {
    let url = "https://this-week-in-rust.org/blog/2024/05/01/this-week-in-rust-545/";
    assert!(matches!(issue_number(url), Ok(545)));
    assert!(matches!(issue_number("https://example.com/"), Err(BskyPostingError::LinkParseError)));
    // no digits after the prefix: the number is empty
    assert!(matches!(issue_number("this-week-in-rust-x"), Err(BskyPostingError::ParseIntError(_))));
    // too large for a u32
    assert!(matches!(issue_number("this-week-in-rust-99999999999"), Err(BskyPostingError::ParseIntError(_))));
}

#[test]
fn announcement_text() {
    let url = "https://this-week-in-rust.org/blog/2024/05/01/this-week-in-rust-545/";
    match announcement_for(url) {
        Ok((msg, version)) => {
            assert_eq!(version, 545);
            assert_eq!(msg, format!("This week in #rust 545 {} #rustlang", url));
        }
        Err(_) => panic!("expected an announcement"),
    }
    assert!(matches!(announcement_for("nothing"), Err(BskyPostingError::LinkParseError)));
}

#[test]
fn issue_number_round_trip() {
    for n in [0u32, 7, 10, 545, 4294967295] {
        let url = format!("https://x.org/this-week-in-rust-{}/", n);
        assert!(matches!(issue_number(&url), Ok(v) if v == n));
    }
}

#[test]
fn record_keys_and_post_links() {
    assert_eq!(record_key("at://did:plc:abc/app.bsky.feed.post/3kxyz"), "3kxyz");
    assert_eq!(record_key("no-slash"), "no-slash");
    assert_eq!(record_key("ends/with/"), "");
    assert_eq!(record_key(""), "");
    match post_url("at://did:plc:abc/app.bsky.feed.post/3kxyz", Some("did:plc:abc")) {
        Ok(link) => assert_eq!(link, "https://bsky.app/profile/did:plc:abc/post/3kxyz"),
        Err(_) => panic!("expected a link"),
    }
    assert!(matches!(post_url("at://x/y", None), Err(BskyPostingError::InvalidDid)));
}
