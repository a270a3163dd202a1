use twir_bot::links::{occurs, LinksFile};

#[test]
fn contains_reads_the_current_text() {
    let mut links = LinksFile::new("https://a.org/1\nhttps://b.org/2\n");
    assert!(links.contains("https://b.org/2"));
    assert!(links.contains("b.org"));
    assert!(!links.contains("https://c.org/3"));
    links.update("https://c.org/3\n");
    assert!(links.contains("https://c.org/3"));
    assert!(!links.contains("https://a.org/1"));
}

#[test]
fn contains_edge_cases() {
    let links = LinksFile::new("abc");
    assert!(links.contains(""));
    assert!(links.contains("abc"));
    assert!(!links.contains("abcd"));
    let empty = LinksFile::new("");
    assert!(empty.contains(""));
    assert!(!empty.contains("a"));
    let unicode = LinksFile::new("caf\u{e9} \u{1F980} crab");
    assert!(unicode.contains("\u{1F980} cr"));
}

#[test]
fn search_positions() {
    let hay: Vec<char> = "aaab".chars().collect();
    let needle: Vec<char> = "aab".chars().collect();
    assert!(occurs(&needle, &hay));
    let miss: Vec<char> = "aba".chars().collect();
    assert!(!occurs(&miss, &hay));
}
