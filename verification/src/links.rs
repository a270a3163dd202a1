//! The list of links already gathered for the coming issue, and the check
//! whether a link is in it.
use vstd::prelude::*;
use crate::text::{chars_of, occurs_in};

verus! {

/// Where the list of links for the coming issue is published.
pub const LINKS_URL: &'static str = "https://raw.githubusercontent.com/rust-lang/this-week-in-rust/master/links.txt";

/// The current text of the links file.
pub struct LinksFile {
    current: Vec<char>,
}

impl View for LinksFile {
    type V = Seq<char>;

    closed spec fn view(&self) -> Seq<char> {
        self.current@
    }
}

/// Whether `needle` occurs in `hay`, searching each start position in turn.
pub fn occurs(needle: &[char], hay: &[char]) -> (r: bool)
    ensures
        r == occurs_in(needle@, hay@),
{
    let n = needle.len();
    if n > hay.len() {
        return false;
    }
    let last = hay.len() - n;
    let mut i: usize = 0;
    while i <= last
        invariant
            n == needle.len(),
            last == hay.len() - n,
            i <= last + 1,
            forall|k: int| 0 <= k < i ==> #[trigger] hay@.subrange(k, k + n) != needle@,
        decreases last + 1 - i,
    {
        let mut j: usize = 0;
        while j < n && hay[i + j] == needle[j]
            invariant
                n == needle.len(),
                i <= last,
                last == hay.len() - n,
                j <= n,
                forall|l: int| 0 <= l < j ==> hay@[i + l] == needle@[l],
            decreases n - j,
        {
            j += 1;
        }
        if j == n {
            assert(hay@.subrange(i as int, i + n) =~= needle@);
            return true;
        }
        assert(hay@.subrange(i as int, i + n)[j as int] != needle@[j as int]);
        i += 1;
    }
    false
}

impl LinksFile {
    /// The links file with the given text.
    pub fn new(body: &str) -> (l: LinksFile)
        ensures
            l@ == body@,
    {
        LinksFile { current: chars_of(body) }
    }

    /// Replaces the text with a newer version of the file.
    pub fn update(&mut self, body: &str)
        ensures
            final(self)@ == body@,
    {
        self.current = chars_of(body);
    }

    /// Whether `content` occurs anywhere in the file.
    pub fn contains(&self, content: &str) -> (r: bool)
        ensures
            r == occurs_in(content@, self@),
    {
        let needle = chars_of(content);
        occurs(needle.as_slice(), self.current.as_slice())
    }
}

/// A text occurs in itself: once the file is updated to a text, that text
/// is reported as contained.
pub proof fn lemma_occurs_in_itself(s: Seq<char>)
    ensures
        occurs_in(s, s),
{
    assert(s.subrange(0, 0 + s.len() as int) =~= s);
}

/// Whatever occurs in a contained text is contained too: every part of a
/// listed link counts as listed.
pub proof fn lemma_occurs_transitive(a: Seq<char>, b: Seq<char>, c: Seq<char>)
    requires
        occurs_in(a, b),
        occurs_in(b, c),
    ensures
        occurs_in(a, c),
{
    let i = choose|i: int| 0 <= i <= b.len() - a.len() && #[trigger] b.subrange(i, i + a.len()) == a;
    let j = choose|j: int| 0 <= j <= c.len() - b.len() && #[trigger] c.subrange(j, j + b.len()) == b;
    assert(c.subrange(j + i, j + i + a.len()) =~= a);
}

} // verus!
