//! Regular expressions, compiled and run by the `regex` crate.
use vstd::prelude::*;
use crate::text::occurs_in;

verus! {

#[verifier::external_type_specification]
#[verifier::external_body]
pub struct ExRegex(regex::Regex);

#[verifier::external_type_specification]
#[verifier::external_body]
pub struct ExRegexError(regex::Error);

/// Whether `regex::Regex::new` accepts `pattern` (its syntax is valid and the
/// compiled program stays within the crate's default size limit).
pub uninterp spec fn regex_accepts(pattern: Seq<char>) -> bool;

/// The text of capture group `group` in the leftmost-first match of
/// `pattern` in `haystack`, as `regex` reports it through
/// `Regex::captures(..)`, `Captures::get(group)` and `Match::as_str`;
/// `None` when there is no match or the group did not take part in it.
/// Group 0 is the whole match.
pub uninterp spec fn regex_group_text(pattern: Seq<char>, haystack: Seq<char>, group: nat) -> Option<Seq<char>>;

/// Compiles a pattern with `regex::Regex::new`.
/// Claimed: the result is `Ok` exactly when the crate accepts the pattern
/// (named by `regex_accepts`, which is left uninterpreted).
#[verifier::external_body]
fn compile_regex(pattern: &str) -> (res: Result<regex::Regex, regex::Error>)
    ensures
        res is Ok == regex_accepts(pattern@),
{
    regex::Regex::new(pattern)
}

/// A compiled regular expression together with the pattern it was compiled
/// from. The two fields are set together only in `Pattern::new`, so the
/// compiled program always belongs to `source`.
pub struct Pattern {
    source: String,
    compiled: regex::Regex,
}

impl View for Pattern {
    type V = Seq<char>;

    /// The pattern text.
    closed spec fn view(&self) -> Seq<char> {
        self.source@
    }
}

impl Pattern {
    /// Compiles `source`.
    pub fn new(source: &str) -> (res: Result<Pattern, regex::Error>)
        ensures
            res is Ok == regex_accepts(source@),
            res matches Ok(p) ==> p@ == source@,
    {
        match compile_regex(source) {
            Ok(compiled) => Ok(Pattern { source: source.to_owned(), compiled }),
            Err(e) => Err(e),
        }
    }

    /// Runs `regex::Regex::captures` on `haystack` and returns the text of
    /// group `group` (`Captures::get`, then `Match::as_str`).
    /// Claimed: the result is the named `regex_group_text` of this pattern,
    /// the haystack and the group, and, as `Match::as_str` documents, a
    /// returned text is a substring of the haystack.
    #[verifier::external_body]
    pub(crate) fn group_text(&self, haystack: &str, group: usize) -> (res: Option<String>)
        ensures
            match res {
                Some(t) => regex_group_text(self@, haystack@, group as nat) == Some(t@),
                None => regex_group_text(self@, haystack@, group as nat) is None,
            },
            res matches Some(t) ==> occurs_in(t@, haystack@),
    {
        match self.compiled.captures(haystack) {
            Some(caps) => match caps.get(group) {
                Some(m) => Some(m.as_str().to_string()),
                None => None,
            },
            None => None,
        }
    }
}

} // verus!
