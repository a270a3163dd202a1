//! Announcing a new issue on Bluesky: reading the issue number out of its
//! link, the text of the post, and the link to the published post.
use vstd::prelude::*;
use vstd::string::*;
use crate::pattern::{Pattern, regex_accepts, regex_group_text};
use crate::text::{chars_of, decimal, decimal_string, is_ascii_digit, parsed_unsigned, push_char};

verus! {

#[verifier::external_type_specification]
#[verifier::external_body]
pub struct ExParseIntError(std::num::ParseIntError);

/// The pattern that finds the issue number in the link of an issue.
pub const VERSION_PATTERN: &'static str = r"this-week-in-rust-(\d*)";

/// Why an announcement could not be made.
pub enum BskyPostingError {
    RegexError(regex::Error),
    ParseIntError(std::num::ParseIntError),
    LinkParseError,
    InvalidDid,
    InvalidRKey,
}

/// What `str::parse::<u32>` gives for a text: an optional `+` followed by
/// one or more ASCII digits whose value fits in a `u32`.
pub open spec fn parsed_u32(s: Seq<char>) -> Option<u32> {
    match parsed_unsigned(s, u32::MAX as nat) {
        Some(v) => Some(v as u32),
        None => None,
    }
}

/// Parses a number with `str::parse::<u32>`.
/// Claimed, as the standard library documents `u32::from_str`: the text is
/// an optional `+` and then only ASCII digits, at least one, whose value
/// fits in a `u32`; otherwise the result is an error.
#[verifier::external_body]
fn parse_u32(s: &str) -> (r: Result<u32, std::num::ParseIntError>)
    ensures
        match r {
            Ok(v) => parsed_u32(s@) == Some(v),
            Err(_) => parsed_u32(s@) is None,
        },
{
    s.parse::<u32>()
}

/// The issue number in the link of an issue: the digits right after the
/// first `this-week-in-rust-`.
pub fn issue_number(url: &str) -> (r: Result<u32, BskyPostingError>)
    ensures
        !regex_accepts(VERSION_PATTERN@) <==> r matches Err(BskyPostingError::RegexError(_)),
        regex_accepts(VERSION_PATTERN@) ==> match regex_group_text(VERSION_PATTERN@, url@, 1) {
            None => r matches Err(BskyPostingError::LinkParseError),
            Some(d) => match parsed_u32(d) {
                Some(v) => r matches Ok(x) && x == v,
                None => r matches Err(BskyPostingError::ParseIntError(_)),
            },
        },
{
    let regex = match Pattern::new(VERSION_PATTERN) {
        Ok(p) => p,
        Err(e) => return Err(BskyPostingError::RegexError(e)),
    };
    let digits = match regex.group_text(url, 1) {
        Some(d) => d,
        None => return Err(BskyPostingError::LinkParseError),
    };
    match parse_u32(digits.as_str()) {
        Ok(v) => Ok(v),
        Err(e) => Err(BskyPostingError::ParseIntError(e)),
    }
}

/// The text of the announcement of issue `version` at `url`.
pub open spec fn announcement(version: nat, url: Seq<char>) -> Seq<char> {
    "This week in #rust "@ + decimal(version) + " "@ + url + " #rustlang"@
}

/// The announcement of the issue at `url` and its number.
pub fn announcement_for(url: &str) -> (r: Result<(String, u32), BskyPostingError>)
    ensures
        match r {
            Ok((msg, v)) => {
                &&& regex_accepts(VERSION_PATTERN@)
                &&& regex_group_text(VERSION_PATTERN@, url@, 1) matches Some(d) && parsed_u32(d) == Some(v)
                &&& msg@ == announcement(v as nat, url@)
            },
            Err(BskyPostingError::RegexError(_)) => !regex_accepts(VERSION_PATTERN@),
            Err(BskyPostingError::LinkParseError) => regex_accepts(VERSION_PATTERN@) && regex_group_text(
                VERSION_PATTERN@,
                url@,
                1,
            ) is None,
            Err(BskyPostingError::ParseIntError(_)) => regex_accepts(VERSION_PATTERN@) && (regex_group_text(
                VERSION_PATTERN@,
                url@,
                1,
            ) matches Some(d) && parsed_u32(d) is None),
            Err(_) => false,
        },
{
    let version = match issue_number(url) {
        Ok(v) => v,
        Err(e) => return Err(e),
    };
    let mut msg = String::new();
    msg.append("This week in #rust ");
    let digits = decimal_string(version as u64);
    msg.append(digits.as_str());
    msg.append(" ");
    msg.append(url);
    msg.append(" #rustlang");
    Ok((msg, version))
}

/// The part of `s` after its last `/` (all of `s` when it has none): the
/// last item of `s.split("/")`.
pub open spec fn after_last_slash(s: Seq<char>) -> Seq<char>
    decreases s.len(),
{
    if s.len() == 0 {
        s
    } else if s.last() == '/' {
        Seq::empty()
    } else {
        after_last_slash(s.drop_last()).push(s.last())
    }
}

/// The record key of a published post: the last segment of its URI.
pub fn record_key(uri: &str) -> (k: String)
    ensures
        k@ == after_last_slash(uri@),
{
    let cs = chars_of(uri);
    let mut start: usize = cs.len();
    assert(cs@.take(start as int) =~= cs@);
    assert(cs@.subrange(start as int, cs.len() as int) =~= Seq::<char>::empty());
    while start > 0 && cs[start - 1] != '/'
        invariant
            start <= cs.len(),
            after_last_slash(cs@) == after_last_slash(cs@.take(start as int)) + cs@.subrange(start as int, cs.len() as int),
        decreases start,
    {
        let ghost t = cs@.take(start as int);
        assert(t.drop_last() =~= cs@.take(start - 1));
        assert(cs@.subrange(start - 1, cs.len() as int) =~= seq![t.last()] + cs@.subrange(start as int, cs.len() as int));
        assert(after_last_slash(t) == after_last_slash(t.drop_last()).push(t.last()));
        assert(after_last_slash(t.drop_last()).push(t.last()) + cs@.subrange(start as int, cs.len() as int)
            =~= after_last_slash(t.drop_last()) + cs@.subrange(start - 1, cs.len() as int));
        start -= 1;
    }
    proof {
        let t = cs@.take(start as int);
        assert(after_last_slash(t) =~= Seq::empty());
        assert(after_last_slash(cs@) =~= cs@.subrange(start as int, cs.len() as int));
    }
    let mut k = String::new();
    let mut i: usize = start;
    while i < cs.len()
        invariant
            start <= i <= cs.len(),
            k@ == cs@.subrange(start as int, i as int),
        decreases cs.len() - i,
    {
        push_char(&mut k, cs[i]);
        assert(cs@.subrange(start as int, i + 1) =~= cs@.subrange(start as int, i as int).push(cs@[i as int]));
        i += 1;
    }
    k
}

/// The link to a published post of the account `did`.
pub open spec fn post_link(did: Seq<char>, rkey: Seq<char>) -> Seq<char> {
    "https://bsky.app/profile/"@ + did + "/post/"@ + rkey
}

/// The link to the post published at `uri` by the logged-in account `did`;
/// without an account there is no link.
pub fn post_url(uri: &str, did: Option<&str>) -> (r: Result<String, BskyPostingError>)
    ensures
        match did {
            None => r matches Err(BskyPostingError::InvalidDid),
            Some(d) => r matches Ok(s) && s@ == post_link(d@, after_last_slash(uri@)),
        },
{
    let rkey = record_key(uri);
    let did = match did {
        Some(d) => d,
        None => return Err(BskyPostingError::InvalidDid),
    };
    let mut s = String::new();
    s.append("https://bsky.app/profile/");
    s.append(did);
    s.append("/post/");
    s.append(rkey.as_str());
    Ok(s)
}

} // verus!

verus! {

/// The issue number in an announcement reads back as the number announced:
/// parsing the decimal text of a `u32` gives that `u32`.
pub proof fn lemma_issue_number_round_trip(n: u32)
    ensures
        parsed_u32(decimal(n as nat)) == Some(n),
{
    crate::text::lemma_decimal_digits(n as nat);
    let s = decimal(n as nat);
    assert(is_ascii_digit(s[0]));
}

/// The record key holds no `/`, and the URI ends with it.
pub proof fn lemma_record_key_is_last_segment(uri: Seq<char>)
    ensures
        !after_last_slash(uri).contains('/'),
        uri.len() >= after_last_slash(uri).len(),
        uri.subrange(uri.len() - after_last_slash(uri).len(), uri.len() as int) == after_last_slash(uri),
    decreases uri.len(),
{
    if uri.len() > 0 && uri.last() != '/' {
        lemma_record_key_is_last_segment(uri.drop_last());
        let k = after_last_slash(uri.drop_last());
        assert(after_last_slash(uri) == k.push(uri.last()));
        assert forall|i: int| 0 <= i < k.push(uri.last()).len() implies k.push(uri.last())[i] != '/' by {
            if i < k.len() {
                assert(k[i] != '/') by {
                    if k[i] == '/' {
                        assert(k.contains('/'));
                    }
                }
            }
        }
        assert(uri.subrange(uri.len() - k.len() - 1, uri.len() as int) =~= uri.drop_last().subrange(
            uri.drop_last().len() - k.len(),
            uri.drop_last().len() as int,
        ).push(uri.last()));
    } else if uri.len() > 0 {
        assert(uri.subrange(uri.len() as int, uri.len() as int) =~= Seq::<char>::empty());
    }
}

} // verus!
