//! The bot's per-message decisions: which messages it answers, which
//! command a message names, and what it reads out of a message.
use vstd::prelude::*;
use vstd::hash_set::StringHashSet;
use crate::discord::{ChatMessage, Embed, ReactionKind, first_title, is_unicode, UNICODE_CHECKBOX, UNICODE_DUPLICATE};
use crate::pattern::{Pattern, regex_accepts, regex_group_text};
use crate::links::LinksFile;
use crate::text::{occurs_in, parsed_unsigned, same_text};

verus! {

/// The pattern that finds a link in a message: a scheme, a `www` prefix or
/// a domain-like word followed by a slash, then a run without spaces that
/// may hold balanced parentheses and does not end in punctuation.
pub const URL_PATTERN: &'static str = r#"(?i)\b((?:https?://|www\d{0,3}[.]|[a-z0-9.\-]+[.][a-z]{2,4}/)(?:[^\s()<>]+|\(([^\s()<>]+|(\([^\s()<>]+\)))*\))+(?:\(([^\s()<>]+|(\([^\s()<>]+\)))*\)|[^\s`!()\[\]{};:'.,<>?«»“”‘’]))"#;

/// The emoji `🇮` (regional indicator I).
pub const UNICODE_INDICATOR_I: &'static str = "\u{1F1EE}";

/// The emoji `🛑` (stop sign).
pub const UNICODE_STOP_SIGN: &'static str = "\u{1F6D1}";

pub const CMD_COLLECT: &'static str = "!collect";
pub const CMD_SCRAPE: &'static str = "!scrape";
pub const CMD_ACK: &'static str = "!ack";
pub const HELP_COMMAND: &'static str = "!help";

/// What a message asks of the bot.
#[derive(PartialEq, Eq, Structural, Clone, Copy, Debug)]
pub enum Command {
    Collect,
    Ack,
    Scrape,
    Help,
    /// Any other text: the bot only checks it for a duplicate link.
    NoCommand,
}

/// The command named by a message text: the exact text of a command, or
/// `NoCommand`.
pub open spec fn command_of(content: Seq<char>) -> Command {
    if content == CMD_COLLECT@ {
        Command::Collect
    } else if content == CMD_ACK@ {
        Command::Ack
    } else if content == CMD_SCRAPE@ {
        Command::Scrape
    } else if content == HELP_COMMAND@ {
        Command::Help
    } else {
        Command::NoCommand
    }
}

/// Reads the command of a message text.
pub fn command_of_text(content: &str) -> (c: Command)
    ensures
        c == command_of(content@),
{
    if same_text(content, CMD_COLLECT) {
        Command::Collect
    } else if same_text(content, CMD_ACK) {
        Command::Ack
    } else if same_text(content, CMD_SCRAPE) {
        Command::Scrape
    } else if same_text(content, HELP_COMMAND) {
        Command::Help
    } else {
        Command::NoCommand
    }
}

/// Parses a channel id with `str::parse::<std::num::NonZeroU64>` (the
/// parser behind the chat library's channel ids).
/// Claimed, as the standard library documents it: the text is read as a
/// `u64` (an optional `+`, then ASCII digits, at least one, of a value that
/// fits), and zero is refused.
#[verifier::external_body]
fn parse_nonzero_u64(s: &str) -> (r: Option<u64>)
    ensures
        match r {
            Some(v) => parsed_unsigned(s@, u64::MAX as nat) == Some(v as nat) && v != 0,
            None => parsed_unsigned(s@, u64::MAX as nat) is None || parsed_unsigned(s@, u64::MAX as nat) == Some(0nat),
        },
{
    s.parse::<std::num::NonZeroU64>().ok().map(|n| n.get())
}

/// The channel a setting names, when the setting is present and is a
/// channel id.
pub fn channel_from_setting(setting: Option<&str>) -> (r: Option<u64>)
    ensures
        match setting {
            None => r is None,
            Some(s) => match parsed_unsigned(s@, u64::MAX as nat) {
                Some(v) => if v == 0 { r is None } else { r == Some(v as u64) },
                None => r is None,
            },
        },
{
    match setting {
        Some(s) => parse_nonzero_u64(s),
        None => None,
    }
}

/// The bot's state that its decisions read: the link pattern, the emojis
/// that make it pass over a message, and the channel it serves.
pub struct Handler {
    regex_url: Pattern,
    ignore_emojis: StringHashSet,
    channel_id: Option<u64>,
}

impl Handler {
    /// The pattern the handler finds links with.
    pub closed spec fn url_pattern(&self) -> Seq<char> {
        self.regex_url@
    }

    /// The emojis whose reaction makes the handler pass over a message.
    pub closed spec fn ignored_emojis(&self) -> Set<Seq<char>> {
        self.ignore_emojis@
    }

    /// The channel the handler serves, if one was configured.
    pub closed spec fn target_channel(&self) -> Option<u64> {
        self.channel_id
    }

    /// The link the handler finds in a text, if any.
    pub open spec fn url_in(&self, text: Seq<char>) -> Option<Seq<char>> {
        regex_group_text(self.url_pattern(), text, 0)
    }

    /// Whether the handler passes over a message: its author is a bot, or it
    /// carries a reaction with one of the ignored emojis.
    pub open spec fn ignores(&self, msg: ChatMessage) -> bool {
        ||| msg.author_is_bot
        ||| exists|i: int|
            0 <= i < msg.reactions.len() && (#[trigger] msg.reactions@[i] matches ReactionKind::Unicode(e)
                && self.ignored_emojis().contains(e@))
    }

    /// Whether the handler answers a message: it was sent in the configured
    /// channel, or in a private channel.
    pub open spec fn serves(&self, channel_id: u64, is_private: bool) -> bool {
        ||| is_private
        ||| self.target_channel() == Some(channel_id)
    }

    /// A handler that serves `channel_id` (and private channels), passes
    /// over messages marked 🇩, 🇮 or 🛑, and finds links with `URL_PATTERN`.
    pub fn new(channel_id: Option<u64>) -> (res: Result<Handler, regex::Error>)
        ensures
            res is Ok == regex_accepts(URL_PATTERN@),
            res matches Ok(h) ==> {
                &&& h.url_pattern() == URL_PATTERN@
                &&& h.target_channel() == channel_id
                &&& h.ignored_emojis() == set![UNICODE_DUPLICATE@, UNICODE_INDICATOR_I@, UNICODE_STOP_SIGN@]
            },
    {
        let regex_url = match Pattern::new(URL_PATTERN) {
            Ok(p) => p,
            Err(e) => return Err(e),
        };
        let mut ignore_emojis = StringHashSet::new();
        ignore_emojis.insert(UNICODE_DUPLICATE.to_owned());
        ignore_emojis.insert(UNICODE_INDICATOR_I.to_owned());
        ignore_emojis.insert(UNICODE_STOP_SIGN.to_owned());
        let h = Handler { regex_url, ignore_emojis, channel_id };
        assert(h.ignored_emojis() =~= set![UNICODE_DUPLICATE@, UNICODE_INDICATOR_I@, UNICODE_STOP_SIGN@]);
        Ok(h)
    }

    /// Whether a message in `channel_id` (private or not) is for the bot.
    pub fn serves_channel(&self, channel_id: u64, is_private: bool) -> (r: bool)
        ensures
            r == self.serves(channel_id, is_private),
    {
        let is_target_channel = match self.channel_id {
            Some(channel) => channel_id == channel,
            None => false,
        };
        is_target_channel || is_private
    }

    /// The command a message asks for, or `None` when the message is not for
    /// the bot.
    pub fn route(&self, msg: &ChatMessage) -> (r: Option<Command>)
        ensures
            r is None <==> !self.serves(msg.channel_id, msg.guild_id is None),
            r matches Some(c) ==> c == command_of(msg.content@),
    {
        if !self.serves_channel(msg.channel_id, msg.is_private()) {
            return None;
        }
        Some(command_of_text(msg.content.as_str()))
    }

    /// The first link in a message text.
    pub fn find_url(&self, msg: &str) -> (r: Option<String>)
        ensures
            match r {
                Some(u) => self.url_in(msg@) == Some(u@),
                None => self.url_in(msg@) is None,
            },
            r matches Some(u) ==> crate::text::occurs_in(u@, msg@),
    {
        self.regex_url.group_text(msg, 0)
    }

    /// Whether a message carries the checkbox that ends a collection.
    pub fn is_stop_msg(msg: &ChatMessage) -> (r: bool)
        ensures
            r == msg.has_checkbox(),
    {
        let mut i: usize = 0;
        while i < msg.reactions.len()
            invariant
                i <= msg.reactions.len(),
                forall|j: int| 0 <= j < i ==> !is_unicode(#[trigger] msg.reactions@[j], UNICODE_CHECKBOX@),
            decreases msg.reactions.len() - i,
        {
            match &msg.reactions[i] {
                ReactionKind::Unicode(e) => {
                    if same_text(e.as_str(), UNICODE_CHECKBOX) {
                        return true;
                    }
                },
                ReactionKind::Custom { .. } => {},
            }
            i += 1;
        }
        false
    }

    /// The title of the first embed of a message.
    pub fn get_link_title(embeds: &[Embed]) -> (r: Option<String>)
        ensures
            match r {
                Some(t) => first_title(embeds@) == Some(t@),
                None => first_title(embeds@) is None,
            },
    {
        if embeds.len() == 0 {
            None
        } else {
            match &embeds[0].title {
                Some(t) => Some(t.clone()),
                None => None,
            }
        }
    }

    /// Whether the handler passes over a message.
    pub fn ignore_msg(&self, msg: &ChatMessage) -> (r: bool)
        ensures
            r == self.ignores(*msg),
    {
        if msg.author_is_bot {
            return true;
        }
        let mut i: usize = 0;
        while i < msg.reactions.len()
            invariant
                i <= msg.reactions.len(),
                forall|j: int|
                    0 <= j < i ==> !(#[trigger] msg.reactions@[j] matches ReactionKind::Unicode(e)
                        && self.ignored_emojis().contains(e@)),
            decreases msg.reactions.len() - i,
        {
            match &msg.reactions[i] {
                ReactionKind::Unicode(e) => {
                    if self.ignore_emojis.contains(e.as_str()) {
                        return true;
                    }
                },
                ReactionKind::Custom { .. } => {},
            }
            i += 1;
        }
        false
    }

    /// Whether a message posts a link that is already in the links file:
    /// the message is not passed over, it holds a link, and the file (when
    /// there is one) contains that link. The bot then marks it with 🇩.
    pub open spec fn is_duplicate(&self, msg: ChatMessage, links: Option<Seq<char>>) -> bool {
        &&& !self.ignores(msg)
        &&& self.url_in(msg.content@) matches Some(u)
        &&& links matches Some(text)
        &&& occurs_in(u, text)
    }

    /// Whether to mark a message that is not a command as a duplicate.
    pub fn flags_duplicate(&self, msg: &ChatMessage, links: Option<&LinksFile>) -> (r: bool)
        ensures
            r == self.is_duplicate(
                *msg,
                match links {
                    Some(l) => Some(l@),
                    None => None,
                },
            ),
    {
        if self.ignore_msg(msg) {
            return false;
        }
        match self.find_url(msg.content.as_str()) {
            Some(capture) => match links {
                Some(links_file) => links_file.contains(capture.as_str()),
                None => false,
            },
            None => false,
        }
    }
}

} // verus!

verus! {

/// A posted link already in the links file is flagged, whatever else the
/// message says (also when the message is nothing but the link): when the
/// message is not passed over, the link found in it is `u`, and the file's
/// text contains `u`, `Handler::flags_duplicate` returns `true`. Without a
/// file, or when the file does not hold the link, it returns `false`.
pub proof fn lemma_listed_link_is_flagged(h: Handler, msg: ChatMessage, u: Seq<char>, text: Seq<char>)
    requires
        !h.ignores(msg),
        h.url_in(msg.content@) == Some(u),
    ensures
        occurs_in(u, text) ==> h.is_duplicate(msg, Some(text)),
        !occurs_in(u, text) ==> !h.is_duplicate(msg, Some(text)),
        !h.is_duplicate(msg, None),
{
}

/// The link of a message is searched in its whole text: the link a handler
/// finds is the leftmost match of its pattern over all of the text (across
/// line breaks too), as the regular-expression engine reports it; for a
/// handler made by `Handler::new` that pattern is `URL_PATTERN`.
pub proof fn lemma_url_search_covers_whole_text(h: Handler, text: Seq<char>)
    ensures
        h.url_in(text) == regex_group_text(h.url_pattern(), text, 0),
        h.url_pattern() == URL_PATTERN@ ==> h.url_in(text) == regex_group_text(URL_PATTERN@, text, 0),
{
}

} // verus!

