//! The parts of a chat message that the bot's decisions read, as plain
//! values.
use vstd::prelude::*;
use vstd::string::*;
use crate::text::{decimal, decimal_string};

verus! {

/// The emoji that marks the message where a collection stops.
pub const UNICODE_CHECKBOX: &'static str = "\u{2705}";

/// The emoji the bot reacts with on a link that is already listed.
pub const UNICODE_DUPLICATE: &'static str = "\u{1F1E9}";

/// A reaction on a message: a Unicode emoji, or a custom emoji of a guild.
pub enum ReactionKind {
    Unicode(String),
    Custom { id: u64 },
}

/// A rich embed attached to a message.
pub struct Embed {
    pub title: Option<String>,
    pub kind: Option<String>,
}

/// A chat message as the bot sees it.
pub struct ChatMessage {
    pub id: u64,
    pub channel_id: u64,
    /// `None` for a message in a private channel.
    pub guild_id: Option<u64>,
    pub author_is_bot: bool,
    pub content: String,
    pub reactions: Vec<ReactionKind>,
    pub embeds: Vec<Embed>,
}

/// Whether `r` is the Unicode emoji `emoji`.
pub open spec fn is_unicode(r: ReactionKind, emoji: Seq<char>) -> bool {
    r matches ReactionKind::Unicode(e) && e@ == emoji
}

/// The title of the first embed, if there is one and it has a title.
pub open spec fn first_title(embeds: Seq<Embed>) -> Option<Seq<char>> {
    if embeds.len() == 0 {
        None
    } else {
        match embeds[0].title {
            Some(t) => Some(t@),
            None => None,
        }
    }
}

impl ChatMessage {
    /// Whether the message carries a checkbox reaction.
    pub open spec fn has_checkbox(self) -> bool {
        exists|i: int| 0 <= i < self.reactions.len() && is_unicode(#[trigger] self.reactions@[i], UNICODE_CHECKBOX@)
    }

    /// The jump link of the message.
    pub open spec fn link_text(self) -> Seq<char> {
        let place = match self.guild_id {
            Some(g) => decimal(g as nat),
            None => "@me"@,
        };
        "https://discord.com/channels/"@ + place + "/"@ + decimal(self.channel_id as nat) + "/"@
            + decimal(self.id as nat)
    }

    /// Whether the message was sent in a private channel.
    pub fn is_private(&self) -> (r: bool)
        ensures
            r == self.guild_id is None,
    {
        self.guild_id.is_none()
    }

    /// The link that jumps to the message: guild, channel and message ids,
    /// with `@me` in place of the guild in a private channel.
    pub fn link(&self) -> (s: String)
        ensures
            s@ == self.link_text(),
    {
        let mut s = String::new();
        s.append("https://discord.com/channels/");
        match self.guild_id {
            Some(g) => {
                let gs = decimal_string(g);
                s.append(gs.as_str());
            },
            None => {
                s.append("@me");
            },
        }
        s.append("/");
        let cs = decimal_string(self.channel_id);
        s.append(cs.as_str());
        s.append("/");
        let ms = decimal_string(self.id);
        s.append(ms.as_str());
        s
    }
}

} // verus!
