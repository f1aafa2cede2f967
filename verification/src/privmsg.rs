//! An ordinary chat message.

use vstd::prelude::*;
use crate::commands::ParseErrorV;
use crate::commands::ServerMessageParseError;
use crate::commands::spec_try_get_badges;
use crate::commands::spec_try_get_bits;
use crate::commands::spec_try_get_channel_login;
use crate::commands::spec_try_get_color;
use crate::commands::spec_try_get_emotes;
use crate::commands::spec_try_get_message_text;
use crate::commands::spec_try_get_nonempty_tag_value;
use crate::commands::spec_try_get_prefix_nickname;
use crate::commands::spec_try_get_timestamp;
use crate::irc_message::IRCMessage;
use crate::irc_message::IRCMessageV;
use crate::irc_message::spec_tag_value;
use crate::strutil::str_eq;
use crate::twitch_types::Badge;
use crate::twitch_types::BadgeV;
use crate::twitch_types::Emote;
use crate::twitch_types::EmoteV;
use crate::twitch_types::RGBColor;

verus! {

/// A chat message posted to a channel.
#[derive(Debug, Clone, PartialEq, Eq)]
pub struct PrivmsgMessage {
    /// Login name of the channel the message was posted in.
    pub channel_login: String,
    /// Login name of the user that posted it.
    pub sender_login: String,
    /// The text, unwrapped from the `/me` marker when present.
    pub message_text: String,
    /// Whether the message was a `/me` action.
    pub is_action: bool,
    /// The sender's badges.
    pub badges: Vec<Badge>,
    /// The emotes used, located in `message_text`.
    pub emotes: Vec<Emote>,
    /// The sender's name color, when one is set.
    pub name_color: Option<RGBColor>,
    /// Bits donated with this message, when any.
    pub bits: Option<u64>,
    /// Unique id of this message.
    pub message_id: String,
    /// Server timestamp of the message, in milliseconds.
    pub server_timestamp: u64,
    /// The message this was decoded from.
    pub source: IRCMessage,
}

#[verifier::ext_equal]
pub struct PrivmsgMessageV {
    pub channel_login: Seq<char>,
    pub sender_login: Seq<char>,
    pub message_text: Seq<char>,
    pub is_action: bool,
    pub badges: Seq<BadgeV>,
    pub emotes: Seq<EmoteV>,
    pub name_color: Option<RGBColor>,
    pub bits: Option<int>,
    pub message_id: Seq<char>,
    pub server_timestamp: int,
    pub source: IRCMessageV,
}

impl View for PrivmsgMessage {
    type V = PrivmsgMessageV;

    open spec fn view(&self) -> PrivmsgMessageV {
        PrivmsgMessageV {
            channel_login: self.channel_login@,
            sender_login: self.sender_login@,
            message_text: self.message_text@,
            is_action: self.is_action,
            badges: self.badges.deep_view(),
            emotes: self.emotes.deep_view(),
            name_color: self.name_color,
            bits: match self.bits {
                Some(b) => Some(b as int),
                None => None,
            },
            message_id: self.message_id@,
            server_timestamp: self.server_timestamp as int,
            source: self.source@,
        }
    }
}

/// The sender's name color: absent, valueless or empty `color` tags mean
/// no color is set.
pub open spec fn spec_name_color(m: IRCMessageV) -> Result<Option<RGBColor>, ParseErrorV> {
    match spec_tag_value(m.tags, "color"@) {
        None => Ok(None),
        Some(None) => Ok(None),
        Some(Some(v)) => if v.len() == 0 {
            Ok(None)
        } else {
            match spec_try_get_color(m, "color"@) {
                Err(e) => Err(e),
                Ok(c) => Ok(Some(c)),
            }
        },
    }
}

/// What decoding a `PRIVMSG` returns.
pub open spec fn spec_privmsg(m: IRCMessageV) -> Result<PrivmsgMessageV, ParseErrorV> {
    if m.command != "PRIVMSG"@ {
        Err(ParseErrorV::MismatchedCommand)
    } else {
        match spec_try_get_message_text(m) {
            Err(e) => Err(e),
            Ok((text, is_action)) => match spec_try_get_channel_login(m) {
                Err(e) => Err(e),
                Ok(ch) => match spec_try_get_prefix_nickname(m) {
                    Err(e) => Err(e),
                    Ok(sender) => match spec_try_get_badges(m, "badges"@) {
                        Err(e) => Err(e),
                        Ok(badges) => match spec_try_get_emotes(m, "emotes"@, text) {
                            Err(e) => Err(e),
                            Ok(emotes) => match spec_name_color(m) {
                                Err(e) => Err(e),
                                Ok(color) => match spec_try_get_bits(m, "bits"@) {
                                    Err(e) => Err(e),
                                    Ok(bits) => match spec_try_get_nonempty_tag_value(m, "id"@) {
                                        Err(e) => Err(e),
                                        Ok(mid) => match spec_try_get_timestamp(
                                            m,
                                            "tmi-sent-ts"@,
                                        ) {
                                            Err(e) => Err(e),
                                            Ok(ts) => Ok(
                                                PrivmsgMessageV {
                                                    channel_login: ch,
                                                    sender_login: sender,
                                                    message_text: text,
                                                    is_action,
                                                    badges,
                                                    emotes,
                                                    name_color: color,
                                                    bits,
                                                    message_id: mid,
                                                    server_timestamp: ts,
                                                    source: m,
                                                },
                                            ),
                                        },
                                    },
                                },
                            },
                        },
                    },
                },
            },
        }
    }
}

impl PrivmsgMessage {
    /// Decodes a `PRIVMSG` wire message.
    pub fn try_from(source: IRCMessage) -> (r: Result<PrivmsgMessage, ServerMessageParseError>)
        ensures
            match r {
                Ok(p) => spec_privmsg(source@) == Ok::<_, ParseErrorV>(p@),
                Err(e) => spec_privmsg(source@) == Err::<PrivmsgMessageV, _>(e@),
            },
    {
        if !str_eq(source.command.as_str(), "PRIVMSG") {
            return Err(ServerMessageParseError::MismatchedCommand());
        }
        let (message_text, is_action) = source.try_get_message_text()?;
        let channel_login = source.try_get_channel_login()?;
        let sender_login = source.try_get_prefix_nickname()?;
        let badges = source.try_get_badges("badges")?;
        let emotes = source.try_get_emotes("emotes", message_text.as_str())?;
        let name_color = match source.get_tag_value("color") {
            None => None,
            Some(None) => None,
            Some(Some(v)) => {
                if v.as_str().unicode_len() == 0 {
                    None
                } else {
                    Some(source.try_get_color("color")?)
                }
            },
        };
        let bits = source.try_get_bits("bits")?;
        let message_id = source.try_get_nonempty_tag_value("id")?;
        let server_timestamp = source.try_get_timestamp("tmi-sent-ts")?;
        let r = PrivmsgMessage {
            channel_login,
            sender_login,
            message_text,
            is_action,
            badges,
            emotes,
            name_color,
            bits,
            message_id,
            server_timestamp,
            source,
        };
        proof {
            assert(spec_privmsg(r.source@) matches Ok(v) && r@ =~= v);
        }
        Ok(r)
    }
}

} // verus!
