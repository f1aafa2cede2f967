//! Message for when a single chat message is deleted.

use vstd::prelude::*;
use crate::commands::ParseErrorV;
use crate::commands::ServerMessageParseError;
use crate::commands::spec_try_get_channel_login;
use crate::commands::spec_try_get_message_text;
use crate::commands::spec_try_get_nonempty_tag_value;
use crate::commands::spec_try_get_timestamp;
use crate::irc_message::IRCMessage;
use crate::irc_message::IRCMessageV;
use crate::strutil::str_eq;

verus! {

/// Received when a single message is deleted from chat; the deleted
/// message is identified by `message_id`.
#[derive(Debug, Clone, PartialEq, Eq)]
pub struct ClearMsgMessage {
    /// Login name of the channel the deleted message was posted in.
    pub channel_login: String,
    /// Login name of the user that sent the deleted message.
    pub sender_login: String,
    /// ID of the message that was deleted.
    pub message_id: String,
    /// Text of the message that was deleted.
    pub message_text: String,
    /// Whether the deleted message was a `/me` action.
    pub is_action: bool,
    /// Server timestamp of the delete command, in milliseconds.
    pub server_timestamp: u64,
    /// The message this was decoded from.
    pub source: IRCMessage,
}

#[verifier::ext_equal]
pub struct ClearMsgMessageV {
    pub channel_login: Seq<char>,
    pub sender_login: Seq<char>,
    pub message_id: Seq<char>,
    pub message_text: Seq<char>,
    pub is_action: bool,
    pub server_timestamp: int,
    pub source: IRCMessageV,
}

impl View for ClearMsgMessage {
    type V = ClearMsgMessageV;

    open spec fn view(&self) -> ClearMsgMessageV {
        ClearMsgMessageV {
            channel_login: self.channel_login@,
            sender_login: self.sender_login@,
            message_id: self.message_id@,
            message_text: self.message_text@,
            is_action: self.is_action,
            server_timestamp: self.server_timestamp as int,
            source: self.source@,
        }
    }
}

/// What decoding a `CLEARMSG` returns.
pub open spec fn spec_clearmsg(m: IRCMessageV) -> Result<ClearMsgMessageV, ParseErrorV> {
    if m.command != "CLEARMSG"@ {
        Err(ParseErrorV::MismatchedCommand)
    } else {
        match spec_try_get_message_text(m) {
            Err(e) => Err(e),
            Ok((text, is_action)) => match spec_try_get_channel_login(m) {
                Err(e) => Err(e),
                Ok(ch) => match spec_try_get_nonempty_tag_value(m, "login"@) {
                    Err(e) => Err(e),
                    Ok(sender) => match spec_try_get_nonempty_tag_value(m, "target-msg-id"@) {
                        Err(e) => Err(e),
                        Ok(mid) => match spec_try_get_timestamp(m, "tmi-sent-ts"@) {
                            Err(e) => Err(e),
                            Ok(ts) => Ok(
                                ClearMsgMessageV {
                                    channel_login: ch,
                                    sender_login: sender,
                                    message_id: mid,
                                    message_text: text,
                                    is_action,
                                    server_timestamp: ts,
                                    source: m,
                                },
                            ),
                        },
                    },
                },
            },
        }
    }
}

impl ClearMsgMessage {
    /// Decodes a `CLEARMSG` wire message.
    pub fn try_from(source: IRCMessage) -> (r: Result<ClearMsgMessage, ServerMessageParseError>)
        ensures
            match r {
                Ok(c) => spec_clearmsg(source@) == Ok::<_, ParseErrorV>(c@),
                Err(e) => spec_clearmsg(source@) == Err::<ClearMsgMessageV, _>(e@),
            },
    {
        if !str_eq(source.command.as_str(), "CLEARMSG") {
            return Err(ServerMessageParseError::MismatchedCommand());
        }
        let (message_text, is_action) = source.try_get_message_text()?;
        let channel_login = source.try_get_channel_login()?;
        let sender_login = source.try_get_nonempty_tag_value("login")?;
        let message_id = source.try_get_nonempty_tag_value("target-msg-id")?;
        let server_timestamp = source.try_get_timestamp("tmi-sent-ts")?;
        let r = ClearMsgMessage {
            channel_login,
            sender_login,
            message_id,
            message_text,
            is_action,
            server_timestamp,
            source,
        };
        proof {
            assert(spec_clearmsg(r.source@) matches Ok(v) && r@ =~= v);
        }
        Ok(r)
    }
}

} // verus!
