//! Message received when a user joins a channel.

use vstd::prelude::*;
use crate::commands::ParseErrorV;
use crate::commands::ServerMessageParseError;
use crate::commands::spec_try_get_channel_login;
use crate::commands::spec_try_get_prefix_nickname;
use crate::irc_message::IRCMessage;
use crate::irc_message::IRCMessageV;
use crate::strutil::str_eq;

verus! {

/// Received when you successfully join a channel.
#[derive(Debug, Clone, PartialEq, Eq)]
pub struct JoinMessage {
    /// Login name of the channel that was joined.
    pub channel_login: String,
    /// Login name of the user that joined.
    pub user_login: String,
    /// The message this was decoded from.
    pub source: IRCMessage,
}

#[verifier::ext_equal]
pub struct JoinMessageV {
    pub channel_login: Seq<char>,
    pub user_login: Seq<char>,
    pub source: IRCMessageV,
}

impl View for JoinMessage {
    type V = JoinMessageV;

    open spec fn view(&self) -> JoinMessageV {
        JoinMessageV {
            channel_login: self.channel_login@,
            user_login: self.user_login@,
            source: self.source@,
        }
    }
}

/// What decoding a `JOIN` returns.
pub open spec fn spec_join(m: IRCMessageV) -> Result<JoinMessageV, ParseErrorV> {
    if m.command != "JOIN"@ {
        Err(ParseErrorV::MismatchedCommand)
    } else {
        match spec_try_get_channel_login(m) {
            Err(e) => Err(e),
            Ok(ch) => match spec_try_get_prefix_nickname(m) {
                Err(e) => Err(e),
                Ok(n) => Ok(JoinMessageV { channel_login: ch, user_login: n, source: m }),
            },
        }
    }
}

impl JoinMessage {
    /// Decodes a `JOIN` wire message.
    pub fn try_from(source: IRCMessage) -> (r: Result<JoinMessage, ServerMessageParseError>)
        ensures
            match r {
                Ok(j) => spec_join(source@) == Ok::<_, ParseErrorV>(j@),
                Err(e) => spec_join(source@) == Err::<JoinMessageV, _>(e@),
            },
    {
        if !str_eq(source.command.as_str(), "JOIN") {
            return Err(ServerMessageParseError::MismatchedCommand());
        }
        let channel_login = source.try_get_channel_login()?;
        let user_login = source.try_get_prefix_nickname()?;
        let r = JoinMessage { channel_login, user_login, source };
        proof {
            assert(spec_join(r.source@) matches Ok(v) && r@ =~= v);
        }
        Ok(r)
    }
}

} // verus!
