//! Message received when a user leaves a channel.

use vstd::prelude::*;
use crate::commands::ParseErrorV;
use crate::commands::ServerMessageParseError;
use crate::commands::spec_try_get_channel_login;
use crate::commands::spec_try_get_prefix_nickname;
use crate::irc_message::IRCMessage;
use crate::irc_message::IRCMessageV;
use crate::strutil::str_eq;

verus! {

/// Received when you leave a channel.
#[derive(Debug, Clone, PartialEq, Eq)]
pub struct PartMessage {
    /// Login name of the channel that was left.
    pub channel_login: String,
    /// Login name of the user that left.
    pub user_login: String,
    /// The message this was decoded from.
    pub source: IRCMessage,
}

#[verifier::ext_equal]
pub struct PartMessageV {
    pub channel_login: Seq<char>,
    pub user_login: Seq<char>,
    pub source: IRCMessageV,
}

impl View for PartMessage {
    type V = PartMessageV;

    open spec fn view(&self) -> PartMessageV {
        PartMessageV {
            channel_login: self.channel_login@,
            user_login: self.user_login@,
            source: self.source@,
        }
    }
}

/// What decoding a `PART` returns.
pub open spec fn spec_part(m: IRCMessageV) -> Result<PartMessageV, ParseErrorV> {
    if m.command != "PART"@ {
        Err(ParseErrorV::MismatchedCommand)
    } else {
        match spec_try_get_channel_login(m) {
            Err(e) => Err(e),
            Ok(ch) => match spec_try_get_prefix_nickname(m) {
                Err(e) => Err(e),
                Ok(n) => Ok(PartMessageV { channel_login: ch, user_login: n, source: m }),
            },
        }
    }
}

impl PartMessage {
    /// Decodes a `PART` wire message.
    pub fn try_from(source: IRCMessage) -> (r: Result<PartMessage, ServerMessageParseError>)
        ensures
            match r {
                Ok(p) => spec_part(source@) == Ok::<_, ParseErrorV>(p@),
                Err(e) => spec_part(source@) == Err::<PartMessageV, _>(e@),
            },
    {
        if !str_eq(source.command.as_str(), "PART") {
            return Err(ServerMessageParseError::MismatchedCommand());
        }
        let channel_login = source.try_get_channel_login()?;
        let user_login = source.try_get_prefix_nickname()?;
        let r = PartMessage { channel_login, user_login, source };
        proof {
            assert(spec_part(r.source@) matches Ok(v) && r@ =~= v);
        }
        Ok(r)
    }
}

} // verus!
