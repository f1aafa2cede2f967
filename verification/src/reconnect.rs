//! The server's request that the client reconnect.

use vstd::prelude::*;
use crate::commands::ParseErrorV;
use crate::commands::ServerMessageParseError;
use crate::irc_message::IRCMessage;
use crate::irc_message::IRCMessageV;
use crate::strutil::str_eq;

verus! {

/// A `RECONNECT`: the server is about to drop the connection.
#[derive(Debug, Clone, PartialEq, Eq)]
pub struct ReconnectMessage {
    /// The message this was decoded from.
    pub source: IRCMessage,
}

#[verifier::ext_equal]
pub struct ReconnectMessageV {
    pub source: IRCMessageV,
}

impl View for ReconnectMessage {
    type V = ReconnectMessageV;

    open spec fn view(&self) -> ReconnectMessageV {
        ReconnectMessageV { source: self.source@ }
    }
}

/// What decoding a `RECONNECT` returns.
pub open spec fn spec_reconnect(m: IRCMessageV) -> Result<ReconnectMessageV, ParseErrorV> {
    if m.command != "RECONNECT"@ {
        Err(ParseErrorV::MismatchedCommand)
    } else {
        Ok(ReconnectMessageV { source: m })
    }
}

impl ReconnectMessage {
    /// Decodes a `RECONNECT` wire message.
    pub fn try_from(source: IRCMessage) -> (r: Result<ReconnectMessage, ServerMessageParseError>)
        ensures
            match r {
                Ok(p) => spec_reconnect(source@) == Ok::<_, ParseErrorV>(p@),
                Err(e) => spec_reconnect(source@) == Err::<ReconnectMessageV, _>(e@),
            },
    {
        if !str_eq(source.command.as_str(), "RECONNECT") {
            return Err(ServerMessageParseError::MismatchedCommand());
        }
        let r = ReconnectMessage { source };
        proof {
            assert(spec_reconnect(r.source@) matches Ok(v) && r@ =~= v);
        }
        Ok(r)
    }
}

} // verus!
