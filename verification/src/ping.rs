//! The server's liveness probe.

use vstd::prelude::*;
use crate::commands::ParseErrorV;
use crate::commands::ServerMessageParseError;
use crate::irc_message::IRCMessage;
use crate::irc_message::IRCMessageV;
use crate::strutil::str_eq;

verus! {

/// A `PING` from the server, to be answered with a `PONG`.
#[derive(Debug, Clone, PartialEq, Eq)]
pub struct PingMessage {
    /// The probe's argument, when one was sent.
    pub argument: Option<String>,
    /// The message this was decoded from.
    pub source: IRCMessage,
}

#[verifier::ext_equal]
pub struct PingMessageV {
    pub argument: Option<Seq<char>>,
    pub source: IRCMessageV,
}

impl View for PingMessage {
    type V = PingMessageV;

    open spec fn view(&self) -> PingMessageV {
        PingMessageV {
            argument: match &self.argument {
                Some(a) => Some(a@),
                None => None,
            },
            source: self.source@,
        }
    }
}

/// What decoding a `PING` returns.
pub open spec fn spec_ping(m: IRCMessageV) -> Result<PingMessageV, ParseErrorV> {
    if m.command != "PING"@ {
        Err(ParseErrorV::MismatchedCommand)
    } else {
        Ok(
            PingMessageV {
                argument: if m.params.len() > 0 {
                    Some(m.params[0])
                } else {
                    None
                },
                source: m,
            },
        )
    }
}

impl PingMessage {
    /// Decodes a `PING` wire message.
    pub fn try_from(source: IRCMessage) -> (r: Result<PingMessage, ServerMessageParseError>)
        ensures
            match r {
                Ok(p) => spec_ping(source@) == Ok::<_, ParseErrorV>(p@),
                Err(e) => spec_ping(source@) == Err::<PingMessageV, _>(e@),
            },
    {
        if !str_eq(source.command.as_str(), "PING") {
            return Err(ServerMessageParseError::MismatchedCommand());
        }
        let argument = if source.params.len() > 0 {
            Some(source.params[0].clone())
        } else {
            None
        };
        let r = PingMessage { argument, source };
        proof {
            assert(spec_ping(r.source@) matches Ok(v) && r@ =~= v);
        }
        Ok(r)
    }
}

} // verus!
