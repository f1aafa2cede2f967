//! The server's answer to our liveness probe.

use vstd::prelude::*;
use crate::commands::ParseErrorV;
use crate::commands::ServerMessageParseError;
use crate::irc_message::IRCMessage;
use crate::irc_message::IRCMessageV;
use crate::strutil::str_eq;

verus! {

/// A `PONG` from the server.
#[derive(Debug, Clone, PartialEq, Eq)]
pub struct PongMessage {
    /// The probe's argument, when one was echoed.
    pub argument: Option<String>,
    /// The message this was decoded from.
    pub source: IRCMessage,
}

#[verifier::ext_equal]
pub struct PongMessageV {
    pub argument: Option<Seq<char>>,
    pub source: IRCMessageV,
}

impl View for PongMessage {
    type V = PongMessageV;

    open spec fn view(&self) -> PongMessageV {
        PongMessageV {
            argument: match &self.argument {
                Some(a) => Some(a@),
                None => None,
            },
            source: self.source@,
        }
    }
}

/// What decoding a `PONG` returns.
pub open spec fn spec_pong(m: IRCMessageV) -> Result<PongMessageV, ParseErrorV> {
    if m.command != "PONG"@ {
        Err(ParseErrorV::MismatchedCommand)
    } else {
        Ok(
            PongMessageV {
                argument: if m.params.len() > 0 {
                    Some(m.params[0])
                } else {
                    None
                },
                source: m,
            },
        )
    }
}

impl PongMessage {
    /// Decodes a `PONG` wire message.
    pub fn try_from(source: IRCMessage) -> (r: Result<PongMessage, ServerMessageParseError>)
        ensures
            match r {
                Ok(p) => spec_pong(source@) == Ok::<_, ParseErrorV>(p@),
                Err(e) => spec_pong(source@) == Err::<PongMessageV, _>(e@),
            },
    {
        if !str_eq(source.command.as_str(), "PONG") {
            return Err(ServerMessageParseError::MismatchedCommand());
        }
        let argument = if source.params.len() > 0 {
            Some(source.params[0].clone())
        } else {
            None
        };
        let r = PongMessage { argument, source };
        proof {
            assert(spec_pong(r.source@) matches Ok(v) && r@ =~= v);
        }
        Ok(r)
    }
}

} // verus!
