//! What a connection reports outward: its terminal causes and the events
//! on the incoming-events channel.

use vstd::prelude::*;
use crate::commands::ServerMessage;
use crate::commands::ServerMessageV;

verus! {

/// Why a connection ended. The variant is the terminal cause stored in
/// the closed state and handed to every later send with a reply slot.
#[derive(Debug, Clone, Copy, PartialEq, Eq, Structural)]
pub enum ConnectionError {
    /// The credentials source failed.
    LoginError,
    /// The transport constructor failed.
    ConnectError,
    /// The transport constructor exceeded the connect timeout.
    ConnectTimeout,
    /// A send on the transport failed.
    OutgoingError,
    /// The transport's inbound side failed.
    IncomingError,
    /// An inbound line was not a well-formed IRC message.
    IRCParseError,
    /// The remote closed the connection while it was open.
    RemoteUnexpectedlyClosedConnection,
    /// No `PONG` arrived within the window after our `PING`.
    PingTimeout,
    /// The server asked us to reconnect.
    ReconnectCmd,
}

/// An event on the incoming-events channel.
#[derive(Debug, Clone, PartialEq)]
pub enum ConnectionIncomingMessage {
    /// A message arrived and was decoded (or wrapped as generic).
    IncomingMessage(ServerMessage),
    /// The connection reached the open state.
    StateOpen,
    /// The connection ended; no further event follows this one.
    StateClosed { cause: ConnectionError },
}

#[verifier::ext_equal]
pub enum ConnectionIncomingMessageV {
    IncomingMessage(ServerMessageV),
    StateOpen,
    StateClosed { cause: ConnectionError },
}

impl View for ConnectionIncomingMessage {
    type V = ConnectionIncomingMessageV;

    open spec fn view(&self) -> ConnectionIncomingMessageV {
        match self {
            ConnectionIncomingMessage::IncomingMessage(m) => {
                ConnectionIncomingMessageV::IncomingMessage(m@)
            },
            ConnectionIncomingMessage::StateOpen => ConnectionIncomingMessageV::StateOpen,
            ConnectionIncomingMessage::StateClosed { cause } => {
                ConnectionIncomingMessageV::StateClosed { cause: *cause }
            },
        }
    }
}

} // verus!
