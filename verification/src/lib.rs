//! A verified core for a Twitch IRC client connection.
//!
//! The crate models one authenticated IRC connection as a deterministic
//! state machine: commands arrive on a single queue, the machine owns the
//! lifecycle (`Initializing` -> `Open` -> `Closed`) and answers every
//! command with a new state plus the outward effects the driver must
//! perform.  Typed decoding of server messages is verified down to the
//! character level.

pub mod clearmsg;
pub mod commands;
pub mod connection;
pub mod event_loop;
pub mod irc_message;
pub mod join;
pub mod laws;
pub mod part;
pub mod ping;
pub mod pong;
pub mod privmsg;
pub mod reconnect;
pub mod strutil;
pub mod twitch_types;
