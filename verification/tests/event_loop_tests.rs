use twitch_irc::commands::ServerMessage;
use twitch_irc::connection::ConnectionError;
use twitch_irc::connection::ConnectionIncomingMessage;
use twitch_irc::event_loop::process_command;
use twitch_irc::event_loop::ConnectOutcome;
use twitch_irc::event_loop::ConnectionLoopCommand;
use twitch_irc::event_loop::ConnectionLoopState;
use twitch_irc::event_loop::CredentialsPair;
use twitch_irc::event_loop::IncomingItemError;
use twitch_irc::event_loop::LoopAction;
use twitch_irc::event_loop::incoming_item_to_command;
use twitch_irc::event_loop::init_outcome;
use twitch_irc::event_loop::outgoing_send_outcome;
use twitch_irc::event_loop::CHECK_PONG_AFTER_SECS;
use twitch_irc::event_loop::PING_EVERY_SECS;
use twitch_irc::irc_message::IRCMessage;

fn sent_frames(actions: &[LoopAction]) -> Vec<String> {
    actions
        .iter()
        .filter_map(|a| match a {
            LoopAction::SendFrame(m, _) => Some(m.as_raw_irc()),
            _ => None,
        })
        .collect()
}

fn open_state() -> ConnectionLoopState {
    let st = ConnectionLoopState::initial();
    let creds = CredentialsPair { login: "alice".to_owned(), token: None };
    let (st, _) = process_command(st, ConnectionLoopCommand::TransportInitFinished(Ok(creds)));
    st
}

#[test]
fn happy_path_sends_full_handshake() {
    let st = ConnectionLoopState::initial();
    let creds = CredentialsPair { login: "alice".to_owned(), token: Some("abcd".to_owned()) };
    let (st, actions) =
        process_command(st, ConnectionLoopCommand::TransportInitFinished(Ok(creds)));
    assert!(matches!(st, ConnectionLoopState::Open { pong_received: false }));
    assert_eq!(
        sent_frames(&actions),
        vec![
            "CAP REQ :twitch.tv/tags twitch.tv/commands".to_owned(),
            "PASS oauth:abcd".to_owned(),
            "NICK alice".to_owned(),
        ]
    );
    assert!(matches!(actions[0], LoopAction::SpawnOpenTasks));
    assert!(matches!(
        actions[1],
        LoopAction::EmitEvent(ConnectionIncomingMessage::StateOpen)
    ));
}

#[test]
fn no_token_sends_no_pass_frame() {
    let st = ConnectionLoopState::initial();
    let creds = CredentialsPair { login: "alice".to_owned(), token: None };
    let (_, actions) = process_command(st, ConnectionLoopCommand::TransportInitFinished(Ok(creds)));
    assert_eq!(
        sent_frames(&actions),
        vec![
            "CAP REQ :twitch.tv/tags twitch.tv/commands".to_owned(),
            "NICK alice".to_owned(),
        ]
    );
}

#[test]
fn init_failure_resolves_pending_sends_and_closes() {
    let st = ConnectionLoopState::initial();
    let frame = IRCMessage::new_simple("JOIN".to_owned(), vec!["#pajlada".to_owned()]);
    let (st, actions) = process_command(st, ConnectionLoopCommand::SendMessage(frame, Some(7)));
    assert!(actions.is_empty());
    assert_eq!(init_outcome(None, ConnectOutcome::Connected), Err(ConnectionError::LoginError));
    let (st, actions) = process_command(
        st,
        ConnectionLoopCommand::TransportInitFinished(Err(ConnectionError::LoginError)),
    );
    assert!(matches!(
        st,
        ConnectionLoopState::Closed { reason_for_closure: ConnectionError::LoginError }
    ));
    assert_eq!(
        actions,
        vec![
            LoopAction::ResolveReply(7, ConnectionError::LoginError),
            LoopAction::EmitEvent(ConnectionIncomingMessage::StateClosed {
                cause: ConnectionError::LoginError
            }),
        ]
    );
}

#[test]
fn ping_timeout_closes_the_connection() {
    // The ping task fires `SendPing` every 30 seconds and `CheckPong` 5
    // seconds after each one; here its two ticks are injected directly.
    assert_eq!(PING_EVERY_SECS, 30);
    assert_eq!(CHECK_PONG_AFTER_SECS, 5);
    let st = open_state();
    let (st, actions) = process_command(st, ConnectionLoopCommand::SendPing());
    assert!(matches!(st, ConnectionLoopState::Open { pong_received: false }));
    assert_eq!(sent_frames(&actions), vec!["PING tmi.twitch.tv".to_owned()]);
    let (st, actions) = process_command(st, ConnectionLoopCommand::CheckPong());
    assert!(matches!(
        st,
        ConnectionLoopState::Closed { reason_for_closure: ConnectionError::PingTimeout }
    ));
    assert_eq!(
        actions[0],
        LoopAction::EmitEvent(ConnectionIncomingMessage::StateClosed {
            cause: ConnectionError::PingTimeout
        })
    );
    assert_eq!(actions[1], LoopAction::FireKillSignals);
}

#[test]
fn pong_in_time_keeps_the_connection_open() {
    let st = open_state();
    let (st, _) = process_command(st, ConnectionLoopCommand::SendPing());
    let pong = IRCMessage::parse(":tmi.twitch.tv PONG tmi.twitch.tv :tmi.twitch.tv").unwrap();
    let (st, _) = process_command(st, ConnectionLoopCommand::IncomingMessage(Some(Ok(pong))));
    assert!(matches!(st, ConnectionLoopState::Open { pong_received: true }));
    let (st, actions) = process_command(st, ConnectionLoopCommand::CheckPong());
    assert!(matches!(st, ConnectionLoopState::Open { pong_received: true }));
    assert!(actions.is_empty());
}

#[test]
fn server_ping_is_answered_with_pong() {
    let st = open_state();
    let ping = IRCMessage::parse("PING :tmi.twitch.tv").unwrap();
    let (st, actions) = process_command(st, ConnectionLoopCommand::IncomingMessage(Some(Ok(ping))));
    assert!(matches!(st, ConnectionLoopState::Open { .. }));
    assert_eq!(sent_frames(&actions), vec!["PONG tmi.twitch.tv".to_owned()]);
    assert!(matches!(
        actions[0],
        LoopAction::EmitEvent(ConnectionIncomingMessage::IncomingMessage(ServerMessage::Ping(_)))
    ));
}

#[test]
fn reconnect_closes_with_reconnect_cause() {
    let st = open_state();
    let reconnect = IRCMessage::parse(":tmi.twitch.tv RECONNECT").unwrap();
    let (st, actions) =
        process_command(st, ConnectionLoopCommand::IncomingMessage(Some(Ok(reconnect))));
    assert!(matches!(
        st,
        ConnectionLoopState::Closed { reason_for_closure: ConnectionError::ReconnectCmd }
    ));
    assert!(actions.iter().any(|a| matches!(
        a,
        LoopAction::EmitEvent(ConnectionIncomingMessage::StateClosed {
            cause: ConnectionError::ReconnectCmd
        })
    )));
    // and the closed state absorbs everything that follows
    let (st, actions) = process_command(st, ConnectionLoopCommand::SendPing());
    assert!(actions.is_empty());
    assert!(matches!(st, ConnectionLoopState::Closed { .. }));
}

#[test]
fn malformed_typed_message_falls_back_to_generic() {
    let st = open_state();
    let bad = IRCMessage::parse(":x!x@x PRIVMSG").unwrap();
    let (st, actions) =
        process_command(st, ConnectionLoopCommand::IncomingMessage(Some(Ok(bad.clone()))));
    assert!(matches!(st, ConnectionLoopState::Open { .. }));
    assert_eq!(actions.len(), 1);
    match &actions[0] {
        LoopAction::EmitEvent(ConnectionIncomingMessage::IncomingMessage(sm)) => {
            assert!(matches!(sm, ServerMessage::Generic(_)));
            assert_eq!(IRCMessage::from(sm.clone()), bad);
        }
        other => panic!("unexpected action {:?}", other),
    }
}

#[test]
fn eof_while_open_closes_with_remote_closed() {
    let st = open_state();
    let (cmd, do_exit) = incoming_item_to_command(None);
    assert!(do_exit);
    let (st, actions) = process_command(st, cmd);
    assert!(matches!(
        st,
        ConnectionLoopState::Closed {
            reason_for_closure: ConnectionError::RemoteUnexpectedlyClosedConnection
        }
    ));
    assert!(matches!(
        actions[0],
        LoopAction::EmitEvent(ConnectionIncomingMessage::StateClosed { .. })
    ));
}

#[test]
fn transport_parse_error_closes_with_parse_cause() {
    let st = open_state();
    let (cmd, do_exit) = incoming_item_to_command(Some(Err(IncomingItemError::Parse)));
    assert!(do_exit);
    let (st, _) = process_command(st, cmd);
    assert!(matches!(
        st,
        ConnectionLoopState::Closed { reason_for_closure: ConnectionError::IRCParseError }
    ));
}

#[test]
fn send_while_open_forwards_the_frame_with_its_slot() {
    let st = open_state();
    let frame = IRCMessage::new_simple("JOIN".to_owned(), vec!["#pajlada".to_owned()]);
    let (st, actions) =
        process_command(st, ConnectionLoopCommand::SendMessage(frame.clone(), Some(5)));
    assert!(matches!(st, ConnectionLoopState::Open { .. }));
    assert_eq!(actions, vec![LoopAction::SendFrame(frame, Some(5))]);
}

#[test]
fn send_after_close_is_answered_with_the_terminal_cause() {
    let st = open_state();
    let (st, _) = process_command(st, ConnectionLoopCommand::SendError());
    assert!(matches!(
        st,
        ConnectionLoopState::Closed { reason_for_closure: ConnectionError::OutgoingError }
    ));
    let frame = IRCMessage::new_simple("JOIN".to_owned(), vec!["#pajlada".to_owned()]);
    let (st, actions) = process_command(st, ConnectionLoopCommand::SendMessage(frame, Some(9)));
    assert_eq!(actions, vec![LoopAction::ResolveReply(9, ConnectionError::OutgoingError)]);
    // no event is emitted after the close
    assert!(actions
        .iter()
        .all(|a| !matches!(a, LoopAction::EmitEvent(_))));
    assert!(matches!(st, ConnectionLoopState::Closed { .. }));
}

#[test]
fn init_outcome_maps_the_connect_race() {
    let creds = CredentialsPair { login: "alice".to_owned(), token: None };
    assert_eq!(
        init_outcome(Some(creds.clone()), ConnectOutcome::TimedOut),
        Err(ConnectionError::ConnectTimeout)
    );
    assert_eq!(
        init_outcome(Some(creds.clone()), ConnectOutcome::Failed),
        Err(ConnectionError::ConnectError)
    );
    assert_eq!(init_outcome(Some(creds.clone()), ConnectOutcome::Connected), Ok(creds));
}

#[test]
fn outgoing_send_outcome_reports_both_ways() {
    let (cmd, reply) = outgoing_send_outcome(false);
    assert!(cmd.is_none());
    assert_eq!(reply, Ok(()));
    let (cmd, reply) = outgoing_send_outcome(true);
    assert_eq!(cmd, Some(ConnectionLoopCommand::SendError()));
    assert_eq!(reply, Err(ConnectionError::OutgoingError));
}

#[test]
fn incoming_item_to_command_keeps_frames_flowing() {
    let frame = IRCMessage::parse("PING :tmi.twitch.tv").unwrap();
    let (cmd, do_exit) = incoming_item_to_command(Some(Ok(frame.clone())));
    assert!(!do_exit);
    assert_eq!(cmd, ConnectionLoopCommand::IncomingMessage(Some(Ok(frame))));
    let (cmd, do_exit) = incoming_item_to_command(Some(Err(IncomingItemError::Transport)));
    assert!(do_exit);
    assert_eq!(
        cmd,
        ConnectionLoopCommand::IncomingMessage(Some(Err(ConnectionError::IncomingError)))
    );
}
