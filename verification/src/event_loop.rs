//! The per-connection event loop, as a deterministic state machine.
//!
//! Every effect on a connection arrives as one `ConnectionLoopCommand` on
//! a single queue. `process_command` consumes the current state and one
//! command and returns the next state together with the outward effects
//! (`LoopAction`s) the driver must perform, in order. The machine is
//! specified exactly by `spec_transition`.

use vstd::prelude::*;
use vstd::string::*;
use crate::commands::ServerMessage;
use crate::commands::ServerMessageV;
use crate::commands::spec_server_message;
use crate::connection::ConnectionError;
use crate::connection::ConnectionIncomingMessage;
use crate::connection::ConnectionIncomingMessageV;
use crate::irc_message::IRCMessage;
use crate::irc_message::IRCMessageV;

verus! {

/// Seconds between scheduled `PING`s while the connection is open.
pub const PING_EVERY_SECS: u64 = 30;

/// Seconds after a scheduled `PING` at which the answer is checked.
pub const CHECK_PONG_AFTER_SECS: u64 = 5;

/// The pair the credentials source yields: a login name and an optional
/// OAuth token.
#[derive(Debug, Clone, PartialEq, Eq)]
pub struct CredentialsPair {
    pub login: String,
    pub token: Option<String>,
}

#[verifier::ext_equal]
pub struct CredentialsPairV {
    pub login: Seq<char>,
    pub token: Option<Seq<char>>,
}

impl View for CredentialsPair {
    type V = CredentialsPairV;

    open spec fn view(&self) -> CredentialsPairV {
        CredentialsPairV {
            login: self.login@,
            token: match &self.token {
                Some(t) => Some(t@),
                None => None,
            },
        }
    }
}

/// A command on the loop's inbound queue. A reply slot is named by a
/// driver-chosen identifier; the driver must use each identifier for one
/// send only.
#[derive(Debug, PartialEq)]
pub enum ConnectionLoopCommand {
    /// From the user API: send this frame, with an optional reply slot.
    SendMessage(IRCMessage, Option<u64>),
    /// From the init task: the transport is open, or why it is not.
    TransportInitFinished(Result<CredentialsPair, ConnectionError>),
    /// From the outgoing forwarder: a send on the transport failed.
    SendError(),
    /// From the incoming forwarder: a frame, an inbound error, or EOF.
    IncomingMessage(Option<Result<IRCMessage, ConnectionError>>),
    /// From the ping task: send the scheduled `PING` now.
    SendPing(),
    /// From the ping task: check that the last `PING` was answered.
    CheckPong(),
}

#[verifier::ext_equal]
pub enum CommandV {
    SendMessage(IRCMessageV, Option<u64>),
    TransportInitFinished(Result<CredentialsPairV, ConnectionError>),
    SendError,
    IncomingMessage(Option<Result<IRCMessageV, ConnectionError>>),
    SendPing,
    CheckPong,
}

impl View for ConnectionLoopCommand {
    type V = CommandV;

    open spec fn view(&self) -> CommandV {
        match self {
            ConnectionLoopCommand::SendMessage(m, slot) => CommandV::SendMessage(m@, *slot),
            ConnectionLoopCommand::TransportInitFinished(r) => CommandV::TransportInitFinished(
                match r {
                    Ok(c) => Ok(c@),
                    Err(e) => Err(*e),
                },
            ),
            ConnectionLoopCommand::SendError() => CommandV::SendError,
            ConnectionLoopCommand::IncomingMessage(m) => CommandV::IncomingMessage(
                match m {
                    None => None,
                    Some(Ok(f)) => Some(Ok(f@)),
                    Some(Err(e)) => Some(Err(*e)),
                },
            ),
            ConnectionLoopCommand::SendPing() => CommandV::SendPing,
            ConnectionLoopCommand::CheckPong() => CommandV::CheckPong,
        }
    }
}

/// An outward effect of one transition, for the driver to perform, in
/// order.
#[derive(Debug, Clone, PartialEq)]
pub enum LoopAction {
    /// Put this event on the incoming-events channel.
    EmitEvent(ConnectionIncomingMessage),
    /// Hand this frame (with its reply slot) to the outgoing forwarder.
    SendFrame(IRCMessage, Option<u64>),
    /// Complete the reply slot with this error.
    ResolveReply(u64, ConnectionError),
    /// Spawn the incoming forwarder, outgoing forwarder and ping task.
    SpawnOpenTasks,
    /// Fire both kill signals of the open state.
    FireKillSignals,
}

#[verifier::ext_equal]
pub enum LoopActionV {
    EmitEvent(ConnectionIncomingMessageV),
    SendFrame(IRCMessageV, Option<u64>),
    ResolveReply(u64, ConnectionError),
    SpawnOpenTasks,
    FireKillSignals,
}

impl View for LoopAction {
    type V = LoopActionV;

    open spec fn view(&self) -> LoopActionV {
        match self {
            LoopAction::EmitEvent(e) => LoopActionV::EmitEvent(e@),
            LoopAction::SendFrame(m, slot) => LoopActionV::SendFrame(m@, *slot),
            LoopAction::ResolveReply(slot, e) => LoopActionV::ResolveReply(*slot, *e),
            LoopAction::SpawnOpenTasks => LoopActionV::SpawnOpenTasks,
            LoopAction::FireKillSignals => LoopActionV::FireKillSignals,
        }
    }
}

impl DeepView for LoopAction {
    type V = LoopActionV;

    open spec fn deep_view(&self) -> LoopActionV {
        self.view()
    }
}

/// The connection's lifecycle state, the single source of truth.
#[derive(Debug, Clone, PartialEq)]
pub enum ConnectionLoopState {
    /// Waiting for the transport; sends are buffered in arrival order.
    Initializing { commands_queue: Vec<(IRCMessage, Option<u64>)> },
    /// The transport is up; `pong_received` tracks the liveness probe.
    Open { pong_received: bool },
    /// Terminal; stores why the connection ended.
    Closed { reason_for_closure: ConnectionError },
}

#[verifier::ext_equal]
pub enum StateV {
    Initializing { commands_queue: Seq<(IRCMessageV, Option<u64>)> },
    Open { pong_received: bool },
    Closed { reason_for_closure: ConnectionError },
}

impl View for ConnectionLoopState {
    type V = StateV;

    open spec fn view(&self) -> StateV {
        match self {
            ConnectionLoopState::Initializing { commands_queue } => StateV::Initializing {
                commands_queue: commands_queue.deep_view(),
            },
            ConnectionLoopState::Open { pong_received } => StateV::Open {
                pong_received: *pong_received,
            },
            ConnectionLoopState::Closed { reason_for_closure } => StateV::Closed {
                reason_for_closure: *reason_for_closure,
            },
        }
    }
}

/// The state every connection starts in.
pub open spec fn spec_initial_state() -> StateV {
    StateV::Initializing { commands_queue: Seq::empty() }
}

impl ConnectionLoopState {
    /// The state every connection starts in.
    pub fn initial() -> (r: ConnectionLoopState)
        ensures
            r@ == spec_initial_state(),
    {
        let r = ConnectionLoopState::Initializing { commands_queue: Vec::new() };
        proof {
            assert(r@ =~= spec_initial_state());
        }
        r
    }
}

/// The `CAP REQ` frame that opens the handshake.
pub open spec fn spec_cap_req_frame() -> IRCMessageV {
    IRCMessageV {
        tags: Seq::empty(),
        prefix: None,
        command: "CAP"@,
        params: seq!["REQ"@, "twitch.tv/tags twitch.tv/commands"@],
    }
}

/// The `PASS oauth:<token>` frame.
pub open spec fn spec_pass_frame(token: Seq<char>) -> IRCMessageV {
    IRCMessageV {
        tags: Seq::empty(),
        prefix: None,
        command: "PASS"@,
        params: seq!["oauth:"@ + token],
    }
}

/// The `NICK <login>` frame.
pub open spec fn spec_nick_frame(login: Seq<char>) -> IRCMessageV {
    IRCMessageV { tags: Seq::empty(), prefix: None, command: "NICK"@, params: seq![login] }
}

/// The scheduled liveness probe.
pub open spec fn spec_ping_frame() -> IRCMessageV {
    IRCMessageV { tags: Seq::empty(), prefix: None, command: "PING"@, params: seq!["tmi.twitch.tv"@] }
}

/// The answer to the server's probe.
pub open spec fn spec_pong_frame() -> IRCMessageV {
    IRCMessageV { tags: Seq::empty(), prefix: None, command: "PONG"@, params: seq!["tmi.twitch.tv"@] }
}

/// The handshake frames in their required order: `CAP REQ`, then `PASS`
/// when a token is configured, then `NICK`.
pub open spec fn spec_handshake(creds: CredentialsPairV) -> Seq<IRCMessageV> {
    match creds.token {
        Some(t) => seq![spec_cap_req_frame(), spec_pass_frame(t), spec_nick_frame(creds.login)],
        None => seq![spec_cap_req_frame(), spec_nick_frame(creds.login)],
    }
}

/// The handshake as send actions.
pub open spec fn spec_handshake_actions(creds: CredentialsPairV) -> Seq<LoopActionV> {
    match creds.token {
        Some(t) => seq![
            LoopActionV::SendFrame(spec_cap_req_frame(), None),
            LoopActionV::SendFrame(spec_pass_frame(t), None),
            LoopActionV::SendFrame(spec_nick_frame(creds.login), None),
        ],
        None => seq![
            LoopActionV::SendFrame(spec_cap_req_frame(), None),
            LoopActionV::SendFrame(spec_nick_frame(creds.login), None),
        ],
    }
}

/// Answering every buffered reply slot with the terminal error, in queue
/// order.
pub open spec fn spec_resolve_queue(
    q: Seq<(IRCMessageV, Option<u64>)>,
    e: ConnectionError,
) -> Seq<LoopActionV>
    decreases q.len(),
{
    if q.len() == 0 {
        Seq::empty()
    } else {
        (match q[0].1 {
            Some(slot) => seq![LoopActionV::ResolveReply(slot, e)],
            None => Seq::empty(),
        }) + spec_resolve_queue(q.skip(1), e)
    }
}

/// Handing every buffered send to the outgoing forwarder, in queue order.
pub open spec fn spec_flush_queue(q: Seq<(IRCMessageV, Option<u64>)>) -> Seq<LoopActionV>
    decreases q.len(),
{
    if q.len() == 0 {
        Seq::empty()
    } else {
        seq![LoopActionV::SendFrame(q[0].0, q[0].1)] + spec_flush_queue(q.skip(1))
    }
}

/// The one `StateClosed` event of a closing transition.
pub open spec fn spec_closed_event(e: ConnectionError) -> LoopActionV {
    LoopActionV::EmitEvent(ConnectionIncomingMessageV::StateClosed { cause: e })
}

/// The full meaning of one step of the loop: from a state and a command
/// to the next state and the ordered outward effects.
///
/// While initializing, sends are buffered; a finished init either opens
/// the connection (spawning the open-state tasks, emitting `StateOpen`,
/// sending the handshake and flushing the buffer) or closes it (failing
/// every buffered reply slot with the cause, then emitting `StateClosed`).
/// While open, sends are forwarded; inbound frames are decoded and
/// published, `PING` is answered, `PONG` records liveness, `RECONNECT`
/// closes; a decode failure publishes the frame as generic and the
/// connection stays open. The closed state absorbs everything, answering
/// reply slots with the stored cause. Commands that cannot arrive in a
/// state (init finishing twice, frames or ping ticks while initializing)
/// are absorbed without effect.
pub open spec fn spec_transition(s: StateV, c: CommandV) -> (StateV, Seq<LoopActionV>) {
    match s {
        StateV::Initializing { commands_queue: q } => match c {
            CommandV::SendMessage(m, slot) => (
                StateV::Initializing { commands_queue: q.push((m, slot)) },
                Seq::empty(),
            ),
            CommandV::TransportInitFinished(Ok(creds)) => (
                StateV::Open { pong_received: false },
                seq![
                    LoopActionV::SpawnOpenTasks,
                    LoopActionV::EmitEvent(ConnectionIncomingMessageV::StateOpen),
                ] + spec_handshake_actions(creds) + spec_flush_queue(q),
            ),
            CommandV::TransportInitFinished(Err(e)) => (
                StateV::Closed { reason_for_closure: e },
                spec_resolve_queue(q, e) + seq![spec_closed_event(e)],
            ),
            CommandV::SendError => (
                StateV::Closed { reason_for_closure: ConnectionError::OutgoingError },
                spec_resolve_queue(q, ConnectionError::OutgoingError) + seq![
                    spec_closed_event(ConnectionError::OutgoingError),
                ],
            ),
            CommandV::IncomingMessage(_) => (s, Seq::empty()),
            CommandV::SendPing => (s, Seq::empty()),
            CommandV::CheckPong => (s, Seq::empty()),
        },
        StateV::Open { pong_received } => match c {
            CommandV::SendMessage(m, slot) => (s, seq![LoopActionV::SendFrame(m, slot)]),
            CommandV::TransportInitFinished(_) => (s, Seq::empty()),
            CommandV::SendError => (
                StateV::Closed { reason_for_closure: ConnectionError::OutgoingError },
                seq![
                    spec_closed_event(ConnectionError::OutgoingError),
                    LoopActionV::FireKillSignals,
                ],
            ),
            CommandV::IncomingMessage(None) => (
                StateV::Closed {
                    reason_for_closure: ConnectionError::RemoteUnexpectedlyClosedConnection,
                },
                seq![
                    spec_closed_event(ConnectionError::RemoteUnexpectedlyClosedConnection),
                    LoopActionV::FireKillSignals,
                ],
            ),
            CommandV::IncomingMessage(Some(Err(e))) => (
                StateV::Closed { reason_for_closure: e },
                seq![spec_closed_event(e), LoopActionV::FireKillSignals],
            ),
            CommandV::IncomingMessage(Some(Ok(m))) => match spec_server_message(m) {
                Ok(sm) => {
                    let emit = seq![
                        LoopActionV::EmitEvent(ConnectionIncomingMessageV::IncomingMessage(sm)),
                    ];
                    match sm {
                        ServerMessageV::Ping(p) => (
                            StateV::Open { pong_received },
                            emit + seq![LoopActionV::SendFrame(spec_pong_frame(), None)],
                        ),
                        ServerMessageV::Pong(p) => (StateV::Open { pong_received: true }, emit),
                        ServerMessageV::Reconnect(r) => (
                            StateV::Closed { reason_for_closure: ConnectionError::ReconnectCmd },
                            emit + seq![
                                spec_closed_event(ConnectionError::ReconnectCmd),
                                LoopActionV::FireKillSignals,
                            ],
                        ),
                        _ => (StateV::Open { pong_received }, emit),
                    }
                },
                Err(e) => (
                    StateV::Open { pong_received },
                    seq![
                        LoopActionV::EmitEvent(
                            ConnectionIncomingMessageV::IncomingMessage(
                                ServerMessageV::Generic(m),
                            ),
                        ),
                    ],
                ),
            },
            CommandV::SendPing => (
                StateV::Open { pong_received: false },
                seq![LoopActionV::SendFrame(spec_ping_frame(), None)],
            ),
            CommandV::CheckPong => if pong_received {
                (StateV::Open { pong_received }, Seq::empty())
            } else {
                (
                    StateV::Closed { reason_for_closure: ConnectionError::PingTimeout },
                    seq![
                        spec_closed_event(ConnectionError::PingTimeout),
                        LoopActionV::FireKillSignals,
                    ],
                )
            },
        },
        StateV::Closed { reason_for_closure } => match c {
            CommandV::SendMessage(m, Some(slot)) => (
                s,
                seq![LoopActionV::ResolveReply(slot, reason_for_closure)],
            ),
            _ => (s, Seq::empty()),
        },
    }
}

/// How the race between the transport constructor and the connect
/// timeout ended.
#[derive(Debug, Clone, Copy, PartialEq, Eq, Structural)]
pub enum ConnectOutcome {
    Connected,
    Failed,
    TimedOut,
}

/// The init task's decisions: no credentials means `LoginError`; with
/// credentials, the connect race decides between the transport being
/// handed over, `ConnectError` and `ConnectTimeout`.
pub fn init_outcome(creds: Option<CredentialsPair>, connect: ConnectOutcome) -> (r: Result<
    CredentialsPair,
    ConnectionError,
>)
    ensures
        match creds {
            None => r == Err::<CredentialsPair, _>(ConnectionError::LoginError),
            Some(c) => match connect {
                ConnectOutcome::Connected => r matches Ok(rc) && rc@ == c@,
                ConnectOutcome::Failed => r == Err::<CredentialsPair, _>(
                    ConnectionError::ConnectError,
                ),
                ConnectOutcome::TimedOut => r == Err::<CredentialsPair, _>(
                    ConnectionError::ConnectTimeout,
                ),
            },
        },
{
    match creds {
        None => Err(ConnectionError::LoginError),
        Some(c) => match connect {
            ConnectOutcome::Connected => Ok(c),
            ConnectOutcome::Failed => Err(ConnectionError::ConnectError),
            ConnectOutcome::TimedOut => Err(ConnectionError::ConnectTimeout),
        },
    }
}

/// What went wrong with one item of the transport's inbound stream.
#[derive(Debug, Clone, Copy, PartialEq, Eq, Structural)]
pub enum IncomingItemError {
    /// The transport itself failed.
    Transport,
    /// The line was not a well-formed IRC message.
    Parse,
}

/// The incoming forwarder's decisions: which command one inbound stream
/// item becomes, and whether the forwarder must exit afterwards (it does
/// on an error and on end of stream).
pub fn incoming_item_to_command(item: Option<Result<IRCMessage, IncomingItemError>>) -> (r: (
    ConnectionLoopCommand,
    bool,
))
    ensures
        match item {
            None => r.0@ == CommandV::IncomingMessage(None::<Result<IRCMessageV, ConnectionError>>)
                && r.1,
            Some(Ok(m)) => r.0@ == CommandV::IncomingMessage(
                Some(Ok::<IRCMessageV, ConnectionError>(m@)),
            ) && !r.1,
            Some(Err(IncomingItemError::Transport)) => r.0@ == CommandV::IncomingMessage(
                Some(Err::<IRCMessageV, _>(ConnectionError::IncomingError)),
            ) && r.1,
            Some(Err(IncomingItemError::Parse)) => r.0@ == CommandV::IncomingMessage(
                Some(Err::<IRCMessageV, _>(ConnectionError::IRCParseError)),
            ) && r.1,
        },
{
    match item {
        None => (ConnectionLoopCommand::IncomingMessage(None), true),
        Some(Ok(m)) => (ConnectionLoopCommand::IncomingMessage(Some(Ok(m))), false),
        Some(Err(IncomingItemError::Transport)) => (
            ConnectionLoopCommand::IncomingMessage(Some(Err(ConnectionError::IncomingError))),
            true,
        ),
        Some(Err(IncomingItemError::Parse)) => (
            ConnectionLoopCommand::IncomingMessage(Some(Err(ConnectionError::IRCParseError))),
            true,
        ),
    }
}

/// The outgoing forwarder's decisions after one send attempt: on failure,
/// a `SendError` command goes back to the loop and the reply slot (when
/// present) is answered with `OutgoingError`; on success the slot is
/// answered `Ok`. Either way the slot is answered exactly once.
pub fn outgoing_send_outcome(send_failed: bool) -> (r: (
    Option<ConnectionLoopCommand>,
    Result<(), ConnectionError>,
))
    ensures
        send_failed ==> (r.0 matches Some(c) && c@ == CommandV::SendError && r.1 == Err::<
            (),
            _,
        >(ConnectionError::OutgoingError)),
        !send_failed ==> r.0 is None && r.1 == Ok::<(), ConnectionError>(()),
{
    if send_failed {
        (Some(ConnectionLoopCommand::SendError()), Err(ConnectionError::OutgoingError))
    } else {
        (None, Ok(()))
    }
}

fn cap_req_frame() -> (r: IRCMessage)
    ensures
        r@ == spec_cap_req_frame(),
{
    let mut params: Vec<String> = Vec::new();
    params.push(String::from_str("REQ"));
    params.push(String::from_str("twitch.tv/tags twitch.tv/commands"));
    let r = IRCMessage::new_simple(String::from_str("CAP"), params);
    proof {
        assert(r@ =~= spec_cap_req_frame());
    }
    r
}

fn pass_frame(token: &str) -> (r: IRCMessage)
    ensures
        r@ == spec_pass_frame(token@),
{
    let mut arg = String::from_str("oauth:");
    arg.append(token);
    let mut params: Vec<String> = Vec::new();
    params.push(arg);
    let r = IRCMessage::new_simple(String::from_str("PASS"), params);
    proof {
        assert(r@ =~= spec_pass_frame(token@));
    }
    r
}

fn nick_frame(login: String) -> (r: IRCMessage)
    ensures
        r@ == spec_nick_frame(login@),
{
    let mut params: Vec<String> = Vec::new();
    params.push(login);
    let r = IRCMessage::new_simple(String::from_str("NICK"), params);
    proof {
        assert(r@ =~= spec_nick_frame(params.deep_view()[0]));
    }
    r
}

fn ping_frame() -> (r: IRCMessage)
    ensures
        r@ == spec_ping_frame(),
{
    let mut params: Vec<String> = Vec::new();
    params.push(String::from_str("tmi.twitch.tv"));
    let r = IRCMessage::new_simple(String::from_str("PING"), params);
    proof {
        assert(r@ =~= spec_ping_frame());
    }
    r
}

fn pong_frame() -> (r: IRCMessage)
    ensures
        r@ == spec_pong_frame(),
{
    let mut params: Vec<String> = Vec::new();
    params.push(String::from_str("tmi.twitch.tv"));
    let r = IRCMessage::new_simple(String::from_str("PONG"), params);
    proof {
        assert(r@ =~= spec_pong_frame());
    }
    r
}

fn resolve_queue_rec(
    q: &Vec<(IRCMessage, Option<u64>)>,
    from: usize,
    e: ConnectionError,
    out: &mut Vec<LoopAction>,
)
    requires
        from <= q.len(),
    ensures
        final(out).deep_view() =~= old(out).deep_view() + spec_resolve_queue(
            q.deep_view().skip(from as int),
            e,
        ),
    decreases q.len() - from,
{
    let ghost tail = q.deep_view().skip(from as int);
    if from == q.len() {
        proof {
            assert(tail.len() == 0);
            assert(final(out).deep_view() =~= old(out).deep_view() + Seq::<LoopActionV>::empty());
        }
        return ;
    }
    proof {
        assert(tail[0] == q.deep_view()[from as int]);
    }
    let ghost before = out.deep_view();
    if let Some(slot) = q[from].1 {
        out.push(LoopAction::ResolveReply(slot, e));
        proof {
            assert(out.deep_view() =~= before + seq![LoopActionV::ResolveReply(slot, e)]);
        }
    }
    let ghost mid = out.deep_view();
    resolve_queue_rec(q, from + 1, e, out);
    proof {
        assert(tail.skip(1) =~= q.deep_view().skip(from as int + 1));
        assert(final(out).deep_view() =~= before + spec_resolve_queue(tail, e));
    }
}

fn flush_queue_rec(q: &Vec<(IRCMessage, Option<u64>)>, from: usize, out: &mut Vec<LoopAction>)
    requires
        from <= q.len(),
    ensures
        final(out).deep_view() =~= old(out).deep_view() + spec_flush_queue(
            q.deep_view().skip(from as int),
        ),
    decreases q.len() - from,
{
    let ghost tail = q.deep_view().skip(from as int);
    if from == q.len() {
        proof {
            assert(tail.len() == 0);
            assert(final(out).deep_view() =~= old(out).deep_view() + Seq::<LoopActionV>::empty());
        }
        return ;
    }
    proof {
        assert(tail[0] == q.deep_view()[from as int]);
    }
    let ghost before = out.deep_view();
    let frame = q[from].0.duplicate();
    let slot = q[from].1;
    out.push(LoopAction::SendFrame(frame, slot));
    proof {
        assert(out.deep_view() =~= before + seq![LoopActionV::SendFrame(tail[0].0, tail[0].1)]);
    }
    flush_queue_rec(q, from + 1, out);
    proof {
        assert(tail.skip(1) =~= q.deep_view().skip(from as int + 1));
        assert(final(out).deep_view() =~= before + spec_flush_queue(tail));
    }
}

/// The closing path out of the initializing state: every buffered reply
/// slot is answered with the cause, then `StateClosed` is emitted.
fn initializing_transition_to_closed(
    q: Vec<(IRCMessage, Option<u64>)>,
    e: ConnectionError,
) -> (r: (ConnectionLoopState, Vec<LoopAction>))
    ensures
        r.0@ == (StateV::Closed { reason_for_closure: e }),
        r.1.deep_view() =~= spec_resolve_queue(q.deep_view(), e) + seq![spec_closed_event(e)],
{
    let mut out: Vec<LoopAction> = Vec::new();
    proof {
        assert(out.deep_view() =~= Seq::<LoopActionV>::empty());
        assert(q.deep_view().skip(0) =~= q.deep_view());
    }
    resolve_queue_rec(&q, 0, e, &mut out);
    out.push(LoopAction::EmitEvent(ConnectionIncomingMessage::StateClosed { cause: e }));
    proof {
        assert(out.deep_view() =~= spec_resolve_queue(q.deep_view(), e) + seq![
            spec_closed_event(e),
        ]);
    }
    (ConnectionLoopState::Closed { reason_for_closure: e }, out)
}

/// The closing path out of the open state: `StateClosed` is emitted, then
/// the kill signals fire (as the open state's destructor would).
fn open_transition_to_closed(e: ConnectionError) -> (r: (ConnectionLoopState, Vec<LoopAction>))
    ensures
        r.0@ == (StateV::Closed { reason_for_closure: e }),
        r.1.deep_view() =~= seq![spec_closed_event(e), LoopActionV::FireKillSignals],
{
    let mut out: Vec<LoopAction> = Vec::new();
    out.push(LoopAction::EmitEvent(ConnectionIncomingMessage::StateClosed { cause: e }));
    out.push(LoopAction::FireKillSignals);
    proof {
        assert(out.deep_view() =~= seq![spec_closed_event(e), LoopActionV::FireKillSignals]);
    }
    (ConnectionLoopState::Closed { reason_for_closure: e }, out)
}

/// One step of the loop: exactly `spec_transition` of the state and the
/// command.
pub fn process_command(state: ConnectionLoopState, command: ConnectionLoopCommand) -> (r: (
    ConnectionLoopState,
    Vec<LoopAction>,
))
    ensures
        r.0@ == spec_transition(state@, command@).0,
        r.1.deep_view() =~= spec_transition(state@, command@).1,
{
    match state {
        ConnectionLoopState::Initializing { commands_queue } => {
            let ghost qv = commands_queue.deep_view();
            match command {
                ConnectionLoopCommand::SendMessage(m, slot) => {
                    let ghost mv = m@;
                    let mut q = commands_queue;
                    let ghost before = q.deep_view();
                    q.push((m, slot));
                    proof {
                        assert(q.deep_view() =~= before.push((mv, slot)));
                    }
                    (ConnectionLoopState::Initializing { commands_queue: q }, Vec::new())
                },
                ConnectionLoopCommand::TransportInitFinished(Ok(creds)) => {
                    let ghost cv = creds@;
                    let mut out: Vec<LoopAction> = Vec::new();
                    out.push(LoopAction::SpawnOpenTasks);
                    out.push(LoopAction::EmitEvent(ConnectionIncomingMessage::StateOpen));
                    out.push(LoopAction::SendFrame(cap_req_frame(), None));
                    if let Some(token) = &creds.token {
                        out.push(LoopAction::SendFrame(pass_frame(token.as_str()), None));
                    }
                    out.push(LoopAction::SendFrame(nick_frame(creds.login), None));
                    proof {
                        assert(out.deep_view() =~= seq![
                            LoopActionV::SpawnOpenTasks,
                            LoopActionV::EmitEvent(ConnectionIncomingMessageV::StateOpen),
                        ] + spec_handshake_actions(cv));
                        assert(commands_queue.deep_view().skip(0) =~= qv);
                    }
                    flush_queue_rec(&commands_queue, 0, &mut out);
                    proof {
                        assert(out.deep_view() =~= (seq![
                            LoopActionV::SpawnOpenTasks,
                            LoopActionV::EmitEvent(ConnectionIncomingMessageV::StateOpen),
                        ] + spec_handshake_actions(cv)) + spec_flush_queue(qv));
                        assert(out.deep_view() =~= seq![
                            LoopActionV::SpawnOpenTasks,
                            LoopActionV::EmitEvent(ConnectionIncomingMessageV::StateOpen),
                        ] + spec_handshake_actions(cv) + spec_flush_queue(qv));
                    }
                    (ConnectionLoopState::Open { pong_received: false }, out)
                },
                ConnectionLoopCommand::TransportInitFinished(Err(e)) => {
                    initializing_transition_to_closed(commands_queue, e)
                },
                ConnectionLoopCommand::SendError() => {
                    initializing_transition_to_closed(
                        commands_queue,
                        ConnectionError::OutgoingError,
                    )
                },
                ConnectionLoopCommand::IncomingMessage(m) => {
                    (ConnectionLoopState::Initializing { commands_queue }, Vec::new())
                },
                ConnectionLoopCommand::SendPing() => {
                    (ConnectionLoopState::Initializing { commands_queue }, Vec::new())
                },
                ConnectionLoopCommand::CheckPong() => {
                    (ConnectionLoopState::Initializing { commands_queue }, Vec::new())
                },
            }
        },
        ConnectionLoopState::Open { pong_received } => match command {
            ConnectionLoopCommand::SendMessage(m, slot) => {
                let ghost mv = m@;
                let mut out: Vec<LoopAction> = Vec::new();
                out.push(LoopAction::SendFrame(m, slot));
                proof {
                    assert(out.deep_view() =~= seq![LoopActionV::SendFrame(mv, slot)]);
                }
                (ConnectionLoopState::Open { pong_received }, out)
            },
            ConnectionLoopCommand::TransportInitFinished(r) => {
                (ConnectionLoopState::Open { pong_received }, Vec::new())
            },
            ConnectionLoopCommand::SendError() => {
                open_transition_to_closed(ConnectionError::OutgoingError)
            },
            ConnectionLoopCommand::IncomingMessage(None) => {
                open_transition_to_closed(ConnectionError::RemoteUnexpectedlyClosedConnection)
            },
            ConnectionLoopCommand::IncomingMessage(Some(Err(e))) => {
                open_transition_to_closed(e)
            },
            ConnectionLoopCommand::IncomingMessage(Some(Ok(m))) => {
                let ghost mv = m@;
                match ServerMessage::try_from(m.duplicate()) {
                    Ok(sm) => {
                        let ghost smv = sm@;
                        let is_ping = matches!(&sm, ServerMessage::Ping(_));
                        let is_pong = matches!(&sm, ServerMessage::Pong(_));
                        let is_reconnect = matches!(&sm, ServerMessage::Reconnect(_));
                        let mut out: Vec<LoopAction> = Vec::new();
                        out.push(
                            LoopAction::EmitEvent(ConnectionIncomingMessage::IncomingMessage(sm)),
                        );
                        let ghost emit = seq![
                            LoopActionV::EmitEvent(
                                ConnectionIncomingMessageV::IncomingMessage(smv),
                            ),
                        ];
                        proof {
                            assert(out.deep_view() =~= emit);
                        }
                        if is_ping {
                            out.push(LoopAction::SendFrame(pong_frame(), None));
                            proof {
                                assert(out.deep_view() =~= emit + seq![
                                    LoopActionV::SendFrame(spec_pong_frame(), None),
                                ]);
                            }
                            (ConnectionLoopState::Open { pong_received }, out)
                        } else if is_pong {
                            (ConnectionLoopState::Open { pong_received: true }, out)
                        } else if is_reconnect {
                            out.push(
                                LoopAction::EmitEvent(
                                    ConnectionIncomingMessage::StateClosed {
                                        cause: ConnectionError::ReconnectCmd,
                                    },
                                ),
                            );
                            out.push(LoopAction::FireKillSignals);
                            proof {
                                assert(out.deep_view() =~= emit + seq![
                                    spec_closed_event(ConnectionError::ReconnectCmd),
                                    LoopActionV::FireKillSignals,
                                ]);
                            }
                            (
                                ConnectionLoopState::Closed {
                                    reason_for_closure: ConnectionError::ReconnectCmd,
                                },
                                out,
                            )
                        } else {
                            (ConnectionLoopState::Open { pong_received }, out)
                        }
                    },
                    Err(e) => {
                        let mut out: Vec<LoopAction> = Vec::new();
                        out.push(
                            LoopAction::EmitEvent(
                                ConnectionIncomingMessage::IncomingMessage(
                                    ServerMessage::new_generic(m),
                                ),
                            ),
                        );
                        proof {
                            assert(out.deep_view() =~= seq![
                                LoopActionV::EmitEvent(
                                    ConnectionIncomingMessageV::IncomingMessage(
                                        ServerMessageV::Generic(mv),
                                    ),
                                ),
                            ]);
                        }
                        (ConnectionLoopState::Open { pong_received }, out)
                    },
                }
            },
            ConnectionLoopCommand::SendPing() => {
                let mut out: Vec<LoopAction> = Vec::new();
                out.push(LoopAction::SendFrame(ping_frame(), None));
                proof {
                    assert(out.deep_view() =~= seq![
                        LoopActionV::SendFrame(spec_ping_frame(), None),
                    ]);
                }
                (ConnectionLoopState::Open { pong_received: false }, out)
            },
            ConnectionLoopCommand::CheckPong() => {
                if pong_received {
                    (ConnectionLoopState::Open { pong_received }, Vec::new())
                } else {
                    open_transition_to_closed(ConnectionError::PingTimeout)
                }
            },
        },
        ConnectionLoopState::Closed { reason_for_closure } => match command {
            ConnectionLoopCommand::SendMessage(m, slot) => {
                if let Some(slot) = slot {
                    let mut out: Vec<LoopAction> = Vec::new();
                    out.push(LoopAction::ResolveReply(slot, reason_for_closure));
                    proof {
                        assert(out.deep_view() =~= seq![
                            LoopActionV::ResolveReply(slot, reason_for_closure),
                        ]);
                    }
                    (ConnectionLoopState::Closed { reason_for_closure }, out)
                } else {
                    (ConnectionLoopState::Closed { reason_for_closure }, Vec::new())
                }
            },
            _ => (ConnectionLoopState::Closed { reason_for_closure }, Vec::new()),
        },
    }
}

} // verus!
