//! What holds of every run of the event loop: the laws of the trace of
//! outward effects, proved from `spec_transition` alone.

use vstd::prelude::*;
use vstd::multiset::Multiset;
use crate::connection::ConnectionError;
use crate::connection::ConnectionIncomingMessageV;
use crate::event_loop::CommandV;
use crate::event_loop::CredentialsPairV;
use crate::event_loop::LoopActionV;
use crate::event_loop::StateV;
use crate::event_loop::spec_closed_event;
use crate::event_loop::spec_flush_queue;
use crate::event_loop::spec_handshake;
use crate::event_loop::spec_handshake_actions;
use crate::event_loop::spec_initial_state;
use crate::event_loop::spec_resolve_queue;
use crate::event_loop::spec_transition;
use crate::irc_message::IRCMessageV;

verus! {

broadcast use vstd::multiset::group_multiset_axioms;

/// The whole run: from a state through a command sequence to the final
/// state and the concatenation of all outward effects, in order.
pub open spec fn spec_run(s: StateV, cmds: Seq<CommandV>) -> (StateV, Seq<LoopActionV>)
    decreases cmds.len(),
{
    if cmds.len() == 0 {
        (s, Seq::empty())
    } else {
        let step = spec_transition(s, cmds[0]);
        let rest = spec_run(step.0, cmds.skip(1));
        (rest.0, step.1 + rest.1)
    }
}

pub open spec fn is_closed_event(a: LoopActionV) -> bool {
    match a {
        LoopActionV::EmitEvent(ConnectionIncomingMessageV::StateClosed { cause }) => true,
        _ => false,
    }
}

pub open spec fn is_open_event(a: LoopActionV) -> bool {
    match a {
        LoopActionV::EmitEvent(ConnectionIncomingMessageV::StateOpen) => true,
        _ => false,
    }
}

pub open spec fn is_incoming_event(a: LoopActionV) -> bool {
    match a {
        LoopActionV::EmitEvent(ConnectionIncomingMessageV::IncomingMessage(m)) => true,
        _ => false,
    }
}

/// How many `StateClosed` events stand in the effects.
pub open spec fn count_closed(acts: Seq<LoopActionV>) -> int
    decreases acts.len(),
{
    if acts.len() == 0 {
        0
    } else {
        (if is_closed_event(acts[0]) {
            1int
        } else {
            0int
        }) + count_closed(acts.skip(1))
    }
}

/// How many `StateOpen` events stand in the effects.
pub open spec fn count_open(acts: Seq<LoopActionV>) -> int
    decreases acts.len(),
{
    if acts.len() == 0 {
        0
    } else {
        (if is_open_event(acts[0]) {
            1int
        } else {
            0int
        }) + count_open(acts.skip(1))
    }
}

/// How many `IncomingMessage` events stand in the effects.
pub open spec fn count_incoming(acts: Seq<LoopActionV>) -> int
    decreases acts.len(),
{
    if acts.len() == 0 {
        0
    } else {
        (if is_incoming_event(acts[0]) {
            1int
        } else {
            0int
        }) + count_incoming(acts.skip(1))
    }
}

/// The frames sent to the transport, in order.
pub open spec fn frames_of(acts: Seq<LoopActionV>) -> Seq<IRCMessageV>
    decreases acts.len(),
{
    if acts.len() == 0 {
        Seq::empty()
    } else {
        (match acts[0] {
            LoopActionV::SendFrame(m, slot) => seq![m],
            _ => Seq::<IRCMessageV>::empty(),
        }) + frames_of(acts.skip(1))
    }
}

pub proof fn lemma_counts_add(a: Seq<LoopActionV>, b: Seq<LoopActionV>)
    ensures
        count_closed(a + b) == count_closed(a) + count_closed(b),
        count_open(a + b) == count_open(a) + count_open(b),
        count_incoming(a + b) == count_incoming(a) + count_incoming(b),
        frames_of(a + b) =~= frames_of(a) + frames_of(b),
    decreases a.len(),
{
    if a.len() == 0 {
        assert(a + b =~= b);
        assert(frames_of(a) =~= Seq::<IRCMessageV>::empty());
    } else {
        assert((a + b).len() > 0);
        assert((a + b)[0] == a[0]);
        assert((a + b).skip(1) =~= a.skip(1) + b);
        lemma_counts_add(a.skip(1), b);
    }
}

pub proof fn lemma_counts_singleton(x: LoopActionV)
    ensures
        count_closed(seq![x]) == (if is_closed_event(x) {
            1int
        } else {
            0int
        }),
        count_open(seq![x]) == (if is_open_event(x) {
            1int
        } else {
            0int
        }),
        count_incoming(seq![x]) == (if is_incoming_event(x) {
            1int
        } else {
            0int
        }),
        frames_of(seq![x]) =~= (match x {
            LoopActionV::SendFrame(m, slot) => seq![m],
            _ => Seq::<IRCMessageV>::empty(),
        }),
{
    assert(seq![x].skip(1) =~= Seq::<LoopActionV>::empty());
    assert(count_closed(Seq::<LoopActionV>::empty()) == 0);
    assert(count_open(Seq::<LoopActionV>::empty()) == 0);
    assert(count_incoming(Seq::<LoopActionV>::empty()) == 0);
    assert(frames_of(Seq::<LoopActionV>::empty()) =~= Seq::<IRCMessageV>::empty());
    assert(seq![x][0] == x);
}

/// Counting nothing means no position holds one, and the other way round.
pub proof fn lemma_counts_zero(acts: Seq<LoopActionV>)
    ensures
        (count_closed(acts) == 0) == (forall|k: int|
            0 <= k < acts.len() ==> !is_closed_event(#[trigger] acts[k])),
        (count_open(acts) == 0) == (forall|k: int|
            0 <= k < acts.len() ==> !is_open_event(#[trigger] acts[k])),
        (count_incoming(acts) == 0) == (forall|k: int|
            0 <= k < acts.len() ==> !is_incoming_event(#[trigger] acts[k])),
        count_closed(acts) >= 0,
        count_open(acts) >= 0,
        count_incoming(acts) >= 0,
    decreases acts.len(),
{
    if acts.len() > 0 {
        lemma_counts_zero(acts.skip(1));
        assert forall|k: int| 1 <= k < acts.len() implies acts[k] == acts.skip(1)[k - 1] by {}
    }
}

/// A positive count names a position.
pub proof fn lemma_count_open_pos(acts: Seq<LoopActionV>)
    requires
        count_open(acts) > 0,
    ensures
        exists|i: int| 0 <= i < acts.len() && is_open_event(#[trigger] acts[i]),
    decreases acts.len(),
{
    if acts.len() > 0 {
        if is_open_event(acts[0]) {
            assert(is_open_event(acts[0]));
        } else {
            lemma_counts_zero(acts.skip(1));
            lemma_count_open_pos(acts.skip(1));
            let i = choose|i: int| 0 <= i < acts.skip(1).len() && is_open_event(
                #[trigger] acts.skip(1)[i],
            );
            assert(acts[i + 1] == acts.skip(1)[i]);
            assert(is_open_event(acts[i + 1]));
        }
    }
}

/// Resolving the buffered queue produces reply resolutions and nothing
/// else.
pub proof fn lemma_resolve_queue_shape(q: Seq<(IRCMessageV, Option<u64>)>, e: ConnectionError)
    ensures
        count_closed(spec_resolve_queue(q, e)) == 0,
        count_open(spec_resolve_queue(q, e)) == 0,
        count_incoming(spec_resolve_queue(q, e)) == 0,
        frames_of(spec_resolve_queue(q, e)) =~= Seq::<IRCMessageV>::empty(),
        forall|k: int|
            0 <= k < spec_resolve_queue(q, e).len() ==> (#[trigger] spec_resolve_queue(q, e)[k])
                is ResolveReply,
    decreases q.len(),
{
    if q.len() > 0 {
        lemma_resolve_queue_shape(q.skip(1), e);
        let head: Seq<LoopActionV> = match q[0].1 {
            Some(slot) => seq![LoopActionV::ResolveReply(slot, e)],
            None => Seq::empty(),
        };
        if let Some(slot) = q[0].1 {
            lemma_counts_singleton(LoopActionV::ResolveReply(slot, e));
        } else {
            assert(frames_of(head) =~= Seq::<IRCMessageV>::empty());
        }
        lemma_counts_add(head, spec_resolve_queue(q.skip(1), e));
        assert forall|k: int|
            0 <= k < spec_resolve_queue(q, e).len() implies (#[trigger] spec_resolve_queue(q, e)[k])
            is ResolveReply by {
            if k >= head.len() {
                assert(spec_resolve_queue(q, e)[k] == spec_resolve_queue(q.skip(1), e)[k
                    - head.len()]);
            }
        }
    }
}

/// Flushing the buffered queue produces sends and nothing else.
pub proof fn lemma_flush_queue_shape(q: Seq<(IRCMessageV, Option<u64>)>)
    ensures
        count_closed(spec_flush_queue(q)) == 0,
        count_open(spec_flush_queue(q)) == 0,
        count_incoming(spec_flush_queue(q)) == 0,
        forall|k: int|
            0 <= k < spec_flush_queue(q).len() ==> (#[trigger] spec_flush_queue(q)[k])
                is SendFrame,
    decreases q.len(),
{
    if q.len() > 0 {
        lemma_flush_queue_shape(q.skip(1));
        let head = seq![LoopActionV::SendFrame(q[0].0, q[0].1)];
        lemma_counts_singleton(LoopActionV::SendFrame(q[0].0, q[0].1));
        lemma_counts_add(head, spec_flush_queue(q.skip(1)));
        assert forall|k: int|
            0 <= k < spec_flush_queue(q).len() implies (#[trigger] spec_flush_queue(q)[k])
            is SendFrame by {
            if k >= 1 {
                assert(spec_flush_queue(q)[k] == spec_flush_queue(q.skip(1))[k - 1]);
            }
        }
    }
}

/// The handshake actions send exactly the handshake frames and nothing
/// else.
pub proof fn lemma_handshake_shape(creds: CredentialsPairV)
    ensures
        count_closed(spec_handshake_actions(creds)) == 0,
        count_open(spec_handshake_actions(creds)) == 0,
        count_incoming(spec_handshake_actions(creds)) == 0,
        frames_of(spec_handshake_actions(creds)) =~= spec_handshake(creds),
        forall|k: int|
            0 <= k < spec_handshake_actions(creds).len() ==> (
            #[trigger] spec_handshake_actions(creds)[k]) is SendFrame,
{
    let a = spec_handshake_actions(creds);
    let cap = LoopActionV::SendFrame(crate::event_loop::spec_cap_req_frame(), None);
    let nick = LoopActionV::SendFrame(crate::event_loop::spec_nick_frame(creds.login), None);
    lemma_counts_singleton(cap);
    lemma_counts_singleton(nick);
    match creds.token {
        Some(t) => {
            let pass = LoopActionV::SendFrame(crate::event_loop::spec_pass_frame(t), None);
            lemma_counts_singleton(pass);
            lemma_counts_add(seq![pass], seq![nick]);
            lemma_counts_add(seq![cap], seq![pass] + seq![nick]);
            assert(a =~= seq![cap] + (seq![pass] + seq![nick]));
            assert(frames_of(a) =~= spec_handshake(creds));
            assert forall|k: int| 0 <= k < a.len() implies (#[trigger] a[k]) is SendFrame by {
                assert(a[0] == cap);
                assert(a[1] == pass);
                assert(a[2] == nick);
            }
        },
        None => {
            lemma_counts_add(seq![cap], seq![nick]);
            assert(a =~= seq![cap] + seq![nick]);
            assert(frames_of(a) =~= spec_handshake(creds));
            assert forall|k: int| 0 <= k < a.len() implies (#[trigger] a[k]) is SendFrame by {
                assert(a[0] == cap);
                assert(a[1] == nick);
            }
        },
    }
}

/// After a `StateClosed` event within one step, only the kill signals
/// follow.
pub open spec fn after_closed_only_kills(acts: Seq<LoopActionV>) -> bool {
    forall|i: int, j: int|
        0 <= i < j < acts.len() && is_closed_event(#[trigger] acts[i]) ==> (#[trigger] acts[j])
            is FireKillSignals
}

/// Everything one step of the loop can do, sorted by where the step
/// starts and ends: how many of each event it emits, that a closed state
/// absorbs, that frames flow only out of an opened connection, and that
/// the opening step sends the handshake frames first.
pub proof fn lemma_step(s: StateV, c: CommandV)
    ensures
        ({
            let (s2, a) = spec_transition(s, c);
            &&& count_closed(a) == (if !(s is Closed) && s2 is Closed {
                1int
            } else {
                0int
            })
            &&& count_open(a) == (if s is Initializing && s2 is Open {
                1int
            } else {
                0int
            })
            &&& (s is Closed ==> s2 == s)
            &&& (!(s is Open) ==> count_incoming(a) == 0)
            &&& (s is Initializing && !(s2 is Open) ==> frames_of(a) =~= Seq::<
                IRCMessageV,
            >::empty())
            &&& (s is Closed ==> frames_of(a) =~= Seq::<IRCMessageV>::empty())
            &&& (s is Open ==> s2 is Open || s2 is Closed)
            &&& (s is Initializing && s2 is Initializing ==> a =~= Seq::<LoopActionV>::empty())
            &&& after_closed_only_kills(a)
            &&& (s is Initializing && s2 is Open ==> exists|creds: CredentialsPairV|
                c == CommandV::TransportInitFinished(Ok::<CredentialsPairV, ConnectionError>(creds))
                    && frames_of(a).len() >= spec_handshake(creds).len() && frames_of(a).take(
                    spec_handshake(creds).len() as int,
                ) =~= spec_handshake(creds))
        }),
{
    let (s2, a) = spec_transition(s, c);
    match s {
        StateV::Initializing { commands_queue: q } => match c {
            CommandV::SendMessage(m, slot) => {
                assert(a =~= Seq::<LoopActionV>::empty());
            },
            CommandV::TransportInitFinished(Ok(creds)) => {
                let pre = seq![
                    LoopActionV::SpawnOpenTasks,
                    LoopActionV::EmitEvent(ConnectionIncomingMessageV::StateOpen),
                ];
                let hs = spec_handshake_actions(creds);
                let fl = spec_flush_queue(q);
                assert(a == pre + hs + fl);
                lemma_counts_singleton(LoopActionV::SpawnOpenTasks);
                lemma_counts_singleton(
                    LoopActionV::EmitEvent(ConnectionIncomingMessageV::StateOpen),
                );
                assert(pre =~= seq![LoopActionV::SpawnOpenTasks] + seq![
                    LoopActionV::EmitEvent(ConnectionIncomingMessageV::StateOpen),
                ]);
                lemma_counts_add(
                    seq![LoopActionV::SpawnOpenTasks],
                    seq![LoopActionV::EmitEvent(ConnectionIncomingMessageV::StateOpen)],
                );
                lemma_handshake_shape(creds);
                lemma_flush_queue_shape(q);
                lemma_counts_add(pre, hs);
                lemma_counts_add(pre + hs, fl);
                assert(count_closed(a) == 0);
                assert(count_open(a) == 1);
                assert(count_incoming(a) == 0);
                lemma_counts_zero(a);
                assert(after_closed_only_kills(a));
                assert(frames_of(pre) =~= Seq::<IRCMessageV>::empty());
                assert(frames_of(a) =~= spec_handshake(creds) + frames_of(fl));
                assert(frames_of(a).take(spec_handshake(creds).len() as int) =~= spec_handshake(
                    creds,
                ));
            },
            CommandV::TransportInitFinished(Err(e)) => {
                lemma_init_close_shape(q, e);
            },
            CommandV::SendError => {
                lemma_init_close_shape(q, ConnectionError::OutgoingError);
            },
            CommandV::IncomingMessage(m) => {
                assert(a =~= Seq::<LoopActionV>::empty());
            },
            CommandV::SendPing => {
                assert(a =~= Seq::<LoopActionV>::empty());
            },
            CommandV::CheckPong => {
                assert(a =~= Seq::<LoopActionV>::empty());
            },
        },
        StateV::Open { pong_received } => match c {
            CommandV::SendMessage(m, slot) => {
                lemma_counts_singleton(LoopActionV::SendFrame(m, slot));
            },
            CommandV::TransportInitFinished(r) => {
                assert(a =~= Seq::<LoopActionV>::empty());
            },
            CommandV::SendError => {
                lemma_open_close_shape(ConnectionError::OutgoingError);
            },
            CommandV::IncomingMessage(None) => {
                lemma_open_close_shape(ConnectionError::RemoteUnexpectedlyClosedConnection);
            },
            CommandV::IncomingMessage(Some(Err(e))) => {
                lemma_open_close_shape(e);
            },
            CommandV::IncomingMessage(Some(Ok(m))) => {
                match crate::commands::spec_server_message(m) {
                    Ok(sm) => {
                        let emit = LoopActionV::EmitEvent(
                            ConnectionIncomingMessageV::IncomingMessage(sm),
                        );
                        lemma_counts_singleton(emit);
                        match sm {
                            crate::commands::ServerMessageV::Ping(p) => {
                                let snd = LoopActionV::SendFrame(
                                    crate::event_loop::spec_pong_frame(),
                                    None,
                                );
                                lemma_counts_singleton(snd);
                                lemma_counts_add(seq![emit], seq![snd]);
                                lemma_counts_zero(a);
                            },
                            crate::commands::ServerMessageV::Pong(p) => {
                                lemma_counts_zero(a);
                            },
                            crate::commands::ServerMessageV::Reconnect(r) => {
                                let tail = seq![
                                    spec_closed_event(ConnectionError::ReconnectCmd),
                                    LoopActionV::FireKillSignals,
                                ];
                                assert(tail =~= seq![
                                    spec_closed_event(ConnectionError::ReconnectCmd),
                                ] + seq![LoopActionV::FireKillSignals]);
                                lemma_counts_singleton(
                                    spec_closed_event(ConnectionError::ReconnectCmd),
                                );
                                lemma_counts_singleton(LoopActionV::FireKillSignals);
                                lemma_counts_add(
                                    seq![spec_closed_event(ConnectionError::ReconnectCmd)],
                                    seq![LoopActionV::FireKillSignals],
                                );
                                lemma_counts_add(seq![emit], tail);
                                assert(a == seq![emit] + tail);
                                assert(count_closed(a) == 1);
                                assert forall|i: int, j: int|
                                    0 <= i < j < a.len() && is_closed_event(#[trigger] a[i])
                                    implies (#[trigger] a[j]) is FireKillSignals by {
                                    assert(a[0] == emit);
                                    assert(a[1] == spec_closed_event(ConnectionError::ReconnectCmd));
                                    assert(a[2] == LoopActionV::FireKillSignals);
                                }
                            },
                            _ => {
                                lemma_counts_zero(a);
                            },
                        }
                    },
                    Err(e) => {
                        lemma_counts_singleton(
                            LoopActionV::EmitEvent(
                                ConnectionIncomingMessageV::IncomingMessage(
                                    crate::commands::ServerMessageV::Generic(m),
                                ),
                            ),
                        );
                        lemma_counts_zero(a);
                    },
                }
            },
            CommandV::SendPing => {
                lemma_counts_singleton(
                    LoopActionV::SendFrame(crate::event_loop::spec_ping_frame(), None),
                );
            },
            CommandV::CheckPong => {
                if pong_received {
                    assert(a =~= Seq::<LoopActionV>::empty());
                } else {
                    lemma_open_close_shape(ConnectionError::PingTimeout);
                }
            },
        },
        StateV::Closed { reason_for_closure } => {
            match c {
                CommandV::SendMessage(m, slot) => {
                    if let Some(u) = slot {
                        lemma_counts_singleton(
                            LoopActionV::ResolveReply(u, reason_for_closure),
                        );
                    } else {
                        assert(a =~= Seq::<LoopActionV>::empty());
                        assert(frames_of(a) =~= Seq::<IRCMessageV>::empty());
                    }
                },
                _ => {
                    assert(a =~= Seq::<LoopActionV>::empty());
                    assert(frames_of(a) =~= Seq::<IRCMessageV>::empty());
                },
            }
        },
    }
}

/// Every `IncomingMessage` event comes after a `StateOpen` event.
pub open spec fn incoming_after_open(acts: Seq<LoopActionV>) -> bool {
    forall|j: int|
        0 <= j < acts.len() && is_incoming_event(#[trigger] acts[j]) ==> exists|i: int|
            0 <= i < j && is_open_event(#[trigger] acts[i])
}

/// After a `StateClosed` event, no further event of any kind.
pub open spec fn closed_is_final(acts: Seq<LoopActionV>) -> bool {
    forall|i: int, j: int|
        0 <= i < j < acts.len() && is_closed_event(#[trigger] acts[i]) ==> !is_incoming_event(
            #[trigger] acts[j],
        ) && !is_open_event(acts[j]) && !is_closed_event(acts[j])
}

proof fn lemma_concat_index(a: Seq<LoopActionV>, b: Seq<LoopActionV>)
    ensures
        forall|k: int| 0 <= k < a.len() ==> #[trigger] (a + b)[k] == a[k],
        forall|k: int|
            a.len() <= k < a.len() + b.len() ==> #[trigger] (a + b)[k] == b[k - a.len()],
{
}

/// The transmitted frames begin with the handshake of credentials that
/// one of the run's commands delivered.
pub open spec fn handshake_of_delivered_creds(
    frames: Seq<IRCMessageV>,
    cmds: Seq<CommandV>,
) -> bool {
    exists|creds: CredentialsPairV, k: int|
        #![trigger cmds[k], spec_handshake(creds)]
        0 <= k < cmds.len() && cmds[k] == CommandV::TransportInitFinished(
            Ok::<CredentialsPairV, ConnectionError>(creds),
        ) && frames.len() >= spec_handshake(creds).len() && frames.take(
            spec_handshake(creds).len() as int,
        ) =~= spec_handshake(creds)
}

/// The shape of every whole run: the event counts it can emit, that the
/// closed state is terminal and silent, that incoming events come only
/// after the `StateOpen` event, that nothing follows the `StateClosed`
/// event, and that a run out of the initializing state transmits the
/// handshake frames first.
pub proof fn lemma_run_trace(s: StateV, cmds: Seq<CommandV>)
    ensures
        ({
            let (s2, acts) = spec_run(s, cmds);
            &&& count_closed(acts) == (if !(s is Closed) && s2 is Closed {
                1int
            } else {
                0int
            })
            &&& (s is Closed ==> s2 == s && count_open(acts) == 0 && count_incoming(acts) == 0
                && frames_of(acts) =~= Seq::<IRCMessageV>::empty())
            &&& (s is Initializing ==> count_open(acts) <= 1)
            &&& (!(s is Initializing) ==> count_open(acts) == 0)
            &&& (s is Initializing && s2 is Open ==> count_open(acts) == 1)
            &&& (s is Initializing ==> incoming_after_open(acts))
            &&& closed_is_final(acts)
            &&& (s is Initializing && s2 is Initializing ==> acts =~= Seq::<LoopActionV>::empty())
            &&& (s2 is Initializing ==> s is Initializing)
            &&& (s is Initializing ==> (frames_of(acts).len() == 0 || handshake_of_delivered_creds(
                frames_of(acts),
                cmds,
            )))
        }),
    decreases cmds.len(),
{
    let (s2, acts) = spec_run(s, cmds);
    if cmds.len() == 0 {
        lemma_counts_zero(acts);
        assert(frames_of(acts) =~= Seq::<IRCMessageV>::empty());
    } else {
        let (s1, a1) = spec_transition(s, cmds[0]);
        let (sfin, rest) = spec_run(s1, cmds.skip(1));
        lemma_step(s, cmds[0]);
        lemma_run_trace(s1, cmds.skip(1));
        lemma_counts_add(a1, rest);
        lemma_concat_index(a1, rest);
        assert(acts == a1 + rest);
        assert(s2 == sfin);
        lemma_counts_zero(a1);
        lemma_counts_zero(rest);
        // closed_is_final of the concatenation
        assert forall|i: int, j: int|
            0 <= i < j < acts.len() && is_closed_event(#[trigger] acts[i]) implies !is_incoming_event(
            #[trigger] acts[j],
        ) && !is_open_event(acts[j]) && !is_closed_event(acts[j]) by {
            if i < a1.len() {
                assert(acts[i] == a1[i]);
                assert(count_closed(a1) > 0);
                assert(s1 is Closed);
                if j < a1.len() {
                    assert(a1[j] is FireKillSignals);
                } else {
                    assert(acts[j] == rest[j - a1.len()]);
                    assert(count_closed(rest) == 0);
                    assert(count_open(rest) == 0);
                    assert(count_incoming(rest) == 0);
                }
            } else {
                assert(acts[i] == rest[i - a1.len()]);
                assert(acts[j] == rest[j - a1.len()]);
            }
        }
        // incoming events come after the open event
        if s is Initializing {
            if s1 is Initializing {
                assert(acts =~= rest);
                assert(incoming_after_open(acts));
            } else if s1 is Open {
                assert(count_open(a1) == 1);
                lemma_count_open_pos(a1);
                let i0 = choose|i: int| 0 <= i < a1.len() && is_open_event(#[trigger] a1[i]);
                assert forall|j: int|
                    0 <= j < acts.len() && is_incoming_event(#[trigger] acts[j]) implies exists|
                    i: int,
                |
                    0 <= i < j && is_open_event(#[trigger] acts[i]) by {
                    if j < a1.len() {
                        assert(acts[j] == a1[j]);
                        assert(count_incoming(a1) == 0);
                    } else {
                        assert(acts[i0] == a1[i0]);
                        assert(is_open_event(acts[i0]));
                        assert(i0 < a1.len() <= j);
                    }
                }
            } else {
                assert(s1 is Closed);
                assert forall|j: int|
                    0 <= j < acts.len() && is_incoming_event(#[trigger] acts[j]) implies exists|
                    i: int,
                |
                    0 <= i < j && is_open_event(#[trigger] acts[i]) by {
                    if j < a1.len() {
                        assert(acts[j] == a1[j]);
                        assert(count_incoming(a1) == 0);
                    } else {
                        assert(acts[j] == rest[j - a1.len()]);
                        assert(count_incoming(rest) == 0);
                    }
                }
            }
        }
        // the handshake comes first among the transmitted frames
        if s is Initializing {
            if s1 is Initializing {
                assert(frames_of(a1) =~= Seq::<IRCMessageV>::empty());
                assert(frames_of(acts) =~= frames_of(rest));
                assert(frames_of(acts) == frames_of(rest));
                if frames_of(rest).len() > 0 {
                    let (creds0, k0) = choose|creds: CredentialsPairV, k: int|
                        #![trigger cmds.skip(1)[k], spec_handshake(creds)]
                        0 <= k < cmds.skip(1).len() && cmds.skip(1)[k]
                            == CommandV::TransportInitFinished(
                            Ok::<CredentialsPairV, ConnectionError>(creds),
                        ) && frames_of(rest).len() >= spec_handshake(creds).len() && frames_of(
                            rest,
                        ).take(spec_handshake(creds).len() as int) =~= spec_handshake(creds);
                    assert(cmds[k0 + 1] == cmds.skip(1)[k0]);
                    assert(cmds[k0 + 1] == CommandV::TransportInitFinished(
                        Ok::<CredentialsPairV, ConnectionError>(creds0),
                    ) && frames_of(acts).len() >= spec_handshake(creds0).len() && frames_of(
                        acts,
                    ).take(spec_handshake(creds0).len() as int) =~= spec_handshake(creds0));
                    assert(handshake_of_delivered_creds(frames_of(acts), cmds));
                }
            } else if s1 is Open {
                let creds = choose|creds: CredentialsPairV|
                    cmds[0] == CommandV::TransportInitFinished(
                        Ok::<CredentialsPairV, ConnectionError>(creds),
                    ) && frames_of(a1).len() >= spec_handshake(creds).len() && frames_of(a1).take(
                        spec_handshake(creds).len() as int,
                    ) =~= spec_handshake(creds);
                let hl = spec_handshake(creds).len() as int;
                assert(frames_of(acts) =~= frames_of(a1) + frames_of(rest));
                assert(frames_of(acts).len() >= hl);
                assert(frames_of(acts).take(hl) =~= frames_of(a1).take(hl));
                assert(frames_of(acts).take(hl) =~= spec_handshake(creds));
                assert(handshake_of_delivered_creds(frames_of(acts), cmds));
            } else {
                assert(s1 is Closed);
                assert(frames_of(a1) =~= Seq::<IRCMessageV>::empty());
                assert(frames_of(rest) =~= Seq::<IRCMessageV>::empty());
                assert(frames_of(acts).len() == 0);
            }
        }
    }
}

/// At most one `StateClosed` event is ever emitted, over every command
/// sequence a connection can see.
pub proof fn lemma_at_most_one_state_closed(cmds: Seq<CommandV>)
    ensures
        count_closed(spec_run(spec_initial_state(), cmds).1) <= 1,
        count_closed(spec_run(spec_initial_state(), cmds).1) == 1 <==> spec_run(
            spec_initial_state(),
            cmds,
        ).0 is Closed,
{
    lemma_run_trace(spec_initial_state(), cmds);
}

/// If `StateOpen` is emitted it is emitted exactly once, before every
/// `IncomingMessage` event and before the `StateClosed` event.
pub proof fn lemma_state_open_once_and_first(cmds: Seq<CommandV>)
    ensures
        ({
            let acts = spec_run(spec_initial_state(), cmds).1;
            &&& count_open(acts) <= 1
            &&& incoming_after_open(acts)
            &&& forall|i: int, j: int|
                0 <= i < acts.len() && 0 <= j < acts.len() && is_open_event(#[trigger] acts[i])
                    && is_closed_event(#[trigger] acts[j]) ==> i < j
        }),
{
    lemma_run_trace(spec_initial_state(), cmds);
    let acts = spec_run(spec_initial_state(), cmds).1;
    assert forall|i: int, j: int|
        0 <= i < acts.len() && 0 <= j < acts.len() && is_open_event(#[trigger] acts[i])
            && is_closed_event(#[trigger] acts[j]) implies i < j by {
        if j < i {
            assert(!is_open_event(acts[i]));
        } else if j == i {
            assert(!(is_open_event(acts[i]) && is_closed_event(acts[i])));
        }
    }
}

/// After the `StateClosed` event, no further `IncomingMessage` event (and
/// no event of any other kind either).
pub proof fn lemma_silence_after_closed(cmds: Seq<CommandV>)
    ensures
        closed_is_final(spec_run(spec_initial_state(), cmds).1),
{
    lemma_run_trace(spec_initial_state(), cmds);
}

/// Whenever a run transmits anything at all, what it transmits begins
/// with the handshake of the credentials that the finished init
/// delivered: `CAP REQ`, then `PASS` when a token is present, then
/// `NICK`, in that order.
pub proof fn lemma_handshake_transmitted_first(cmds: Seq<CommandV>)
    ensures
        ({
            let frames = frames_of(spec_run(spec_initial_state(), cmds).1);
            frames.len() == 0 || handshake_of_delivered_creds(frames, cmds)
        }),
{
    lemma_run_trace(spec_initial_state(), cmds);
}

/// The opening transition itself sends exactly the handshake frames and
/// then the buffered sends, in order.
pub proof fn lemma_open_transition_sends_handshake(
    q: Seq<(IRCMessageV, Option<u64>)>,
    creds: CredentialsPairV,
)
    ensures
        ({
            let (s2, a) = spec_transition(
                StateV::Initializing { commands_queue: q },
                CommandV::TransportInitFinished(Ok::<CredentialsPairV, ConnectionError>(creds)),
            );
            &&& s2 == (StateV::Open { pong_received: false })
            &&& frames_of(a) =~= spec_handshake(creds) + frames_of(spec_flush_queue(q))
        }),
{
    let (s2, a) = spec_transition(
        StateV::Initializing { commands_queue: q },
        CommandV::TransportInitFinished(Ok::<CredentialsPairV, ConnectionError>(creds)),
    );
    let pre = seq![
        LoopActionV::SpawnOpenTasks,
        LoopActionV::EmitEvent(ConnectionIncomingMessageV::StateOpen),
    ];
    let hs = spec_handshake_actions(creds);
    let fl = spec_flush_queue(q);
    assert(a == pre + hs + fl);
    lemma_counts_singleton(LoopActionV::SpawnOpenTasks);
    lemma_counts_singleton(LoopActionV::EmitEvent(ConnectionIncomingMessageV::StateOpen));
    assert(pre =~= seq![LoopActionV::SpawnOpenTasks] + seq![
        LoopActionV::EmitEvent(ConnectionIncomingMessageV::StateOpen),
    ]);
    lemma_counts_add(
        seq![LoopActionV::SpawnOpenTasks],
        seq![LoopActionV::EmitEvent(ConnectionIncomingMessageV::StateOpen)],
    );
    lemma_handshake_shape(creds);
    lemma_counts_add(pre, hs);
    lemma_counts_add(pre + hs, fl);
    assert(frames_of(pre) =~= Seq::<IRCMessageV>::empty());
}

/// A received `PING` is answered at once: the step publishes the typed
/// message and its one outbound frame is `PONG tmi.twitch.tv`; the
/// connection stays open.
pub proof fn lemma_ping_answered(pong_received: bool, m: IRCMessageV)
    requires
        crate::commands::spec_server_message(m) matches Ok(sm) && sm is Ping,
    ensures
        ({
            let (s2, a) = spec_transition(
                StateV::Open { pong_received },
                CommandV::IncomingMessage(Some(Ok::<IRCMessageV, ConnectionError>(m))),
            );
            &&& s2 == (StateV::Open { pong_received })
            &&& a =~= seq![
                LoopActionV::EmitEvent(
                    ConnectionIncomingMessageV::IncomingMessage(
                        crate::commands::spec_server_message(m)->Ok_0,
                    ),
                ),
                LoopActionV::SendFrame(crate::event_loop::spec_pong_frame(), None),
            ]
            &&& frames_of(a) =~= seq![crate::event_loop::spec_pong_frame()]
        }),
{
    let (s2, a) = spec_transition(
        StateV::Open { pong_received },
        CommandV::IncomingMessage(Some(Ok::<IRCMessageV, ConnectionError>(m))),
    );
    let sm = crate::commands::spec_server_message(m)->Ok_0;
    let emit = LoopActionV::EmitEvent(ConnectionIncomingMessageV::IncomingMessage(sm));
    let snd = LoopActionV::SendFrame(crate::event_loop::spec_pong_frame(), None);
    lemma_counts_singleton(emit);
    lemma_counts_singleton(snd);
    lemma_counts_add(seq![emit], seq![snd]);
    assert(a == seq![emit] + seq![snd]);
    assert(a =~= seq![emit, snd]);
}

/// The scheduled probe: `SendPing` clears the liveness flag and sends
/// `PING tmi.twitch.tv`; a `CheckPong` that finds the flag still cleared
/// closes the connection with `PingTimeout` and emits `StateClosed`.
pub proof fn lemma_unanswered_probe_closes(pong_received: bool)
    ensures
        spec_transition(StateV::Open { pong_received }, CommandV::SendPing) == (
            StateV::Open { pong_received: false },
            seq![LoopActionV::SendFrame(crate::event_loop::spec_ping_frame(), None)],
        ),
        spec_run(StateV::Open { pong_received }, seq![CommandV::SendPing, CommandV::CheckPong]).0
            == (StateV::Closed { reason_for_closure: ConnectionError::PingTimeout }),
        spec_run(
            StateV::Open { pong_received },
            seq![CommandV::SendPing, CommandV::CheckPong],
        ).1 =~= seq![
            LoopActionV::SendFrame(crate::event_loop::spec_ping_frame(), None),
            spec_closed_event(ConnectionError::PingTimeout),
            LoopActionV::FireKillSignals,
        ],
{
    let s0 = StateV::Open { pong_received };
    let cmds = seq![CommandV::SendPing, CommandV::CheckPong];
    let step1 = spec_transition(s0, CommandV::SendPing);
    let tail1 = cmds.skip(1);
    assert(cmds[0] == CommandV::SendPing);
    assert(tail1 =~= seq![CommandV::CheckPong]);
    let s1 = StateV::Open { pong_received: false };
    assert(step1.0 == s1);
    let step2 = spec_transition(s1, CommandV::CheckPong);
    assert(step2.0 == (StateV::Closed { reason_for_closure: ConnectionError::PingTimeout }));
    assert(tail1[0] == CommandV::CheckPong);
    assert(tail1.skip(1) =~= Seq::<CommandV>::empty());
    assert(spec_run(step2.0, tail1.skip(1)).1 =~= Seq::<LoopActionV>::empty());
    assert(spec_run(s1, tail1).0 == step2.0);
    assert(spec_run(s1, tail1).1 =~= step2.1);
    assert(spec_run(s0, cmds).0 == spec_run(s1, tail1).0);
    assert(spec_run(s0, cmds).1 == step1.1 + spec_run(s1, tail1).1);
    assert(spec_run(s0, cmds).1 =~= seq![
        LoopActionV::SendFrame(crate::event_loop::spec_ping_frame(), None),
        spec_closed_event(ConnectionError::PingTimeout),
        LoopActionV::FireKillSignals,
    ]);
}

/// A `PONG` between the probe and its check keeps the connection open.
pub proof fn lemma_answered_probe_stays_open(pong_received: bool, m: IRCMessageV)
    requires
        crate::commands::spec_server_message(m) matches Ok(sm) && sm is Pong,
    ensures
        spec_run(
            StateV::Open { pong_received },
            seq![
                CommandV::SendPing,
                CommandV::IncomingMessage(Some(Ok::<IRCMessageV, ConnectionError>(m))),
                CommandV::CheckPong,
            ],
        ).0 == (StateV::Open { pong_received: true }),
{
    let s0 = StateV::Open { pong_received };
    let pong_cmd = CommandV::IncomingMessage(Some(Ok::<IRCMessageV, ConnectionError>(m)));
    let cmds = seq![CommandV::SendPing, pong_cmd, CommandV::CheckPong];
    let tail1 = cmds.skip(1);
    let tail2 = tail1.skip(1);
    assert(cmds[0] == CommandV::SendPing);
    assert(tail1 =~= seq![pong_cmd, CommandV::CheckPong]);
    assert(tail1[0] == pong_cmd);
    assert(tail2 =~= seq![CommandV::CheckPong]);
    assert(tail2[0] == CommandV::CheckPong);
    assert(tail2.skip(1) =~= Seq::<CommandV>::empty());
    let s1 = StateV::Open { pong_received: false };
    assert(spec_transition(s0, CommandV::SendPing).0 == s1);
    let s2 = StateV::Open { pong_received: true };
    assert(spec_transition(s1, pong_cmd).0 == s2);
    let s3 = StateV::Open { pong_received: true };
    assert(spec_transition(s2, CommandV::CheckPong).0 == s3);
    assert(spec_run(s3, tail2.skip(1)).0 == s3);
    assert(spec_run(s2, tail2).0 == s3);
    assert(spec_run(s1, tail1).0 == spec_run(s2, tail2).0);
    assert(spec_run(s0, cmds).0 == spec_run(s1, tail1).0);
}

/// A typed-decode failure is not fatal: the step publishes the frame
/// wrapped as a generic message and the connection stays open, with the
/// liveness flag untouched.
pub proof fn lemma_decode_failure_not_fatal(pong_received: bool, m: IRCMessageV)
    requires
        crate::commands::spec_server_message(m) is Err,
    ensures
        spec_transition(
            StateV::Open { pong_received },
            CommandV::IncomingMessage(Some(Ok::<IRCMessageV, ConnectionError>(m))),
        ) == (
            StateV::Open { pong_received },
            seq![
                LoopActionV::EmitEvent(
                    ConnectionIncomingMessageV::IncomingMessage(
                        crate::commands::ServerMessageV::Generic(m),
                    ),
                ),
            ],
        ),
{
}

/// The reply slots named by the commands of a run.
pub open spec fn slots_of_cmds(cmds: Seq<CommandV>) -> Multiset<u64>
    decreases cmds.len(),
{
    if cmds.len() == 0 {
        Multiset::empty()
    } else {
        (match cmds[0] {
            CommandV::SendMessage(m, Some(u)) => Multiset::singleton(u),
            _ => Multiset::empty(),
        }).add(slots_of_cmds(cmds.skip(1)))
    }
}

/// The slots the loop resolved with an error.
pub open spec fn resolved_slots(acts: Seq<LoopActionV>) -> Multiset<u64>
    decreases acts.len(),
{
    if acts.len() == 0 {
        Multiset::empty()
    } else {
        (match acts[0] {
            LoopActionV::ResolveReply(u, e) => Multiset::singleton(u),
            _ => Multiset::empty(),
        }).add(resolved_slots(acts.skip(1)))
    }
}

/// The slots handed to the outgoing forwarder.
pub open spec fn forwarded_slots(acts: Seq<LoopActionV>) -> Multiset<u64>
    decreases acts.len(),
{
    if acts.len() == 0 {
        Multiset::empty()
    } else {
        (match acts[0] {
            LoopActionV::SendFrame(m, Some(u)) => Multiset::singleton(u),
            _ => Multiset::empty(),
        }).add(forwarded_slots(acts.skip(1)))
    }
}

/// The slots buffered in a queue.
pub open spec fn queue_slots(q: Seq<(IRCMessageV, Option<u64>)>) -> Multiset<u64>
    decreases q.len(),
{
    if q.len() == 0 {
        Multiset::empty()
    } else {
        (match q[0].1 {
            Some(u) => Multiset::singleton(u),
            None => Multiset::empty(),
        }).add(queue_slots(q.skip(1)))
    }
}

/// The slots still buffered in a state.
pub open spec fn state_slots(s: StateV) -> Multiset<u64> {
    match s {
        StateV::Initializing { commands_queue } => queue_slots(commands_queue),
        _ => Multiset::empty(),
    }
}

proof fn lemma_slot_sums_add(a: Seq<LoopActionV>, b: Seq<LoopActionV>)
    ensures
        resolved_slots(a + b) =~= resolved_slots(a).add(resolved_slots(b)),
        forwarded_slots(a + b) =~= forwarded_slots(a).add(forwarded_slots(b)),
    decreases a.len(),
{
    if a.len() == 0 {
        assert(a + b =~= b);
        assert(resolved_slots(a) =~= Multiset::empty());
        assert(forwarded_slots(a) =~= Multiset::empty());
    } else {
        assert((a + b)[0] == a[0]);
        assert((a + b).skip(1) =~= a.skip(1) + b);
        lemma_slot_sums_add(a.skip(1), b);
    }
}

proof fn lemma_slot_sums_singleton(x: LoopActionV)
    ensures
        resolved_slots(seq![x]) =~= (match x {
            LoopActionV::ResolveReply(u, e) => Multiset::singleton(u),
            _ => Multiset::<u64>::empty(),
        }),
        forwarded_slots(seq![x]) =~= (match x {
            LoopActionV::SendFrame(m, Some(u)) => Multiset::singleton(u),
            _ => Multiset::<u64>::empty(),
        }),
{
    assert(seq![x].skip(1) =~= Seq::<LoopActionV>::empty());
    assert(resolved_slots(Seq::<LoopActionV>::empty()) =~= Multiset::<u64>::empty());
    assert(forwarded_slots(Seq::<LoopActionV>::empty()) =~= Multiset::<u64>::empty());
    assert(seq![x][0] == x);
}

/// Appending one send to the buffer adds exactly its slot.
proof fn lemma_queue_slots_push(q: Seq<(IRCMessageV, Option<u64>)>, p: (IRCMessageV, Option<u64>))
    ensures
        queue_slots(q.push(p)) =~= queue_slots(q).add(
            match p.1 {
                Some(u) => Multiset::singleton(u),
                None => Multiset::<u64>::empty(),
            },
        ),
    decreases q.len(),
{
    if q.len() == 0 {
        assert(q.push(p)[0] == p);
        assert(q.push(p).skip(1) =~= Seq::<(IRCMessageV, Option<u64>)>::empty());
        assert(queue_slots(Seq::<(IRCMessageV, Option<u64>)>::empty()) =~= Multiset::empty());
    } else {
        assert(q.push(p)[0] == q[0]);
        assert(q.push(p).skip(1) =~= q.skip(1).push(p));
        lemma_queue_slots_push(q.skip(1), p);
    }
}

/// Resolving the buffer answers exactly the buffered slots.
proof fn lemma_resolve_queue_slots(q: Seq<(IRCMessageV, Option<u64>)>, e: ConnectionError)
    ensures
        resolved_slots(spec_resolve_queue(q, e)) =~= queue_slots(q),
        forwarded_slots(spec_resolve_queue(q, e)) =~= Multiset::<u64>::empty(),
    decreases q.len(),
{
    if q.len() == 0 {
        assert(spec_resolve_queue(q, e) =~= Seq::<LoopActionV>::empty());
    } else {
        lemma_resolve_queue_slots(q.skip(1), e);
        let head: Seq<LoopActionV> = match q[0].1 {
            Some(slot) => seq![LoopActionV::ResolveReply(slot, e)],
            None => Seq::empty(),
        };
        if let Some(slot) = q[0].1 {
            lemma_slot_sums_singleton(LoopActionV::ResolveReply(slot, e));
        }
        lemma_slot_sums_add(head, spec_resolve_queue(q.skip(1), e));
    }
}

/// Flushing the buffer forwards exactly the buffered slots.
proof fn lemma_flush_queue_slots(q: Seq<(IRCMessageV, Option<u64>)>)
    ensures
        forwarded_slots(spec_flush_queue(q)) =~= queue_slots(q),
        resolved_slots(spec_flush_queue(q)) =~= Multiset::<u64>::empty(),
    decreases q.len(),
{
    if q.len() == 0 {
        assert(spec_flush_queue(q) =~= Seq::<LoopActionV>::empty());
    } else {
        lemma_flush_queue_slots(q.skip(1));
        lemma_slot_sums_singleton(LoopActionV::SendFrame(q[0].0, q[0].1));
        lemma_slot_sums_add(
            seq![LoopActionV::SendFrame(q[0].0, q[0].1)],
            spec_flush_queue(q.skip(1)),
        );
    }
}

/// One step neither invents nor loses a reply slot: the slots going in
/// (buffered plus newly named) equal the slots going out (still buffered,
/// resolved, or forwarded).
pub proof fn lemma_step_slots(s: StateV, c: CommandV)
    ensures
        ({
            let (s2, a) = spec_transition(s, c);
            state_slots(s).add(
                match c {
                    CommandV::SendMessage(m, Some(u)) => Multiset::singleton(u),
                    _ => Multiset::<u64>::empty(),
                },
            ) =~= state_slots(s2).add(resolved_slots(a)).add(forwarded_slots(a))
        }),
{
    let (s2, a) = spec_transition(s, c);
    match s {
        StateV::Initializing { commands_queue: q } => match c {
            CommandV::SendMessage(m, slot) => {
                lemma_queue_slots_push(q, (m, slot));
                assert(a =~= Seq::<LoopActionV>::empty());
            },
            CommandV::TransportInitFinished(Ok(creds)) => {
                let pre = seq![
                    LoopActionV::SpawnOpenTasks,
                    LoopActionV::EmitEvent(ConnectionIncomingMessageV::StateOpen),
                ];
                let hs = spec_handshake_actions(creds);
                let fl = spec_flush_queue(q);
                assert(a == pre + hs + fl);
                lemma_slot_sums_singleton(LoopActionV::SpawnOpenTasks);
                lemma_slot_sums_singleton(
                    LoopActionV::EmitEvent(ConnectionIncomingMessageV::StateOpen),
                );
                assert(pre =~= seq![LoopActionV::SpawnOpenTasks] + seq![
                    LoopActionV::EmitEvent(ConnectionIncomingMessageV::StateOpen),
                ]);
                lemma_slot_sums_add(
                    seq![LoopActionV::SpawnOpenTasks],
                    seq![LoopActionV::EmitEvent(ConnectionIncomingMessageV::StateOpen)],
                );
                lemma_handshake_slots(creds);
                lemma_flush_queue_slots(q);
                lemma_slot_sums_add(pre, hs);
                lemma_slot_sums_add(pre + hs, fl);
            },
            CommandV::TransportInitFinished(Err(e)) => {
                lemma_resolve_queue_slots(q, e);
                lemma_slot_sums_singleton(spec_closed_event(e));
                lemma_slot_sums_add(spec_resolve_queue(q, e), seq![spec_closed_event(e)]);
            },
            CommandV::SendError => {
                let e = ConnectionError::OutgoingError;
                lemma_resolve_queue_slots(q, e);
                lemma_slot_sums_singleton(spec_closed_event(e));
                lemma_slot_sums_add(spec_resolve_queue(q, e), seq![spec_closed_event(e)]);
            },
            CommandV::IncomingMessage(m) => {
                assert(a =~= Seq::<LoopActionV>::empty());
            },
            CommandV::SendPing => {
                assert(a =~= Seq::<LoopActionV>::empty());
            },
            CommandV::CheckPong => {
                assert(a =~= Seq::<LoopActionV>::empty());
            },
        },
        StateV::Open { pong_received } => match c {
            CommandV::SendMessage(m, slot) => {
                lemma_slot_sums_singleton(LoopActionV::SendFrame(m, slot));
            },
            CommandV::TransportInitFinished(r) => {
                assert(a =~= Seq::<LoopActionV>::empty());
            },
            CommandV::SendError => {
                lemma_two_kill_slots(ConnectionError::OutgoingError);
            },
            CommandV::IncomingMessage(None) => {
                lemma_two_kill_slots(ConnectionError::RemoteUnexpectedlyClosedConnection);
            },
            CommandV::IncomingMessage(Some(Err(e))) => {
                lemma_two_kill_slots(e);
            },
            CommandV::IncomingMessage(Some(Ok(m))) => {
                match crate::commands::spec_server_message(m) {
                    Ok(sm) => {
                        let emit = LoopActionV::EmitEvent(
                            ConnectionIncomingMessageV::IncomingMessage(sm),
                        );
                        lemma_slot_sums_singleton(emit);
                        match sm {
                            crate::commands::ServerMessageV::Ping(p) => {
                                let snd = LoopActionV::SendFrame(
                                    crate::event_loop::spec_pong_frame(),
                                    None,
                                );
                                lemma_slot_sums_singleton(snd);
                                lemma_slot_sums_add(seq![emit], seq![snd]);
                            },
                            crate::commands::ServerMessageV::Reconnect(r) => {
                                lemma_slot_sums_singleton(
                                    spec_closed_event(ConnectionError::ReconnectCmd),
                                );
                                lemma_slot_sums_singleton(LoopActionV::FireKillSignals);
                                lemma_slot_sums_add(
                                    seq![spec_closed_event(ConnectionError::ReconnectCmd)],
                                    seq![LoopActionV::FireKillSignals],
                                );
                                lemma_slot_sums_add(
                                    seq![emit],
                                    seq![
                                        spec_closed_event(ConnectionError::ReconnectCmd),
                                        LoopActionV::FireKillSignals,
                                    ],
                                );
                                assert(seq![
                                    spec_closed_event(ConnectionError::ReconnectCmd),
                                    LoopActionV::FireKillSignals,
                                ] =~= seq![spec_closed_event(ConnectionError::ReconnectCmd)]
                                    + seq![LoopActionV::FireKillSignals]);
                            },
                            _ => {},
                        }
                    },
                    Err(e) => {
                        lemma_slot_sums_singleton(
                            LoopActionV::EmitEvent(
                                ConnectionIncomingMessageV::IncomingMessage(
                                    crate::commands::ServerMessageV::Generic(m),
                                ),
                            ),
                        );
                    },
                }
            },
            CommandV::SendPing => {
                lemma_slot_sums_singleton(
                    LoopActionV::SendFrame(crate::event_loop::spec_ping_frame(), None),
                );
            },
            CommandV::CheckPong => {
                if !pong_received {
                    lemma_two_kill_slots(ConnectionError::PingTimeout);
                } else {
                    assert(a =~= Seq::<LoopActionV>::empty());
                }
            },
        },
        StateV::Closed { reason_for_closure } => match c {
            CommandV::SendMessage(m, slot) => {
                if let Some(u) = slot {
                    lemma_slot_sums_singleton(LoopActionV::ResolveReply(u, reason_for_closure));
                } else {
                    assert(a =~= Seq::<LoopActionV>::empty());
                }
            },
            _ => {
                assert(a =~= Seq::<LoopActionV>::empty());
            },
        },
    }
}

proof fn lemma_handshake_slots(creds: CredentialsPairV)
    ensures
        resolved_slots(spec_handshake_actions(creds)) =~= Multiset::<u64>::empty(),
        forwarded_slots(spec_handshake_actions(creds)) =~= Multiset::<u64>::empty(),
{
    let cap = LoopActionV::SendFrame(crate::event_loop::spec_cap_req_frame(), None);
    let nick = LoopActionV::SendFrame(crate::event_loop::spec_nick_frame(creds.login), None);
    lemma_slot_sums_singleton(cap);
    lemma_slot_sums_singleton(nick);
    match creds.token {
        Some(t) => {
            let pass = LoopActionV::SendFrame(crate::event_loop::spec_pass_frame(t), None);
            lemma_slot_sums_singleton(pass);
            lemma_slot_sums_add(seq![pass], seq![nick]);
            lemma_slot_sums_add(seq![cap], seq![pass] + seq![nick]);
            assert(spec_handshake_actions(creds) =~= seq![cap] + (seq![pass] + seq![nick]));
        },
        None => {
            lemma_slot_sums_add(seq![cap], seq![nick]);
            assert(spec_handshake_actions(creds) =~= seq![cap] + seq![nick]);
        },
    }
}

proof fn lemma_two_kill_slots(e: ConnectionError)
    ensures
        resolved_slots(seq![spec_closed_event(e), LoopActionV::FireKillSignals]) =~= Multiset::<
            u64,
        >::empty(),
        forwarded_slots(seq![spec_closed_event(e), LoopActionV::FireKillSignals]) =~= Multiset::<
            u64,
        >::empty(),
{
    lemma_slot_sums_singleton(spec_closed_event(e));
    lemma_slot_sums_singleton(LoopActionV::FireKillSignals);
    lemma_slot_sums_add(seq![spec_closed_event(e)], seq![LoopActionV::FireKillSignals]);
    assert(seq![spec_closed_event(e), LoopActionV::FireKillSignals] =~= seq![spec_closed_event(e)]
        + seq![LoopActionV::FireKillSignals]);
}

/// Conservation of reply slots over a whole run: every slot named by the
/// commands ends up exactly once — resolved with an error by the loop,
/// handed to the outgoing forwarder, or still buffered in the final
/// state. (The outgoing forwarder then resolves each handed-over slot
/// exactly once; see `outgoing_send_outcome`.)
pub proof fn lemma_reply_slots_conserved(s: StateV, cmds: Seq<CommandV>)
    ensures
        ({
            let (s2, acts) = spec_run(s, cmds);
            state_slots(s).add(slots_of_cmds(cmds)) =~= state_slots(s2).add(
                resolved_slots(acts),
            ).add(forwarded_slots(acts))
        }),
    decreases cmds.len(),
{
    let (s2, acts) = spec_run(s, cmds);
    if cmds.len() == 0 {
        assert(resolved_slots(acts) =~= Multiset::<u64>::empty());
        assert(forwarded_slots(acts) =~= Multiset::<u64>::empty());
    } else {
        let (s1, a1) = spec_transition(s, cmds[0]);
        let (sfin, rest) = spec_run(s1, cmds.skip(1));
        lemma_step_slots(s, cmds[0]);
        lemma_reply_slots_conserved(s1, cmds.skip(1));
        lemma_slot_sums_add(a1, rest);
        assert(acts == a1 + rest);
        let c0: Multiset<u64> = match cmds[0] {
            CommandV::SendMessage(m, Some(u)) => Multiset::singleton(u),
            _ => Multiset::empty(),
        };
        let ctail = slots_of_cmds(cmds.skip(1));
        assert(slots_of_cmds(cmds) == c0.add(ctail));
        assert(state_slots(s).add(slots_of_cmds(cmds)) =~= state_slots(s).add(c0).add(ctail));
        assert(state_slots(s).add(c0).add(ctail) =~= state_slots(s1).add(
            resolved_slots(a1),
        ).add(forwarded_slots(a1)).add(ctail));
        assert(state_slots(s1).add(resolved_slots(a1)).add(forwarded_slots(a1)).add(ctail)
            =~= state_slots(s1).add(ctail).add(resolved_slots(a1)).add(forwarded_slots(a1)));
        assert(state_slots(s1).add(ctail).add(resolved_slots(a1)).add(forwarded_slots(a1))
            =~= state_slots(sfin).add(resolved_slots(rest)).add(forwarded_slots(rest)).add(
            resolved_slots(a1),
        ).add(forwarded_slots(a1)));
        assert(state_slots(sfin).add(resolved_slots(rest)).add(forwarded_slots(rest)).add(
            resolved_slots(a1),
        ).add(forwarded_slots(a1)) =~= state_slots(sfin).add(resolved_slots(acts)).add(
            forwarded_slots(acts),
        ));
    }
}

/// The closing step out of the initializing state: resolutions, then the
/// one `StateClosed` event.
proof fn lemma_init_close_shape(q: Seq<(IRCMessageV, Option<u64>)>, e: ConnectionError)
    ensures
        ({
            let a = spec_resolve_queue(q, e) + seq![spec_closed_event(e)];
            &&& count_closed(a) == 1
            &&& count_open(a) == 0
            &&& count_incoming(a) == 0
            &&& frames_of(a) =~= Seq::<IRCMessageV>::empty()
            &&& after_closed_only_kills(a)
        }),
{
    let rs = spec_resolve_queue(q, e);
    let a = rs + seq![spec_closed_event(e)];
    lemma_resolve_queue_shape(q, e);
    lemma_counts_singleton(spec_closed_event(e));
    lemma_counts_add(rs, seq![spec_closed_event(e)]);
    assert forall|i: int, j: int|
        0 <= i < j < a.len() && is_closed_event(#[trigger] a[i]) implies (#[trigger] a[j])
        is FireKillSignals by {
        if i < rs.len() {
            assert(a[i] == rs[i]);
            assert(rs[i] is ResolveReply);
        } else {
            assert(j >= a.len());
        }
    }
}

/// The closing step out of the open state: the one `StateClosed` event,
/// then the kill signals.
proof fn lemma_open_close_shape(e: ConnectionError)
    ensures
        ({
            let a = seq![spec_closed_event(e), LoopActionV::FireKillSignals];
            &&& count_closed(a) == 1
            &&& count_open(a) == 0
            &&& count_incoming(a) == 0
            &&& frames_of(a) =~= Seq::<IRCMessageV>::empty()
            &&& after_closed_only_kills(a)
        }),
{
    let a = seq![spec_closed_event(e), LoopActionV::FireKillSignals];
    assert(a =~= seq![spec_closed_event(e)] + seq![LoopActionV::FireKillSignals]);
    lemma_counts_singleton(spec_closed_event(e));
    lemma_counts_singleton(LoopActionV::FireKillSignals);
    lemma_counts_add(seq![spec_closed_event(e)], seq![LoopActionV::FireKillSignals]);
}

} // verus!
