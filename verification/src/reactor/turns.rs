//! What whole turns of connections come to.

use vstd::prelude::*;

use crate::connector::ConnectError;
use crate::message::Message;
use crate::message_stream;
use crate::message_stream::framing::Received;
use crate::message_stream::queue_points;
use crate::message_stream::rounds;
use crate::message_stream::{MessageStream, ReadError, WriteEvent, WriteJob};
use crate::reactor::connection::{Connection, Direction, Interest, State};
use crate::reactor::readiness::Carryover;
use crate::reactor::scheduler::Turn;
use crate::reactor::token::Token;
use crate::reactor::turn::{TurnStep, Visit};
use crate::reactor::{Action, Reactor, SystemCommand};
use crate::time::Instant;
use crate::{Command, DisconnectReason, Event, PeerId};

verus! {

/// A write that was performed in a turn.
pub struct WriteTaken<M: Message> {
    /// What came of the write.
    pub event: WriteEvent,
    /// When it was performed.
    pub now: Instant,
    /// What was done about it.
    pub actions: Seq<Action<M>>,
    /// How the turn goes on after the write.
    pub step: TurnStep,
    /// The reactor after the write.
    pub after: Reactor,
}

/// The reactor before a certain write of a turn.
pub open spec fn reactor_at<M: Message>(
    start: Reactor,
    writes: Seq<WriteTaken<M>>,
    i: int,
) -> Reactor {
    if i <= 0 {
        start
    } else {
        writes[i - 1].after
    }
}

/// How a turn goes on before a certain write.
pub open spec fn step_at<M: Message>(
    first: TurnStep,
    writes: Seq<WriteTaken<M>>,
    i: int,
) -> TurnStep {
    if i <= 0 {
        first
    } else {
        writes[i - 1].step
    }
}

/// Whether a write was one that the turn has asked for. No write sends more than is queued.
pub open spec fn write_taken<M: Message>(
    start: Reactor,
    first: TurnStep,
    writes: Seq<WriteTaken<M>>,
    i: int,
) -> bool {
    let before = reactor_at(start, writes, i);
    let taken = writes[i];
    &&& step_at(first, writes, i) matches TurnStep::Write { visit, job }
    &&& sent_by(taken.event) <= before.manager@[visit.token.0].stream.tx_msg_buf@.len()
    &&& before.wrote_effect::<M>(
        visit,
        job,
        taken.event,
        taken.now,
        &taken.after,
        taken.actions,
        taken.step,
    )
}

/// Whether a turn that goes on in a certain way leads through the writes.
pub open spec fn writes_follow<M: Message>(
    start: Reactor,
    first: TurnStep,
    writes: Seq<WriteTaken<M>>,
) -> bool {
    forall|i: int| 0 <= i < writes.len() ==> #[trigger] write_taken(start, first, writes, i)
}

/// The number of bytes that a write has taken off the send buffer.
pub open spec fn sent_by(event: WriteEvent) -> int {
    match event {
        WriteEvent::Wrote(n) => n as int,
        WriteEvent::FlushWouldBlock(n) => n as int,
        WriteEvent::FlushFailed(n, _) => n as int,
        WriteEvent::WouldBlock => 0,
        WriteEvent::Failed(_) => 0,
    }
}

/// The error that a write has failed with.
pub open spec fn failure_of(event: WriteEvent) -> Option<std::io::Error> {
    match event {
        WriteEvent::Failed(error) => Some(error),
        WriteEvent::FlushFailed(_, error) => Some(error),
        _ => None,
    }
}

/// Writing has no bearing on whether there is more to read: every write of a turn leaves that as it
/// was, and so does the end of the turn. The writes are all of the same turn.
proof fn lemma_writes_keep_reads<M: Message>(
    start: Reactor,
    first: TurnStep,
    writes: Seq<WriteTaken<M>>,
    n: int,
    more: bool,
)
    requires
        writes_follow(start, first, writes),
        0 <= n <= writes.len(),
        match first {
            TurnStep::Read { .. } => false,
            TurnStep::Write { visit, .. } => visit.read_carryover == more,
            TurnStep::Done(carryover) => carryover.r == more,
        },
    ensures
        match step_at(first, writes, n) {
            TurnStep::Read { .. } => false,
            TurnStep::Write { visit, .. } => visit.read_carryover == more,
            TurnStep::Done(carryover) => carryover.r == more,
        },
    decreases n,
{
    if n > 0 {
        lemma_writes_keep_reads(start, first, writes, n - 1, more);
        assert(write_taken(start, first, writes, n - 1));
    }
}

/// If the reads of a turn end with the news that there is more to read, or that there is not, and
/// the connection survives the turn, then exactly that is what the turn carries over for reading,
/// whether or not the turn also writes and whatever the writes come to.
pub proof fn law_read_work_carries_over<M: Message>(
    before: Reactor,
    visit: Visit,
    rx: Seq<u8>,
    more: bool,
    now: Instant,
    start: Reactor,
    actions: Seq<Action<M>>,
    first: TurnStep,
    writes: Seq<WriteTaken<M>>,
    carryover: Carryover,
)
    requires
        before.end_read_effect::<M>(
            visit,
            rx,
            Ok(more),
            now,
            &start,
            actions,
            first,
        ),
        writes_follow(start, first, writes),
        step_at(first, writes, writes.len() as int) == TurnStep::Done(carryover),
        reactor_at(start, writes, writes.len() as int).manager@.contains_key(visit.token.0),
    ensures
        carryover.r == more,
{
    if writes.len() > 0 {
        assert(write_taken(start, first, writes, 0));
    }
    lemma_writes_keep_reads(start, first, writes, writes.len() as int, more);
}

/// A turn in which the connection is not read from carries nothing over for reading.
pub proof fn law_no_read_work_without_reads<M: Message>(
    before: Reactor,
    turn: Turn,
    pending: Option<std::io::Error>,
    probe: bool,
    rx_buf_len: usize,
    start: Reactor,
    actions: Seq<Action<M>>,
    first: TurnStep,
    writes: Seq<WriteTaken<M>>,
    carryover: Carryover,
)
    requires
        before.begin_effect::<M>(
            turn,
            pending,
            probe,
            rx_buf_len,
            &start,
            actions,
            first,
        ),
        !turn.readable,
        writes_follow(start, first, writes),
        step_at(first, writes, writes.len() as int) == TurnStep::Done(carryover),
    ensures
        !carryover.r,
{
    lemma_writes_keep_reads(start, first, writes, writes.len() as int, false);
}

/// What a write does. The bytes that went out leave the head of the send buffer. If the socket has
/// failed, the peer is removed, its connection is closed along with what is still queued, and the
/// consumer is told of the error. Otherwise the connection stays, and no other connection changes.
pub proof fn law_write_reaches_the_connection<M: Message>(
    before: Reactor,
    visit: Visit,
    job: WriteJob,
    event: WriteEvent,
    now: Instant,
    after: Reactor,
    actions: Seq<Action<M>>,
    step: TurnStep,
)
    requires
        before.wrote_effect::<M>(visit, job, event, now, &after, actions, step),
        visit.of(&before.manager),
        sent_by(event) <= before.manager@[visit.token.0].stream.tx_msg_buf@.len(),
    ensures
        ({
            let key = visit.token.0;
            let old_stream = before.manager@[key].stream;
            let new_stream = after.manager@[key].stream;
            &&& after.manager@.contains_key(key) <==> failure_of(event) is None
            &&& failure_of(event) matches Some(error) ==> {
                &&& actions.len() == 2
                &&& actions[0] matches Action::Close(closed) && closed.token
                    == before.manager@[key].token && closed.direction
                    == before.manager@[key].direction && closed.stream.tx_msg_buf@
                    == old_stream.tx_msg_buf@.skip(sent_by(event))
                &&& actions[1] == Action::<M>::Emit(
                    Event::Disconnected {
                        peer: visit.peer,
                        reason: DisconnectReason::Error(error),
                    },
                )
                &&& step matches TurnStep::Done(carryover) && !carryover.w
                &&& after.manager.vacancies() == before.manager.vacancies().push(key)
            }
            &&& failure_of(event) is None ==> {
                &&& new_stream.tx_msg_buf@ == old_stream.tx_msg_buf@.skip(sent_by(event))
                &&& new_stream.tx_queue_points@ == queue_points::after_write(
                    old_stream.tx_queue_points@,
                    sent_by(event) as nat,
                )
                &&& new_stream.rx_msg_buf == old_stream.rx_msg_buf
                &&& new_stream.config == old_stream.config
                &&& new_stream.ready == old_stream.ready
                &&& new_stream.frame_time == old_stream.frame_time
                &&& new_stream.last_write == (if event is Wrote {
                    now
                } else {
                    old_stream.last_write
                })
                &&& after.manager@[key].token == before.manager@[key].token
                &&& after.manager@[key].direction == before.manager@[key].direction
                &&& after.manager.vacancies() == before.manager.vacancies()
            }
            &&& forall|other: usize|
                other != key ==> (#[trigger] after.manager@.contains_key(other)
                    <==> before.manager@.contains_key(other)) && after.manager@[other]
                    == before.manager@[other]
        }),
{
}

/// How a turn goes on after a write, as long as the socket has not failed. The turn writes again
/// exactly if bytes are left, the socket has taken what it was given, and no budget is used up. It
/// ends otherwise. Write work carries over exactly if bytes are left and the socket has taken what
/// it was given. The socket is no longer polled for writing exactly if nothing is left.
pub proof fn law_unsent_bytes_are_not_forgotten<M: Message>(
    before: Reactor,
    visit: Visit,
    job: WriteJob,
    event: WriteEvent,
    now: Instant,
    after: Reactor,
    actions: Seq<Action<M>>,
    step: TurnStep,
)
    requires
        before.wrote_effect::<M>(visit, job, event, now, &after, actions, step),
        visit.of(&before.manager),
        before.manager@[visit.token.0].stream.tx_msg_buf@.len() > 0,
        sent_by(event) <= before.manager@[visit.token.0].stream.tx_msg_buf@.len(),
        job.syscall_budget > 0,
        job.total_written + before.manager@[visit.token.0].stream.tx_msg_buf@.len() <= usize::MAX,
        failure_of(event) is None,
    ensures
        ({
            let unsent = after.manager@[visit.token.0].stream.tx_msg_buf@.len() > 0;
            let spent = sent_by(event) >= job.write_budget || job.syscall_budget == 1;
            match step {
                TurnStep::Read { .. } => false,
                TurnStep::Write { visit: same, job: next } => {
                    &&& unsent && event is Wrote && !spent
                    &&& same == visit
                    &&& next.total_written == job.total_written + sent_by(event)
                    &&& next.write_budget == job.write_budget - sent_by(event)
                    &&& next.syscall_budget == job.syscall_budget - 1
                    &&& actions.len() == 0
                },
                TurnStep::Done(carryover) => {
                    &&& !unsent || !(event is Wrote) || spent
                    &&& carryover.r == visit.read_carryover
                    &&& carryover.w <==> unsent && event is Wrote
                    &&& !unsent <==> actions.contains(
                        Action::<M>::Reregister {
                            token: visit.token,
                            interest: Interest::Readable,
                        },
                    )
                    &&& forall|i: int|
                        0 <= i < actions.len() && #[trigger] actions[i] is Reregister ==> i == 0
                            && actions[i] == (Action::<M>::Reregister {
                            token: visit.token,
                            interest: Interest::Readable,
                        })
                },
            }
        }),
{
    let connection = after.manager@[visit.token.0];
    if connection.stream.tx_msg_buf@.len() == 0 {
        assert(actions[0] == (Action::<M>::Reregister {
            token: visit.token,
            interest: Interest::Readable,
        }));
    }
}

/// Telemetry of a write goes out exactly if it is enabled, the round of writes is over without a
/// failure, and some bytes went out in the round. It comes last, and tells how many bytes went out
/// and how much space there is now. Nothing else is done but to have the socket polled for reading
/// alone once nothing is left.
pub proof fn law_writes_are_told_of<M: Message>(
    before: Reactor,
    visit: Visit,
    job: WriteJob,
    event: WriteEvent,
    now: Instant,
    after: Reactor,
    actions: Seq<Action<M>>,
    step: TurnStep,
)
    requires
        before.wf::<M>(),
        before.wrote_effect::<M>(visit, job, event, now, &after, actions, step),
        visit.of(&before.manager),
        before.manager@[visit.token.0].stream.tx_msg_buf@.len() > 0,
        sent_by(event) <= before.manager@[visit.token.0].stream.tx_msg_buf@.len(),
        job.total_written + before.manager@[visit.token.0].stream.tx_msg_buf@.len()
            <= isize::MAX,
        failure_of(event) is None,
    ensures
        ({
            let written = job.total_written + sent_by(event);
            let stream = after.manager@[visit.token.0].stream;
            let told = exists|i: int|
                0 <= i < actions.len() && (#[trigger] actions[i]) matches Action::Emit(_);
            &&& step is Done ==> actions.len() == (if stream.tx_msg_buf@.len() == 0 {
                1int
            } else {
                0
            }) + (if told {
                1int
            } else {
                0
            })
            &&& told <==> before.config.stream_config.outbound_telemetry && step is Done && written
                > 0
            &&& told ==> {
                &&& actions.last() matches Action::Emit(
                    Event::OutboundTelemetry { peer, available, delta },
                )
                &&& peer == visit.peer
                &&& delta == -written
                &&& available == before.config.stream_config.tx_buf_max_size.factor() * M::MAX_SIZE
                    - stream.tx_msg_buf@.len()
            }
            &&& forall|i: int|
                0 <= i < actions.len() - 1 ==> !((#[trigger] actions[i]) matches Action::Emit(_))
        }),
{
    let key = visit.token.0;
    assert(before.connection_fits::<M>(before.manager@[key]));
    if before.config.stream_config.outbound_telemetry && step is Done && job.total_written
        + sent_by(event) > 0 {
        assert(actions[actions.len() - 1] matches Action::Emit(_));
    }
}

/// Why a peer is disconnected once a round of reads has ended. There are no reasons but junk, the
/// end of the stream and a failed read.
pub open spec fn reason_to_part<M: Message>(
    rest: Seq<u8>,
    read_result: Result<bool, ReadError>,
) -> Option<DisconnectReason> {
    if rounds::hopeless::<M>(rest) {
        Some(DisconnectReason::CodecViolation)
    } else {
        match read_result {
            Ok(_) => None,
            Err(ReadError::EndOfStream) => Some(DisconnectReason::Left),
            Err(ReadError::Error(error)) => Some(DisconnectReason::Error(error)),
            Err(ReadError::MalformedMessage) => Some(DisconnectReason::CodecViolation),
        }
    }
}

/// What the end of a round of reads does. The messages at the head of the buffered bytes and the
/// new ones go out to the consumer, all of them and in order, before anything else. If the bytes
/// behind them can never become a message, or if the reads have ended with the end of the stream or
/// an error, the peer is removed, its connection is closed and the consumer is told why, whatever
/// is in the receive buffer. Otherwise the connection stays with the bytes behind the messages, and
/// it is time to write to it.
pub proof fn law_reads_reach_the_consumer<M: Message>(
    before: Reactor,
    visit: Visit,
    rx: Seq<u8>,
    read_result: Result<bool, ReadError>,
    now: Instant,
    after: Reactor,
    actions: Seq<Action<M>>,
    step: TurnStep,
) -> (received: Seq<Received<M>>)
    requires
        before.end_read_effect::<M>(
            visit,
            rx,
            read_result,
            now,
            &after,
            actions,
            step,
        ),
        visit.of(&before.manager),
        before.manager@[visit.token.0].stream.rx_msg_buf@.len() + rx.len() <= usize::MAX,
    ensures
        ({
            let key = visit.token.0;
            let n = received.len() as int;
            let connection = before.manager@[key];
            let bytes = connection.stream.rx_msg_buf@ + rx;
            let rest = rounds::behind(bytes, received);
            &&& rounds::at_head(bytes, received)
            &&& n <= actions.len()
            &&& forall|i: int|
                0 <= i < n ==> #[trigger] actions[i] == Action::<M>::Emit(
                    Event::Message {
                        peer: visit.peer,
                        message: received[i].message,
                        size: received[i].size,
                    },
                )
            &&& match reason_to_part::<M>(rest, read_result) {
                Some(reason) => {
                    &&& !after.manager@.contains_key(key)
                    &&& after.manager.vacancies() == before.manager.vacancies().push(key)
                    &&& actions.len() == n + 2
                    &&& actions[n] matches Action::Close(closed) && closed.token
                        == connection.token && closed.direction == connection.direction
                        && closed.stream.tx_msg_buf@ == connection.stream.tx_msg_buf@
                    &&& actions[n + 1] == Action::<M>::Emit(
                        Event::Disconnected { peer: visit.peer, reason },
                    )
                    &&& step == TurnStep::Done(Carryover { r: false, w: false })
                },
                None => {
                    let kept = after.manager@[key];
                    let idle = kept.stream.tx_msg_buf@.len() == 0;
                    &&& after.manager@.contains_key(key)
                    &&& after.manager.vacancies() == before.manager.vacancies()
                    &&& kept.token == connection.token
                    &&& kept.direction == connection.direction
                    &&& kept.stream.rx_msg_buf@ == rest
                    &&& kept.stream.tx_msg_buf == connection.stream.tx_msg_buf
                    &&& kept.stream.tx_queue_points == connection.stream.tx_queue_points
                    &&& kept.stream.config == connection.stream.config
                    &&& kept.stream.ready == connection.stream.ready
                    &&& kept.stream.last_write == connection.stream.last_write
                    &&& actions.len() == n + (if visit.writable && idle {
                        1int
                    } else {
                        0
                    })
                    &&& visit.writable && idle ==> actions[n] == (Action::<M>::Reregister {
                        token: visit.token,
                        interest: Interest::Readable,
                    })
                    &&& match step {
                        TurnStep::Read { .. } => false,
                        TurnStep::Done(carryover) => {
                            &&& !visit.writable || idle
                            &&& read_result == Ok::<bool, ReadError>(carryover.r)
                            &&& !carryover.w
                        },
                        TurnStep::Write { visit: same, job } => {
                            &&& visit.writable && !idle
                            &&& same.token == visit.token
                            &&& same.peer == visit.peer
                            &&& same.writable == visit.writable
                            &&& read_result == Ok::<bool, ReadError>(same.read_carryover)
                            &&& job.write_budget == 131_072
                            &&& job.syscall_budget == 8
                            &&& job.total_written == 0
                        },
                    }
                },
            }
            &&& forall|other: usize|
                other != key ==> (#[trigger] after.manager@.contains_key(other)
                    <==> before.manager@.contains_key(other)) && after.manager@[other]
                    == before.manager@[other]
        }),
{
    let connection = before.manager@[visit.token.0];
    let (kept, received) = choose|kept: Connection, received: Seq<Received<M>>| #[trigger]
        before.read_led_to::<M>(
            visit,
            rx,
            read_result,
            now,
            &after,
            actions,
            step,
            kept,
            received,
        );
    rounds::law_read_gives_what_came_in::<M>(
        connection.stream,
        rx,
        read_result,
        now,
        kept.stream,
        received,
        message_stream::read_outcome::<M>(connection.stream, rx, read_result),
    );
    received
}

/// How the turn of a connection starts. A connection that has just been established gets the next
/// peer id, and one that could not be established is removed; the consumer is told of either. An
/// established connection is read from if it may be read from, and otherwise written to if it may
/// be written to. Nothing else changes.
pub proof fn law_turn_starts<M: Message>(
    before: Reactor,
    turn: Turn,
    pending: Option<std::io::Error>,
    probe: bool,
    rx_buf_len: usize,
    after: Reactor,
    actions: Seq<Action<M>>,
    step: TurnStep,
)
    requires
        before.wf::<M>(),
        before.begin_effect::<M>(turn, pending, probe, rx_buf_len, &after, actions, step),
    ensures
        ({
            let key = turn.token.0;
            let connection = before.manager@[key];
            let stream = connection.stream;
            let over = TurnStep::Done(Carryover { r: false, w: false });
            let unchanged = {
                &&& after.manager@ == before.manager@
                &&& after.manager.vacancies() == before.manager.vacancies()
                &&& after.manager.next_id() == before.manager.next_id()
            };
            if !before.manager@.contains_key(key) {
                &&& unchanged
                &&& actions.len() == 0
                &&& step == over
            } else {
                match (connection.direction, pending) {
                    (Direction::Outbound { target, state: State::Connecting { .. } }, Some(error))
                        => {
                        &&& after.manager@ == before.manager@.remove(key)
                        &&& after.manager.vacancies() == before.manager.vacancies().push(key)
                        &&& after.manager.next_id() == before.manager.next_id()
                        &&& actions == seq![
                            Action::<M>::Discard(turn.token),
                            Action::<M>::Emit(
                                Event::ConnectedTo { target, result: Err(ConnectError::Io(error)) },
                            ),
                        ]
                        &&& step == over
                    },
                    (Direction::Outbound { target, state: State::Connecting { .. } }, None) => {
                        if stream.ready || probe {
                            let peer = PeerId(before.manager.next_id());
                            let made = after.manager@[key];
                            &&& after.manager@ == before.manager@.insert(key, made)
                            &&& made.peer() == Some(peer)
                            &&& made.stream == (MessageStream { ready: true, ..stream })
                            &&& made.direction == (Direction::Outbound {
                                target,
                                state: State::Connected { peer },
                            })
                            &&& made.token == turn.token
                            &&& after.manager.vacancies() == before.manager.vacancies()
                            &&& after.manager.next_id() == before.manager.next_id() + 1
                            &&& actions == seq![
                                Action::<M>::Reregister {
                                    token: turn.token,
                                    interest: Interest::Readable,
                                },
                                Action::<M>::Emit(Event::ConnectedTo { target, result: Ok(peer) }),
                            ]
                            &&& step == over
                        } else {
                            &&& unchanged
                            &&& actions.len() == 0
                            &&& step == over
                        }
                    },
                    _ => {
                        let idle = stream.tx_msg_buf@.len() == 0;
                        &&& unchanged
                        &&& actions.len() == (if !turn.readable && turn.writable && idle {
                            1int
                        } else {
                            0
                        })
                        &&& !turn.readable && turn.writable && idle ==> actions[0] == (Action::<
                            M,
                        >::Reregister { token: turn.token, interest: Interest::Readable })
                        &&& match step {
                            TurnStep::Read { visit, job } => {
                                let space = stream.config.rx_buf_max_size.factor() * M::MAX_SIZE
                                    - stream.rx_msg_buf@.len();
                                &&& turn.readable
                                &&& visit.token == turn.token
                                &&& connection.peer() == Some(visit.peer)
                                &&& visit.writable == turn.writable
                                &&& !visit.read_carryover
                                &&& job.total_read == 0
                                &&& job.limit <= space && job.limit <= rx_buf_len
                                &&& job.limit == space || job.limit == rx_buf_len
                            },
                            TurnStep::Write { visit, job } => {
                                &&& !turn.readable && turn.writable && !idle
                                &&& visit.token == turn.token
                                &&& connection.peer() == Some(visit.peer)
                                &&& visit.writable
                                &&& !visit.read_carryover
                                &&& job.write_budget == 131_072
                                &&& job.syscall_budget == 8
                                &&& job.total_written == 0
                            },
                            TurnStep::Done(carryover) => {
                                &&& !turn.readable && (!turn.writable || idle)
                                &&& !carryover.r && !carryover.w
                            },
                        }
                    },
                }
            }
        }),
{
    if before.manager@.contains_key(turn.token.0) {
        assert(before.connection_fits::<M>(before.manager@[turn.token.0]));
    }
}

/// What the socket of a connection is polled for once some actions were performed.
pub open spec fn polled<M: Message>(
    interest: Interest,
    token: Token,
    actions: Seq<Action<M>>,
) -> Interest
    decreases actions.len(),
{
    if actions.len() == 0 {
        interest
    } else {
        match actions.last() {
            Action::Reregister { token: other, interest: new } => if other == token {
                new
            } else {
                polled(interest, token, actions.drop_last())
            },
            _ => polled(interest, token, actions.drop_last()),
        }
    }
}

/// Whether a connection on which data is queued is established, and its socket is polled for
/// writing.
pub open spec fn watched(reactor: Reactor, key: usize, interest: Interest) -> bool {
    reactor.manager@.contains_key(key) && reactor.manager@[key].stream.tx_msg_buf@.len() > 0 ==> {
        &&& reactor.manager@[key].peer() is Some
        &&& interest == Interest::ReadableWritable
    }
}

/// A socket is polled for the same as before unless an action says otherwise.
proof fn lemma_polled_as_before<M: Message>(
    interest: Interest,
    token: Token,
    actions: Seq<Action<M>>,
)
    requires
        forall|i: int|
            0 <= i < actions.len() ==> !((#[trigger] actions[i]) matches Action::Reregister {
                token: other,
                ..
            } && other == token),
    ensures
        polled(interest, token, actions) == interest,
    decreases actions.len(),
{
    if actions.len() > 0 {
        let fewer = actions.drop_last();
        assert forall|i: int| 0 <= i < fewer.len() implies !((
        #[trigger] fewer[i]) matches Action::Reregister { token: other, .. } && other == token) by {
            assert(fewer[i] == actions[i]);
        }
        lemma_polled_as_before(interest, token, fewer);
        assert(actions[actions.len() - 1] == actions.last());
    }
}

/// Queueing a message has the socket polled for writing, and no other command changes what sockets
/// are polled for: data that is queued on a connection never waits for a socket that is not polled
/// for writing.
pub proof fn law_commands_keep_data_watched<M: Message>(
    before: Reactor,
    command: SystemCommand<M>,
    now: Instant,
    after: Reactor,
    actions: Seq<Action<M>>,
    key: usize,
    interest: Interest,
)
    requires
        before.wf::<M>(),
        before.command_effect::<M>(command, now, &after, actions),
        watched(before, key, interest),
    ensures
        watched(after, key, polled(interest, Token(key), actions)),
{
    reveal_with_fuel(polled, 4);
    match command {
        SystemCommand::P2P(Command::Message(peer, _)) => {
            if let Some(slot) = before.manager.slot(peer) {
                before.manager.law_peer_ids_are_unique(peer, slot);
            }
        },
        SystemCommand::P2P(Command::Disconnect(peer)) => {
            if let Some(slot) = before.manager.slot(peer) {
                before.manager.law_peer_ids_are_unique(peer, slot);
            }
        },
        _ => {},
    }
}

/// The start of a turn keeps data that is queued on a connection from waiting for a socket that is
/// not polled for writing.
pub proof fn law_turn_start_keeps_data_watched<M: Message>(
    before: Reactor,
    turn: Turn,
    pending: Option<std::io::Error>,
    probe: bool,
    rx_buf_len: usize,
    after: Reactor,
    actions: Seq<Action<M>>,
    step: TurnStep,
    key: usize,
    interest: Interest,
)
    requires
        before.wf::<M>(),
        before.begin_effect::<M>(turn, pending, probe, rx_buf_len, &after, actions, step),
        watched(before, key, interest),
    ensures
        watched(after, key, polled(interest, Token(key), actions)),
{
    reveal_with_fuel(polled, 4);
    law_turn_starts(before, turn, pending, probe, rx_buf_len, after, actions, step);
}

/// The end of a round of reads keeps data that is queued on a connection from waiting for a socket
/// that is not polled for writing.
pub proof fn law_reads_keep_data_watched<M: Message>(
    before: Reactor,
    visit: Visit,
    rx: Seq<u8>,
    read_result: Result<bool, ReadError>,
    now: Instant,
    after: Reactor,
    actions: Seq<Action<M>>,
    step: TurnStep,
    key: usize,
    interest: Interest,
)
    requires
        before.end_read_effect::<M>(visit, rx, read_result, now, &after, actions, step),
        visit.of(&before.manager),
        before.manager@[visit.token.0].stream.rx_msg_buf@.len() + rx.len() <= usize::MAX,
        watched(before, key, interest),
    ensures
        watched(after, key, polled(interest, Token(key), actions)),
{
    let received = law_reads_reach_the_consumer(
        before,
        visit,
        rx,
        read_result,
        now,
        after,
        actions,
        step,
    );
    let n = received.len() as int;
    if key != visit.token.0 || (after.manager@.contains_key(key)
        && after.manager@[key].stream.tx_msg_buf@.len() > 0) {
        assert forall|i: int| 0 <= i < actions.len() implies !((
        #[trigger] actions[i]) matches Action::Reregister { token: other, .. } && other == Token(
            key,
        )) by {
            if i < n {
                assert(actions[i] is Emit);
            }
        }
        lemma_polled_as_before(interest, Token(key), actions);
    }
}

/// A write keeps data that is queued on a connection from waiting for a socket that is not polled
/// for writing: the socket is polled for reading alone only once nothing is left.
pub proof fn law_writes_keep_data_watched<M: Message>(
    before: Reactor,
    visit: Visit,
    job: WriteJob,
    event: WriteEvent,
    now: Instant,
    after: Reactor,
    actions: Seq<Action<M>>,
    step: TurnStep,
    key: usize,
    interest: Interest,
)
    requires
        before.wrote_effect::<M>(visit, job, event, now, &after, actions, step),
        visit.of(&before.manager),
        before.manager@[visit.token.0].stream.tx_msg_buf@.len() > 0,
        sent_by(event) <= before.manager@[visit.token.0].stream.tx_msg_buf@.len(),
        job.syscall_budget > 0,
        job.total_written + before.manager@[visit.token.0].stream.tx_msg_buf@.len() <= usize::MAX,
        watched(before, key, interest),
    ensures
        watched(after, key, polled(interest, Token(key), actions)),
{
    law_write_reaches_the_connection(before, visit, job, event, now, after, actions, step);
    if failure_of(event) is None {
        law_unsent_bytes_are_not_forgotten(
            before,
            visit,
            job,
            event,
            now,
            after,
            actions,
            step,
        );
    }
    if key != visit.token.0 || (after.manager@.contains_key(key)
        && after.manager@[key].stream.tx_msg_buf@.len() > 0) {
        assert forall|i: int| 0 <= i < actions.len() implies !((
        #[trigger] actions[i]) matches Action::Reregister { token: other, .. } && other == Token(
            key,
        )) by {
            if actions[i] is Reregister {
                assert(actions.contains(actions[i]));
            }
        }
        lemma_polled_as_before(interest, Token(key), actions);
    }
}

/// A peer whose connection has come to the end of the stream, or has failed, is disconnected in
/// that turn, whatever was read before and whatever is in the receive buffer: no connection of it
/// is left, and the last thing that is done is to tell the consumer.
pub proof fn law_lost_peer_is_disconnected<M: Message>(
    before: Reactor,
    visit: Visit,
    rx: Seq<u8>,
    error: ReadError,
    now: Instant,
    after: Reactor,
    actions: Seq<Action<M>>,
    step: TurnStep,
    key: usize,
)
    requires
        before.wf::<M>(),
        before.end_read_effect::<M>(visit, rx, Err(error), now, &after, actions, step),
        visit.of(&before.manager),
        before.manager@[visit.token.0].stream.rx_msg_buf@.len() + rx.len() <= usize::MAX,
    ensures
        after.manager@.contains_key(key) ==> after.manager@[key].peer() != Some(visit.peer),
        actions.len() > 0,
        match actions.last() {
            Action::Emit(Event::Disconnected { peer, reason }) => {
                &&& peer == visit.peer
                &&& reason == DisconnectReason::CodecViolation || match error {
                    ReadError::EndOfStream => reason == DisconnectReason::Left,
                    ReadError::Error(cause) => reason == DisconnectReason::Error(cause),
                    ReadError::MalformedMessage => false,
                }
            },
            _ => false,
        },
        step == TurnStep::Done(Carryover { r: false, w: false }),
{
    let received = law_reads_reach_the_consumer(
        before,
        visit,
        rx,
        Err(error),
        now,
        after,
        actions,
        step,
    );
    before.manager.law_peer_ids_are_unique(visit.peer, visit.token.0);
    if after.manager@.contains_key(key) {
        before.manager.law_peer_ids_are_unique(visit.peer, key);
    }
}

/// Everything that is done about the first writes of a turn, in order.
pub open spec fn done_so_far<M: Message>(writes: Seq<WriteTaken<M>>, n: int) -> Seq<Action<M>>
    decreases n,
{
    if n <= 0 {
        Seq::empty()
    } else {
        done_so_far(writes, n - 1) + writes[n - 1].actions
    }
}

/// Whether a turn goes on with a write only while there is something to write and some budget left.
pub open spec fn worth_writing(reactor: Reactor, step: TurnStep) -> bool {
    step matches TurnStep::Write { visit, job } ==> {
        let queued = reactor.manager@[visit.token.0].stream.tx_msg_buf@.len();
        &&& visit.of(&reactor.manager)
        &&& queued > 0
        &&& job.syscall_budget > 0
        &&& job.total_written + queued <= usize::MAX
    }
}

/// What a socket is polled for after some actions and some more is what the latter make of the
/// former.
proof fn lemma_polled_adds_up<M: Message>(
    interest: Interest,
    token: Token,
    first: Seq<Action<M>>,
    second: Seq<Action<M>>,
)
    ensures
        polled(interest, token, first + second) == polled(
            polled(interest, token, first),
            token,
            second,
        ),
    decreases second.len(),
{
    if second.len() == 0 {
        assert(first + second =~= first);
    } else {
        lemma_polled_adds_up(interest, token, first, second.drop_last());
        assert((first + second).drop_last() =~= first + second.drop_last());
        assert((first + second).last() == second.last());
    }
}

/// However many writes a turn has and whatever they come to: data that is still queued at its end,
/// on this or any other connection, does not wait for a socket that is not polled for writing. The
/// turn asks for a write only while there is something to write.
pub proof fn law_turn_leaves_data_watched<M: Message>(
    start: Reactor,
    first: TurnStep,
    writes: Seq<WriteTaken<M>>,
    n: int,
    key: usize,
    interest: Interest,
)
    requires
        worth_writing(start, first),
        writes_follow(start, first, writes),
        0 <= n <= writes.len(),
        watched(start, key, interest),
    ensures
        watched(
            reactor_at(start, writes, n),
            key,
            polled(interest, Token(key), done_so_far(writes, n)),
        ),
        worth_writing(reactor_at(start, writes, n), step_at(first, writes, n)),
    decreases n,
{
    if n > 0 {
        law_turn_leaves_data_watched(start, first, writes, n - 1, key, interest);
        assert(write_taken(start, first, writes, n - 1));
        let before = reactor_at(start, writes, n - 1);
        let so_far = done_so_far(writes, n - 1);
        let taken = writes[n - 1];
        if let TurnStep::Write { visit, job } = step_at(first, writes, n - 1) {
            law_writes_keep_data_watched(
                before,
                visit,
                job,
                taken.event,
                taken.now,
                taken.after,
                taken.actions,
                taken.step,
                key,
                polled(interest, Token(key), so_far),
            );
            law_write_reaches_the_connection(
                before,
                visit,
                job,
                taken.event,
                taken.now,
                taken.after,
                taken.actions,
                taken.step,
            );
            if failure_of(taken.event) is None {
                law_unsent_bytes_are_not_forgotten(
                    before,
                    visit,
                    job,
                    taken.event,
                    taken.now,
                    taken.after,
                    taken.actions,
                    taken.step,
                );
            }
        }
        lemma_polled_adds_up(interest, Token(key), so_far, taken.actions);
    }
}

} // verus!
