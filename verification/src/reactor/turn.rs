//! The turns of connections: what a connection that is ready is read and written for.

use vstd::prelude::*;

use crate::connector::ConnectError;
use crate::message::Message;
use crate::message_stream;
use crate::message_stream::framing::Received;
use crate::message_stream::{MessageStream, ReadError, ReadJob, WriteEvent, WriteJob};
use crate::reactor;
use crate::reactor::connection;
use crate::reactor::connection::{
    Connection, Direction, FlushStep, Flushed, Interest, State,
};
use crate::reactor::manager;
use crate::reactor::manager::{Connectedness, Manager};
use crate::reactor::readiness::Carryover;
use crate::reactor::scheduler::Turn;
use crate::reactor::token::Token;
use crate::reactor::{Action, Reactor};
use crate::time::Instant;
use crate::{DisconnectReason, Event, PeerId};

verus! {

/// The turn of an established connection.
#[derive(Debug, Clone, Copy)]
pub struct Visit {
    /// The token of the connection.
    pub token: Token,
    /// The peer on the other side.
    pub peer: PeerId,
    /// Whether the connection is to be written to in this turn.
    pub writable: bool,
    /// Whether there is more to read from the connection.
    pub read_carryover: bool,
}

impl Visit {
    /// Whether the connection whose turn it is exists.
    pub open spec fn of(self, manager: &Manager) -> bool {
        &&& manager@.contains_key(self.token.0)
        &&& manager@[self.token.0].peer() == Some(self.peer)
    }
}

/// How a turn goes on.
#[allow(inconsistent_fields)]
#[derive(Debug)]
pub enum TurnStep {
    /// Perform a round of reads, then hand over what was read.
    Read {
        /// Whose turn it is.
        visit: Visit,
        /// The round of reads.
        job: ReadJob,
    },
    /// Write out the send buffer, then tell what came of it.
    Write {
        /// Whose turn it is.
        visit: Visit,
        /// The round of writes.
        job: WriteJob,
    },
    /// The turn is over.
    Done(Carryover),
}

/// By how much a send buffer changes when bytes leave it.
pub open spec fn shrinkage(n: usize) -> isize {
    if n <= isize::MAX {
        (-(n as int)) as isize
    } else {
        (usize::MAX - n + 1) as isize
    }
}

/// Computes by how much a send buffer changes when bytes leave it.
fn to_shrinkage(n: usize) -> (delta: isize)
    ensures
        delta == shrinkage(n),
{
    if n <= isize::MAX as usize {
        -(n as isize)
    } else {
        (usize::MAX - n + 1) as isize
    }
}

/// The events that messages from a peer lead to.
pub open spec fn deliveries<M: Message>(peer: PeerId, received: Seq<Received<M>>) -> Seq<
    Action<M>,
> {
    received.map_values(
        |one: Received<M>|
            Action::Emit(Event::Message { peer, message: one.message, size: one.size }),
    )
}

/// Why a peer is disconnected that cannot be read from any more.
pub open spec fn reason_of(error: ReadError) -> DisconnectReason {
    match error {
        ReadError::MalformedMessage => DisconnectReason::CodecViolation,
        ReadError::EndOfStream => DisconnectReason::Left,
        ReadError::Error(error) => DisconnectReason::Error(error),
    }
}

/// Decides why a peer is disconnected that cannot be read from any more.
fn to_reason(error: ReadError) -> (reason: DisconnectReason)
    ensures
        reason == reason_of(error),
{
    match error {
        ReadError::MalformedMessage => DisconnectReason::CodecViolation,
        ReadError::EndOfStream => DisconnectReason::Left,
        ReadError::Error(error) => DisconnectReason::Error(error),
    }
}

/// What is done about a peer that is disconnected.
pub open spec fn farewell<M: Message>(
    connection: Connection,
    peer: PeerId,
    reason: DisconnectReason,
) -> Seq<Action<M>> {
    seq![Action::Close(connection), Action::Emit(Event::Disconnected { peer, reason })]
}

/// What is done about a connection on which a round of writes has come so far.
pub open spec fn flush_actions<M: Message>(
    connection: Connection,
    visit: Visit,
    step: FlushStep,
) -> Seq<Action<M>> {
    match step {
        FlushStep::Again(_) => Seq::empty(),
        FlushStep::Stop(Ok(flushed)) => (match flushed.interest {
            Some(interest) => seq![Action::Reregister { token: visit.token, interest }],
            None => Seq::empty(),
        }) + reactor::telemetry::<M>(
            connection.stream.config.outbound_telemetry,
            flushed.written as nat,
            visit.peer,
            (connection.stream.tx_max::<M>() - connection.stream.tx_msg_buf@.len()) as nat,
            shrinkage(flushed.written),
        ),
        FlushStep::Stop(Err(error)) => farewell(
            connection,
            visit.peer,
            DisconnectReason::Error(error),
        ),
    }
}

/// How a turn goes on in which a round of writes has come so far.
pub open spec fn flush_turn(visit: Visit, step: FlushStep) -> TurnStep {
    match step {
        FlushStep::Again(job) => TurnStep::Write { visit, job },
        FlushStep::Stop(Ok(flushed)) => TurnStep::Done(
            Carryover { r: visit.read_carryover, w: flushed.more },
        ),
        FlushStep::Stop(Err(_)) => TurnStep::Done(
            Carryover { r: visit.read_carryover, w: false },
        ),
    }
}

/// How a round of writes on a connection starts. It is over at once if no data is queued.
pub open spec fn flush_start(connection: Connection) -> FlushStep {
    if connection.stream.tx_msg_buf@.len() == 0 {
        FlushStep::Stop(Ok(Flushed { more: false, written: 0, interest: Some(Interest::Readable) }))
    } else {
        FlushStep::Again(
            WriteJob {
                write_budget: message_stream::WRITE_BUDGET,
                syscall_budget: message_stream::SYSCALL_BUDGET,
                total_written: 0,
            },
        )
    }
}

/// What is done about a connection once it is time to write to it, if it is to be written to.
pub open spec fn write_actions<M: Message>(connection: Connection, visit: Visit) -> Seq<Action<M>> {
    if visit.writable {
        flush_actions::<M>(connection, visit, flush_start(connection))
    } else {
        Seq::empty()
    }
}

/// How a turn goes on once it is time to write to the connection, if it is to be written to.
pub open spec fn write_turn(connection: Connection, visit: Visit) -> TurnStep {
    if visit.writable {
        flush_turn(visit, flush_start(connection))
    } else {
        TurnStep::Done(Carryover { r: visit.read_carryover, w: false })
    }
}

impl Reactor {
    /// What the start of a turn does and leads to.
    pub open spec fn begin_effect<M: Message>(
        &self,
        turn: Turn,
        pending: Option<std::io::Error>,
        probe: bool,
        rx_buf_len: usize,
        next: &Reactor,
        actions: Seq<Action<M>>,
        step: TurnStep,
    ) -> bool {
        let none = Carryover { r: false, w: false };
        let before = self.manager;
        let after = next.manager;
        match manager::readiness(before, turn.token, pending, probe) {
            Connectedness::Nonexistent | Connectedness::NotReady => {
                &&& actions =~= Seq::<Action<M>>::empty()
                &&& step == TurnStep::Done(none)
                &&& after@ =~= before@
                &&& after.vacancies() == before.vacancies()
                &&& after.next_id() == before.next_id()
            },
            Connectedness::New { peer, target } => {
                &&& actions =~= seq![
                    Action::<M>::Reregister {
                        token: turn.token,
                        interest: Interest::Readable,
                    },
                    Action::<M>::Emit(Event::ConnectedTo { target, result: Ok(peer) }),
                ]
                &&& step == TurnStep::Done(none)
                &&& peer == PeerId(before.next_id())
                &&& after.next_id() == before.next_id() + 1
                &&& after.vacancies() == before.vacancies()
                &&& after@ =~= before@.insert(
                    turn.token.0,
                    Connection {
                        stream: MessageStream {
                            ready: true,
                            ..before@[turn.token.0].stream
                        },
                        direction: Direction::Outbound {
                            target,
                            state: State::Connected { peer },
                        },
                        token: turn.token,
                    },
                )
            },
            Connectedness::Errored { target, error } => {
                &&& actions =~= seq![
                    Action::<M>::Discard(turn.token),
                    Action::<M>::Emit(
                        Event::ConnectedTo {
                            target,
                            result: Err(ConnectError::Io(error)),
                        },
                    ),
                ]
                &&& step == TurnStep::Done(none)
                &&& after@ =~= before@.remove(turn.token.0)
                &&& after.vacancies() == before.vacancies().push(turn.token.0)
                &&& after.next_id() == before.next_id()
            },
            Connectedness::Ready { peer } => {
                let connection = before@[turn.token.0];
                let visit = Visit {
                    token: turn.token,
                    peer,
                    writable: turn.writable,
                    read_carryover: false,
                };
                &&& visit.of(&after)
                &&& after@ =~= before@
                &&& after.vacancies() == before.vacancies()
                &&& after.next_id() == before.next_id()
                &&& if turn.readable {
                    &&& actions =~= Seq::<Action<M>>::empty()
                    &&& step == (TurnStep::Read {
                        visit,
                        job: ReadJob {
                            limit: vstd::math::min(
                                connection.stream.rx_max::<M>()
                                    - connection.stream.rx_msg_buf@.len(),
                                rx_buf_len as int,
                            ) as usize,
                            total_read: 0,
                        },
                    })
                } else {
                    &&& actions =~= write_actions::<M>(connection, visit)
                    &&& step == write_turn(connection, visit)
                }
            },
        }
    }

    /// What the end of a round of reads does and leads to, given what is left of the connection and
    /// which messages were received.
    pub open spec fn read_led_to<M: Message>(
        &self,
        visit: Visit,
        rx: Seq<u8>,
        read_result: Result<bool, ReadError>,
        now: Instant,
        next: &Reactor,
        actions: Seq<Action<M>>,
        step: TurnStep,
        after: Connection,
        received: Seq<Received<M>>,
    ) -> bool {
        let before = self.manager@[visit.token.0];
        let outcome = message_stream::read_outcome::<M>(before.stream, rx, read_result);
        &&& after.same_link(&before)
        &&& message_stream::read_effect::<M>(
            before.stream,
            rx,
            read_result,
            now,
            after.stream,
            received,
            outcome,
        )
        &&& match outcome {
            Ok(more) => {
                let visit = Visit { read_carryover: more, ..visit };
                &&& next.manager@ =~= self.manager@.insert(visit.token.0, after)
                &&& next.manager.vacancies() == self.manager.vacancies()
                &&& actions =~= deliveries(visit.peer, received) + write_actions::<M>(after, visit)
                &&& step == write_turn(after, visit)
            },
            Err(error) => {
                &&& next.manager@ =~= self.manager@.remove(visit.token.0)
                &&& next.manager.vacancies() == self.manager.vacancies().push(visit.token.0)
                &&& actions =~= deliveries(visit.peer, received) + farewell::<M>(
                    after,
                    visit.peer,
                    reason_of(error),
                )
                &&& step == TurnStep::Done(Carryover { r: false, w: false })
            },
        }
    }

    /// What the end of a round of reads does and leads to.
    pub open spec fn end_read_effect<M: Message>(
        &self,
        visit: Visit,
        rx: Seq<u8>,
        read_result: Result<bool, ReadError>,
        now: Instant,
        next: &Reactor,
        actions: Seq<Action<M>>,
        step: TurnStep,
    ) -> bool {
        exists|after: Connection, received: Seq<Received<M>>| #[trigger]
            self.read_led_to::<M>(
                visit,
                rx,
                read_result,
                now,
                next,
                actions,
                step,
                after,
                received,
            )
    }

    /// What a write of the send buffer does and leads to.
    pub open spec fn wrote_effect<M: Message>(
        &self,
        visit: Visit,
        job: WriteJob,
        event: WriteEvent,
        now: Instant,
        next: &Reactor,
        actions: Seq<Action<M>>,
        step: TurnStep,
    ) -> bool {
        let before = self.manager@[visit.token.0];
        exists|after: Connection|
            {
                let flush = connection::flush_step(
                    message_stream::write_verdict(
                        job,
                        event,
                        after.stream.tx_msg_buf@.len() > 0,
                    ),
                );
                &&& #[trigger] after.same_link(&before)
                &&& message_stream::write_effect(before.stream, event, now, after.stream)
                &&& actions =~= flush_actions::<M>(after, visit, flush)
                &&& step == flush_turn(visit, flush)
                &&& next.manager@ =~= (if flush is Stop && flush->Stop_0 is Err {
                    self.manager@.remove(visit.token.0)
                } else {
                    self.manager@.insert(visit.token.0, after)
                })
                &&& next.manager.vacancies() == (if flush is Stop && flush->Stop_0
                    is Err {
                    self.manager.vacancies().push(visit.token.0)
                } else {
                    self.manager.vacancies()
                })
            }
    }

    /// Takes a round of writes into account. A peer that cannot be written to is disconnected.
    fn flush<M: Message>(
        &mut self,
        visit: Visit,
        step: FlushStep,
        actions: &mut Vec<Action<M>>,
    ) -> (next: TurnStep)
        requires
            old(self).wf::<M>(),
            visit.of(&old(self).manager),
        ensures
            final(self).wf::<M>(),
            final(self).same_but_connections(old(self)),
            final(self).manager.next_id() == old(self).manager.next_id(),
            final(actions)@ == old(actions)@ + flush_actions::<M>(
                old(self).manager@[visit.token.0],
                visit,
                step,
            ),
            next == flush_turn(visit, step),
            final(self).manager@ == (if step is Stop && step->Stop_0 is Err {
                old(self).manager@.remove(visit.token.0)
            } else {
                old(self).manager@
            }),
            final(self).manager.vacancies() == (if step is Stop && step->Stop_0 is Err {
                old(self).manager.vacancies().push(visit.token.0)
            } else {
                old(self).manager.vacancies()
            }),
    {
        match step {
            FlushStep::Again(job) => {
                assert(actions@ =~= old(actions)@ + Seq::<Action<M>>::empty());
                TurnStep::Write { visit, job }
            },
            FlushStep::Stop(Ok(flushed)) => {
                match flushed.interest {
                    Some(interest) => {
                        actions.push(Action::Reregister { token: visit.token, interest });
                    },
                    None => {},
                }
                match self.manager.get(visit.token) {
                    Some(connection) => {
                        proof {
                            self.manager.law_peer_ids_are_unique(visit.peer, visit.token.0);
                        }
                        if flushed.written > 0 && connection.config().outbound_telemetry {
                            actions.push(
                                Action::Emit(
                                    Event::OutboundTelemetry {
                                        peer: visit.peer,
                                        available: connection.available::<M>(),
                                        delta: to_shrinkage(flushed.written),
                                    },
                                ),
                            );
                        }
                    },
                    None => {},
                }
                assert(actions@ =~= old(actions)@ + flush_actions::<M>(
                    old(self).manager@[visit.token.0],
                    visit,
                    step,
                ));
                TurnStep::Done(Carryover { r: visit.read_carryover, w: flushed.more })
            },
            FlushStep::Stop(Err(error)) => {
                self.part::<M>(visit, DisconnectReason::Error(error), actions);
                TurnStep::Done(Carryover { r: visit.read_carryover, w: false })
            },
        }
    }

    /// Disconnects a peer that cannot be read from or written to any more.
    fn part<M: Message>(
        &mut self,
        visit: Visit,
        reason: DisconnectReason,
        actions: &mut Vec<Action<M>>,
    )
        requires
            old(self).wf::<M>(),
            visit.of(&old(self).manager),
        ensures
            final(self).wf::<M>(),
            final(self).same_but_connections(old(self)),
            final(self).manager.next_id() == old(self).manager.next_id(),
            final(actions)@ == old(actions)@ + farewell::<M>(
                old(self).manager@[visit.token.0],
                visit.peer,
                reason,
            ),
            final(self).manager@ == old(self).manager@.remove(visit.token.0),
            final(self).manager.vacancies() == old(self).manager.vacancies().push(visit.token.0),
    {
        proof {
            self.manager.law_peer_ids_are_unique(visit.peer, visit.token.0);
        }
        match self.manager.disconnect(&visit.peer) {
            Some(connection) => {
                actions.push(Action::Close(connection));
            },
            None => {},
        }
        actions.push(Action::Emit(Event::Disconnected { peer: visit.peer, reason }));
        assert(actions@ =~= old(actions)@ + farewell::<M>(
            old(self).manager@[visit.token.0],
            visit.peer,
            reason,
        ));
    }

    /// Starts to write to a connection, if it is to be written to.
    fn begin_flush<M: Message>(&mut self, visit: Visit, actions: &mut Vec<Action<M>>) -> (next:
        TurnStep)
        requires
            old(self).wf::<M>(),
            visit.of(&old(self).manager),
        ensures
            final(self).wf::<M>(),
            final(self).same_but_connections(old(self)),
            final(self).manager.next_id() == old(self).manager.next_id(),
            final(self).manager@ == old(self).manager@,
            final(self).manager.vacancies() == old(self).manager.vacancies(),
            final(actions)@ == old(actions)@ + write_actions::<M>(
                old(self).manager@[visit.token.0],
                visit,
            ),
            next == write_turn(old(self).manager@[visit.token.0], visit),
    {
        let mut start: Option<FlushStep> = None;
        if visit.writable {
            match self.manager.get(visit.token) {
                Some(connection) => {
                    proof {
                        self.manager.law_peer_ids_are_unique(visit.peer, visit.token.0);
                    }
                    start = Some(connection.begin_write());
                },
                None => {},
            }
        }
        match start {
            Some(step) => self.flush::<M>(visit, step, actions),
            None => {
                assert(actions@ =~= old(actions)@ + Seq::<Action<M>>::empty());
                TurnStep::Done(Carryover { r: visit.read_carryover, w: false })
            },
        }
    }

    /// Starts the turn of a connection. If the connection is still being established, `pending` is
    /// the error that is pending on its socket, and `probe` tells whether the socket knows its
    /// peer. The size of the shared receive buffer limits how much can be read.
    ///
    /// Readiness that maps to no connection must be a pure carryover. A socket that is connecting
    /// is polled for writing alone, so it can be written to and not read from when it becomes
    /// ready.
    pub fn begin_turn<M: Message>(
        &mut self,
        turn: &Turn,
        pending: Option<std::io::Error>,
        probe: bool,
        rx_buf_len: usize,
    ) -> (next: (Vec<Action<M>>, TurnStep))
        requires
            old(self).wf::<M>(),
            match manager::readiness(old(self).manager, turn.token, pending, probe) {
                Connectedness::Nonexistent => turn.standalone,
                Connectedness::New { .. } => {
                    &&& !turn.readable
                    &&& turn.writable
                    &&& old(self).manager.next_id() < u64::MAX
                },
                _ => true,
            },
        ensures
            final(self).wf::<M>(),
            final(self).same_but_connections(old(self)),
            old(self).begin_effect::<M>(
                *turn,
                pending,
                probe,
                rx_buf_len,
                final(self),
                next.0@,
                next.1,
            ),
    {
        let mut actions: Vec<Action<M>> = Vec::new();
        match self.manager.try_ready(turn.token, pending, probe) {
            Connectedness::Nonexistent => {
                // standalone readiness that maps to no connection, probably expired
                (actions, TurnStep::Done(Carryover::none()))
            },
            Connectedness::NotReady => (actions, TurnStep::Done(Carryover::none())),
            Connectedness::New { peer, target } => {
                actions.push(
                    Action::Reregister { token: turn.token, interest: Interest::Readable },
                );
                actions.push(Action::Emit(Event::ConnectedTo { target, result: Ok(peer) }));
                (actions, TurnStep::Done(Carryover::none()))
            },
            Connectedness::Errored { target, error } => {
                actions.push(Action::Discard(turn.token));
                actions.push(
                    Action::Emit(
                        Event::ConnectedTo { target, result: Err(ConnectError::Io(error)) },
                    ),
                );
                (actions, TurnStep::Done(Carryover::none()))
            },
            Connectedness::Ready { peer } => {
                let visit: Visit = Visit {
                    token: turn.token,
                    peer,
                    writable: turn.writable,
                    read_carryover: false,
                };
                proof {
                    self.manager.law_peer_ids_are_unique(peer, turn.token.0);
                }
                if turn.readable {
                    match self.manager.get(turn.token) {
                        Some(connection) => {
                            let job: ReadJob = connection.begin_read::<M>(rx_buf_len);
                            (actions, TurnStep::Read { visit, job })
                        },
                        None => (actions, TurnStep::Done(Carryover::none())),
                    }
                } else {
                    let step: TurnStep = self.begin_flush::<M>(visit, &mut actions);
                    (actions, step)
                }
            },
        }
    }

    /// Goes on with a turn once a round of reads is over, with the bytes that were read and what
    /// the round has ended with. All messages that can be decoded go out to the consumer, in the
    /// order in which the peer has sent them. A peer that cannot be read from any more is
    /// disconnected. Otherwise it is time to write to the connection.
    pub fn end_read<M: Message>(
        &mut self,
        visit: Visit,
        rx_buf: &[u8],
        read_result: Result<bool, ReadError>,
        now: Instant,
    ) -> (next: (Vec<Action<M>>, TurnStep))
        requires
            old(self).wf::<M>(),
            visit.of(&old(self).manager),
            ({
                let stream = old(self).manager@[visit.token.0].stream;
                rx_buf@.len() <= stream.rx_max::<M>() - stream.rx_msg_buf@.len()
            }),
        ensures
            final(self).wf::<M>(),
            final(self).same_but_connections(old(self)),
            final(self).manager.next_id() == old(self).manager.next_id(),
            old(self).end_read_effect::<M>(
                visit,
                rx_buf@,
                read_result,
                now,
                final(self),
                next.0@,
                next.1,
            ),
            read_result is Err ==> {
                &&& !final(self).manager@.contains_key(visit.token.0)
                &&& next.0@.last() matches Action::Emit(Event::Disconnected { peer, .. })
                &&& peer == visit.peer
            },
            read_result matches Ok(more) ==> {
                ||| !final(self).manager@.contains_key(visit.token.0)
                ||| match next.1 {
                    TurnStep::Read { .. } => false,
                    TurnStep::Write { visit: same, .. } => same.read_carryover == more,
                    TurnStep::Done(carryover) => carryover.r == more,
                }
            },
    {
        let mut actions: Vec<Action<M>> = Vec::new();
        proof {
            self.manager.law_peer_ids_are_unique(visit.peer, visit.token.0);
        }
        match self.manager.get_mut(visit.token) {
            Some(connection) => {
                let (received, result): (Vec<Received<M>>, Result<bool, ReadError>) =
                    connection.read::<M>(rx_buf, read_result, now);
                let ghost after = *connection;
                let ghost messages = received@;
                assert(actions@ =~= deliveries(visit.peer, messages.take(0)));
                for one in it: received
                    invariant
                        it.seq() == messages,
                        actions@ == deliveries(visit.peer, messages.take(it.index() as int)),
                {
                    actions.push(
                        Action::Emit(
                            Event::Message {
                                peer: visit.peer,
                                message: one.message,
                                size: one.size,
                            },
                        ),
                    );
                    assert(actions@ =~= deliveries(
                        visit.peer,
                        messages.take(it.index() as int + 1),
                    ));
                }
                assert(messages.take(messages.len() as int) =~= messages);
                assert(after.same_link(&old(self).manager@[visit.token.0]));
                match result {
                    Ok(more) => {
                        let step: TurnStep = self.begin_flush::<M>(
                            Visit { read_carryover: more, ..visit },
                            &mut actions,
                        );
                        assert(old(self).read_led_to::<M>(
                            visit,
                            rx_buf@,
                            read_result,
                            now,
                            self,
                            actions@,
                            step,
                            after,
                            messages,
                        ));
                        (actions, step)
                    },
                    Err(error) => {
                        self.part::<M>(visit, to_reason(error), &mut actions);
                        let step: TurnStep = TurnStep::Done(Carryover::none());
                        assert(old(self).read_led_to::<M>(
                            visit,
                            rx_buf@,
                            read_result,
                            now,
                            self,
                            actions@,
                            step,
                            after,
                            messages,
                        ));
                        (actions, step)
                    },
                }
            },
            None => (actions, TurnStep::Done(Carryover::none())),
        }
    }

    /// Goes on with a turn once the send buffer was written out, with what came of that. Bytes
    /// leave the send buffer in the order in which they were queued. A peer that cannot be written
    /// to any more is disconnected.
    pub fn wrote<M: Message>(
        &mut self,
        visit: Visit,
        job: WriteJob,
        event: WriteEvent,
        now: Instant,
    ) -> (next: (Vec<Action<M>>, TurnStep))
        requires
            old(self).wf::<M>(),
            visit.of(&old(self).manager),
            job.syscall_budget > 0,
            ({
                let queued = old(self).manager@[visit.token.0].stream.tx_msg_buf@.len();
                &&& job.total_written + queued <= usize::MAX
                &&& event.written() <= queued
            }),
        ensures
            final(self).wf::<M>(),
            final(self).same_but_connections(old(self)),
            final(self).manager.next_id() == old(self).manager.next_id(),
            old(self).wrote_effect::<M>(visit, job, event, now, final(self), next.0@, next.1),
            next.1 matches TurnStep::Done(carryover) ==> carryover.r == visit.read_carryover,
            next.1 matches TurnStep::Write { visit: same, job: remaining } ==> {
                &&& same == visit
                &&& visit.of(&final(self).manager)
                &&& 0 < remaining.syscall_budget < job.syscall_budget
                &&& ({
                    let before = old(self).manager@[visit.token.0].stream;
                    let after = final(self).manager@[visit.token.0].stream;
                    remaining.total_written + after.tx_msg_buf@.len() == job.total_written
                        + before.tx_msg_buf@.len()
                })
            },
    {
        let mut actions: Vec<Action<M>> = Vec::new();
        proof {
            self.manager.law_peer_ids_are_unique(visit.peer, visit.token.0);
        }
        match self.manager.get_mut(visit.token) {
            Some(connection) => {
                let step: FlushStep = connection.write(job, event, now);
                let ghost after = *connection;
                assert(after.same_link(&old(self).manager@[visit.token.0]));
                let next: TurnStep = self.flush::<M>(visit, step, &mut actions);
                assert(actions@ =~= flush_actions::<M>(after, visit, step));
                assert(old(self).manager@.insert(visit.token.0, after).remove(visit.token.0)
                    =~= old(self).manager@.remove(visit.token.0));
                (actions, next)
            },
            None => (actions, TurnStep::Done(Carryover::none())),
        }
    }
}

/// The change of a send buffer that bytes leave is that of one that they enter, the other way
/// round. What has no place below zero comes round from above.
pub proof fn law_what_leaves_is_taken_away(n: usize)
    ensures
        n <= isize::MAX ==> shrinkage(n) == -n && reactor::growth(n) == n,
        n > isize::MAX + 1 ==> shrinkage(n) == usize::MAX - n + 1,
{
}

} // verus!
