//! The reactor: what becomes of commands, connect attempts, listeners and ready connections.
//!
//! The reactor decides; a driver performs. Whatever the driver is to do comes as [`Action`]s, in
//! the order in which they are to be performed. The driver stops the reactor if one of them fails.

pub mod answers;
pub mod carried;
pub mod connection;
pub mod handle;
pub mod manager;
pub mod passes;
pub mod readiness;
pub mod scheduler;
pub mod slots;
pub mod token;
pub mod turn;
pub mod turns;

use vstd::prelude::*;

use crate::connector::{ConnectError, SocketAddr, Target};
use crate::message::Message;
use crate::message_stream;
use crate::reactor::connection::{Connection, Direction, Interest, State};
use crate::reactor::manager::{Dead, Manager};
use crate::reactor::readiness::Readiness;
use crate::reactor::scheduler::Scheduler;
use crate::reactor::token::Token;
use crate::time;
use crate::time::{Duration, Instant};
use crate::{Command, Config, DisconnectReason, Event, PeerId};

verus! {

/// Determines how the reactor should be shut down.
#[derive(Debug, Clone, Copy)]
pub enum Termination {
    /// Shuts down the reactor immediately and tries to flush whatever was in the outbound buffers
    /// without waiting further.
    Immediate,
    /// Shuts down the reactor but attempts to deliver all pending messages before closing.
    TryFlush(Duration),
}

/// System commands.
#[derive(Debug)]
pub enum SystemCommand<M: Message> {
    /// Various P2P commands.
    P2P(Command<M>),
    /// Close all connections and shut down the reactor.
    Shutdown(Termination),
}

/// What a driver is to do.
#[derive(Debug)]
pub enum Action<M: Message> {
    /// Make a connect attempt.
    Connect(Target),
    /// Poll the socket of a connection for something else from now on.
    Reregister {
        /// The token of the connection.
        token: Token,
        /// What the socket is to be polled for.
        interest: Interest,
    },
    /// Deregister and close the socket of a connection that could not be established. It does not
    /// matter whether the socket could be deregistered.
    Discard(Token),
    /// Deregister the socket of a connection that was removed. Then make one attempt to write out
    /// what is still queued on the connection, and shut the socket down; it does not matter what
    /// comes of these two.
    Close(Connection),
    /// Hand an event to the consumer.
    Emit(Event<M>),
    /// Close all connections, with that much time to flush them, and stop.
    Shutdown(Option<Duration>),
}

/// What came of an attempt to accept a connection.
#[derive(Debug, Clone, Copy)]
pub enum AcceptEvent {
    /// A connection came in from an address. Its socket was registered under the next token.
    Accepted(SocketAddr),
    /// There is no connection to accept at present.
    WouldBlock,
    /// The attempt failed.
    Failed,
}

/// By how much a send buffer changes when bytes enter it.
pub open spec fn growth(n: usize) -> isize {
    n as isize
}

/// The telemetry that goes out when `n` bytes enter or leave a send buffer. There is none if no
/// byte does.
pub open spec fn telemetry<M: Message>(
    enabled: bool,
    n: nat,
    peer: PeerId,
    available: nat,
    delta: isize,
) -> Seq<Action<M>> {
    if enabled && n > 0 {
        seq![Action::Emit(Event::OutboundTelemetry { peer, available: available as usize, delta })]
    } else {
        Seq::empty()
    }
}

/// The event that tells of the end of a dead connection.
pub open spec fn obituary<M: Message>(dead: Dead) -> Event<M> {
    match dead {
        Dead::OutboundTimeout(target) => Event::ConnectedTo {
            target,
            result: Err(ConnectError::TimedOut),
        },
        Dead::WriteStale(peer) => Event::Disconnected {
            peer,
            reason: DisconnectReason::WriteStale,
        },
    }
}

impl Termination {
    /// How much time there is to flush connections, if any.
    pub open spec fn spec_timeout(self) -> Option<Duration> {
        match self {
            Termination::Immediate => None,
            Termination::TryFlush(timeout) => Some(timeout),
        }
    }

    /// Returns how much time there is to flush connections, if any.
    #[verifier::when_used_as_spec(spec_timeout)]
    pub fn timeout(self) -> (timeout: Option<Duration>)
        ensures
            timeout == self.spec_timeout(),
            self is Immediate ==> timeout is None,
            self matches Termination::TryFlush(span) ==> timeout == Some(span),
    {
        match self {
            Termination::Immediate => None,
            Termination::TryFlush(timeout) => Some(timeout),
        }
    }
}

/// A nonblocking reactor without its sockets.
#[derive(Debug)]
pub struct Reactor {
    /// Configuration parameters for the reactor.
    pub config: Config,
    /// The connections.
    pub manager: Manager,
    /// Decides which connections get a turn.
    pub scheduler: Scheduler,
    /// The number of the current round.
    pub round: u64,
}

impl Reactor {
    /// The connections are well-formed, configured as the reactor is, and their buffers hold no
    /// more than they may. The limits depend on the type of messages that the reactor carries.
    pub open spec fn wf<M: Message>(&self) -> bool {
        &&& self.manager.wf()
        &&& self.scheduler.n_listeners() == self.config.bind_addr@.len()
        &&& self.config.stream_config.rx_buf_max_size.bytes::<M>() <= usize::MAX
        &&& self.config.stream_config.tx_buf_max_size.bytes::<M>() <= usize::MAX
        &&& forall|key: usize| #[trigger]
            self.manager@.contains_key(key) ==> self.connection_fits::<M>(self.manager@[key])
    }

    /// A connection is configured as the reactor is, and its buffers hold no more than they may.
    pub open spec fn connection_fits<M: Message>(&self, connection: Connection) -> bool {
        &&& connection.stream.config == self.config.stream_config
        &&& connection.stream.rx_fits::<M>()
        &&& connection.stream.tx_fits::<M>()
    }

    /// Nothing has changed but the connections and the ids that were given away.
    pub open spec fn same_but_connections(&self, other: &Reactor) -> bool {
        &&& self.config == other.config
        &&& self.manager.same_clock(&other.manager)
        &&& self.scheduler == other.scheduler
        &&& self.round == other.round
    }

    /// What a command does and leads to.
    pub open spec fn command_effect<M: Message>(
        &self,
        command: SystemCommand<M>,
        now: Instant,
        next: &Reactor,
        actions: Seq<Action<M>>,
    ) -> bool {
        match command {
            SystemCommand::P2P(Command::Connect(target)) => {
                &&& actions =~= seq![Action::<M>::Connect(target)]
                &&& next.manager == self.manager
            },
            SystemCommand::P2P(Command::Disconnect(peer)) => match self.manager.slot(
                peer,
            ) {
                Some(key) => {
                    &&& actions =~= seq![
                        Action::<M>::Close(self.manager@[key]),
                        Action::<M>::Emit(
                            Event::Disconnected { peer, reason: DisconnectReason::Requested },
                        ),
                    ]
                    &&& next.manager@ =~= self.manager@.remove(key)
                    &&& next.manager.vacancies() == self.manager.vacancies().push(key)
                },
                None => {
                    &&& actions =~= seq![Action::<M>::Emit(Event::NoPeer(peer))]
                    &&& next.manager@ =~= self.manager@
                    &&& next.manager.vacancies() == self.manager.vacancies()
                },
            },
            SystemCommand::P2P(Command::Message(peer, message)) => match self.manager.slot(peer) {
                Some(key) => {
                    let before = self.manager@[key];
                    let after = next.manager@[key];
                    let size = message.encoding().len();
                    let available = before.stream.tx_max::<M>()
                        - before.stream.tx_msg_buf@.len();
                    &&& next.manager@ =~= self.manager@.insert(key, after)
                    &&& next.manager.vacancies() == self.manager.vacancies()
                    &&& after.same_link(&before)
                    &&& message_stream::queue_effect::<M>(
                        before.stream,
                        message,
                        now,
                        after.stream,
                        if size > available {
                            (false, 0usize)
                        } else {
                            (true, size as usize)
                        },
                    )
                    &&& actions =~= (if size > available {
                        seq![Action::<M>::Emit(Event::QueueRejected { peer, message })]
                    } else {
                        seq![
                            Action::<M>::Reregister {
                                token: Token(key),
                                interest: Interest::ReadableWritable,
                            },
                        ] + telemetry::<M>(
                            self.config.stream_config.outbound_telemetry,
                            size,
                            peer,
                            (available - size) as nat,
                            growth(size as usize),
                        )
                    })
                },
                None => {
                    &&& actions =~= seq![Action::<M>::Emit(Event::NoPeer(peer))]
                    &&& next.manager@ =~= self.manager@
                    &&& next.manager.vacancies() == self.manager.vacancies()
                },
            },
            SystemCommand::Shutdown(termination) => {
                &&& actions =~= seq![Action::<M>::Shutdown(termination.timeout())]
                &&& next.manager == self.manager
            },
        }
    }

    /// What the result of a connect attempt does and leads to.
    pub open spec fn connected_effect<M: Message>(
        &self,
        target: Target,
        result: Result<(), ConnectError>,
        now: Instant,
        next: &Reactor,
        actions: Seq<Action<M>>,
    ) -> bool {
        match result {
            Ok(()) => {
                let token = self.manager.next_token();
                let added = next.manager@[token.0];
                &&& actions =~= Seq::<Action<M>>::empty()
                &&& !self.manager@.contains_key(token.0)
                &&& next.manager@ =~= self.manager@.insert(token.0, added)
                &&& next.manager.vacancies() == slots::occupied(
                    self.manager.vacancies(),
                )
                &&& added.stream.is_new(self.config.stream_config, now)
                &&& added.direction == (Direction::Outbound {
                    target,
                    state: State::Connecting { start: now },
                })
                &&& added.token == token
            },
            Err(error) => {
                &&& actions =~= seq![
                    Action::<M>::Emit(Event::ConnectedTo { target, result: Err(error) }),
                ]
                &&& next.manager == self.manager
            },
        }
    }

    /// What an attempt to accept a connection does and leads to.
    pub open spec fn accept_effect<M: Message>(
        &self,
        event: AcceptEvent,
        interface: SocketAddr,
        now: Instant,
        next: &Reactor,
        actions: Seq<Action<M>>,
        go_on: bool,
    ) -> bool {
        &&& go_on == (!(event is WouldBlock) && token::connection_token(
            next.scheduler.n_listeners(),
            next.manager.next_token(),
        ))
        &&& match event {
            AcceptEvent::Accepted(addr) => {
                let peer = PeerId(self.manager.next_id());
                let token = self.manager.next_token();
                let added = next.manager@[token.0];
                &&& actions =~= seq![
                    Action::<M>::Emit(Event::ConnectedFrom { peer, addr, interface }),
                ]
                &&& next.manager.next_id() == self.manager.next_id() + 1
                &&& !self.manager@.contains_key(token.0)
                &&& next.manager@ =~= self.manager@.insert(token.0, added)
                &&& next.manager.vacancies() == slots::occupied(
                    self.manager.vacancies(),
                )
                &&& added.stream.is_new(self.config.stream_config, now)
                &&& added.direction == (Direction::Inbound { peer })
                &&& added.token == token
            },
            _ => {
                &&& actions =~= Seq::<Action<M>>::empty()
                &&& next.manager == self.manager
            },
        }
    }

    /// Creates a new reactor.
    pub fn new<M: Message>(config: Config, now: Instant) -> (reactor: Self)
        requires
            config.stream_config.rx_buf_max_size.bytes::<M>() <= usize::MAX,
            config.stream_config.tx_buf_max_size.bytes::<M>() <= usize::MAX,
        ensures
            reactor.wf::<M>(),
            reactor.config == config,
            reactor.manager@ == Map::<usize, Connection>::empty(),
            reactor.manager.next_id() == 0,
            reactor.manager.vacancies() == seq![0usize],
            reactor.manager.last_resize() == now,
            reactor.manager.last_search() == now,
            reactor.scheduler.n_listeners() == config.bind_addr@.len(),
            reactor.scheduler.ready_for(0),
            reactor.scheduler.events().len() == 0,
            (reactor.scheduler.carried() == Map::<usize, Readiness>::empty()),
            reactor.scheduler.ready_listeners().len() == 0,
            !reactor.scheduler.waker_ready(),
            reactor.round == 0,
    {
        let scheduler: Scheduler = Scheduler::new(config.bind_addr.len());
        Reactor { config, manager: Manager::new(now), scheduler, round: 0 }
    }

    /// Returns the size of the shared receive buffer.
    pub fn receive_buffer_len<M: Message>(&self) -> (len: usize)
        ensures
            len == vstd::math::min(self.config.receive_buffer_size as int, M::MAX_SIZE as int),
    {
        if self.config.receive_buffer_size <= M::MAX_SIZE {
            self.config.receive_buffer_size
        } else {
            M::MAX_SIZE
        }
    }

    /// Processes a command. Commands that name a peer that does not exist are answered with
    /// [`Event::NoPeer`] and change nothing. A message that has no space in the send buffer of its
    /// peer is handed back and changes nothing.
    pub fn command<M: Message>(&mut self, command: SystemCommand<M>, now: Instant) -> (actions: Vec<
        Action<M>,
    >)
        requires
            old(self).wf::<M>(),
        ensures
            final(self).wf::<M>(),
            final(self).same_but_connections(old(self)),
            final(self).manager.next_id() == old(self).manager.next_id(),
            old(self).command_effect::<M>(command, now, final(self), actions@),
            command matches SystemCommand::Shutdown(Termination::TryFlush(timeout)) ==> actions@
                == seq![Action::<M>::Shutdown(Some(timeout))],
            command matches SystemCommand::Shutdown(Termination::Immediate) ==> actions@ == seq![
                Action::<M>::Shutdown(None),
            ],
    {
        let mut actions: Vec<Action<M>> = Vec::new();
        match command {
            SystemCommand::P2P(Command::Connect(target)) => {
                actions.push(Action::Connect(target));
            },
            SystemCommand::P2P(Command::Disconnect(peer)) => {
                match self.manager.disconnect(&peer) {
                    Some(connection) => {
                        actions.push(Action::Close(connection));
                        actions.push(
                            Action::Emit(
                                Event::Disconnected { peer, reason: DisconnectReason::Requested },
                            ),
                        );
                    },
                    None => {
                        actions.push(Action::Emit(Event::NoPeer(peer)));
                    },
                }
            },
            SystemCommand::P2P(Command::Message(peer, message)) => {
                match self.manager.get_by_peer_id(&peer) {
                    Some(connection) => {
                        let token: Token = connection.token;
                        let (was_queued, bytes_queued, interest): (
                            bool,
                            usize,
                            Option<Interest>,
                        ) = connection.queue_message::<M>(&message, now);
                        match interest {
                            Some(interest) => {
                                actions.push(Action::Reregister { token, interest });
                            },
                            None => {},
                        }
                        if !was_queued {
                            actions.push(Action::Emit(Event::QueueRejected { peer, message }));
                        } else if bytes_queued > 0 && connection.config().outbound_telemetry {
                            actions.push(
                                Action::Emit(
                                    Event::OutboundTelemetry {
                                        peer,
                                        available: connection.available::<M>(),
                                        delta: bytes_queued as isize,
                                    },
                                ),
                            );
                        }
                    },
                    None => {
                        actions.push(Action::Emit(Event::NoPeer(peer)));
                    },
                }
            },
            SystemCommand::Shutdown(termination) => {
                actions.push(Action::Shutdown(termination.timeout()));
            },
        }
        actions
    }

    /// Processes the result of a connect attempt. If the attempt has led to a socket, the socket
    /// was registered under the next token. The connection could be in any state, and still needs
    /// to undergo connectedness checks once its socket can be written to.
    pub fn connected<M: Message>(
        &mut self,
        target: Target,
        result: Result<(), ConnectError>,
        now: Instant,
    ) -> (actions: Vec<Action<M>>)
        requires
            old(self).wf::<M>(),
        ensures
            final(self).wf::<M>(),
            final(self).same_but_connections(old(self)),
            final(self).manager.next_id() == old(self).manager.next_id(),
            old(self).connected_effect::<M>(target, result, now, final(self), actions@),
    {
        let mut actions: Vec<Action<M>> = Vec::new();
        match result {
            Ok(()) => {
                let _token: Token = self.manager.add_outbound(
                    self.config.stream_config,
                    now,
                    target,
                );
            },
            Err(error) => {
                actions.push(Action::Emit(Event::ConnectedTo { target, result: Err(error) }));
            },
        }
        actions
    }

    /// Returns whether a connection may be accepted.
    pub fn may_accept(&self) -> (may: bool)
        ensures
            may == token::connection_token(
                self.scheduler.n_listeners(),
                self.manager.next_token(),
            ),
    {
        self.manager.has_slot(self.scheduler.listener_count())
    }

    /// Processes what came of an attempt to accept a connection at an interface. Returns whether
    /// to go on accepting at that interface.
    pub fn accept<M: Message>(
        &mut self,
        event: AcceptEvent,
        interface: SocketAddr,
        now: Instant,
    ) -> (accepted: (Vec<Action<M>>, bool))
        requires
            old(self).wf::<M>(),
            event is Accepted ==> old(self).manager.next_id() < u64::MAX,
        ensures
            final(self).wf::<M>(),
            final(self).same_but_connections(old(self)),
            old(self).accept_effect::<M>(
                event,
                interface,
                now,
                final(self),
                accepted.0@,
                accepted.1,
            ),
    {
        let mut actions: Vec<Action<M>> = Vec::new();
        match event {
            AcceptEvent::Accepted(addr) => {
                let peer: PeerId = self.manager.add_inbound(self.config.stream_config, now);
                actions.push(Action::Emit(Event::ConnectedFrom { peer, addr, interface }));
                (actions, self.may_accept())
            },
            AcceptEvent::WouldBlock => (actions, false),
            AcceptEvent::Failed => (actions, self.may_accept()),
        }
    }

    /// Removes dead connections. Returns their tokens, along with the events that tell of their
    /// end. All their sockets are to be deregistered before the first of the events goes out.
    pub fn remove_dead<M: Message>(
        &mut self,
        now: Instant,
        write_timeout: Option<Duration>,
    ) -> (dead: Vec<(Token, Event<M>)>)
        requires
            old(self).wf::<M>(),
        ensures
            final(self).wf::<M>(),
            final(self).config == old(self).config,
            final(self).scheduler == old(self).scheduler,
            final(self).round == old(self).round,
            final(self).manager.next_id() == old(self).manager.next_id(),
            final(self).manager.last_resize() == old(self).manager.last_resize(),
            if now.since(old(self).manager.last_search()).nanos / time::NANOS_PER_MILLI
                >= manager::CLEANUP_MILLIS {
                &&& final(self).manager.last_search() == now
                &&& exists|list: Seq<(Token, Dead)>| #[trigger]
                    manager::buried(
                        old(self).manager@,
                        final(self).manager@,
                        list,
                        now,
                        old(self).config.stream_config.connect_timeout,
                        write_timeout,
                    ) && dead@ == list.map_values(
                        |entry: (Token, Dead)| (entry.0, obituary::<M>(entry.1)),
                    ) && final(self).manager.vacancies() == old(self).manager.vacancies()
                        + manager::numbers(list)
            } else {
                &&& final(self).manager.last_search() == old(self).manager.last_search()
                &&& final(self).manager@ == old(self).manager@
                &&& final(self).manager.vacancies() == old(self).manager.vacancies()
                &&& dead@.len() == 0
            },
    {
        let list: Vec<(Token, Dead)> = self.manager.remove_dead(
            now,
            self.config.stream_config.connect_timeout,
            write_timeout,
        );
        let ghost listed = list@;
        let mut dead: Vec<(Token, Event<M>)> = Vec::new();
        for entry in it: list
            invariant
                it.seq() == listed,
                dead@ == listed.take(it.index() as int).map_values(
                    |entry: (Token, Dead)| (entry.0, obituary::<M>(entry.1)),
                ),
        {
            let (token, reason): (Token, Dead) = entry;
            let event: Event<M> = match reason {
                Dead::OutboundTimeout(target) => Event::ConnectedTo {
                    target,
                    result: Err(ConnectError::TimedOut),
                },
                Dead::WriteStale(peer) => Event::Disconnected {
                    peer,
                    reason: DisconnectReason::WriteStale,
                },
            };
            dead.push((token, event));
            assert(dead@ =~= listed.take(it.index() as int + 1).map_values(
                |entry: (Token, Dead)| (entry.0, obituary::<M>(entry.1)),
            ));
        }
        assert(listed.take(listed.len() as int) =~= listed);
        dead
    }

    /// Ends a round, once the pass through the connections is over. Performs internal
    /// housekeeping if necessary.
    pub fn end_round<M: Message>(&mut self, now: Instant)
        requires
            old(self).wf::<M>(),
            old(self).scheduler.settled(old(self).round),
            old(self).round < u64::MAX,
        ensures
            final(self).wf::<M>(),
            final(self).round == old(self).round + 1,
            final(self).scheduler == old(self).scheduler,
            final(self).scheduler.ready_for(final(self).round),
            final(self).config == old(self).config,
            final(self).manager.next_id() == old(self).manager.next_id(),
            final(self).manager.vacancies() == old(self).manager.vacancies(),
            final(self).manager.last_search() == old(self).manager.last_search(),
            if now.since(old(self).manager.last_resize()).nanos / time::NANOS_PER_SEC
                > manager::BUFFER_RESIZE_SECS {
                &&& final(self).manager.last_resize() == now
                &&& final(self).manager@.dom() == old(self).manager@.dom()
                &&& forall|key: usize| #[trigger]
                    final(self).manager@.contains_key(key) ==> final(self).manager@[key].same_link(
                        &old(self).manager@[key],
                    ) && final(self).manager@[key].stream.same_data(
                        &old(self).manager@[key].stream,
                    ) && final(self).manager@[key].stream.compacted()
            } else {
                &&& final(self).manager.last_resize() == old(self).manager.last_resize()
                &&& final(self).manager@ == old(self).manager@
            },
    {
        self.manager.compact(now);
        proof {
            self.scheduler.law_rounds_follow(self.round);
            assert forall|key: usize| #[trigger] self.manager@.contains_key(key) implies
                self.connection_fits::<M>(self.manager@[key]) by {
                assert(old(self).manager@.dom().contains(key));
                assert(old(self).connection_fits::<M>(old(self).manager@[key]));
            }
        }
        self.round = self.round + 1;
    }
}

} // verus!
