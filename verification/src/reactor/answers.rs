//! What commands, connect attempts and incoming connections are answered with.

use vstd::prelude::*;

use crate::connector::{ConnectError, SocketAddr, Target};
use crate::message::Message;
use crate::reactor;
use crate::reactor::connection::{Direction, Interest, State};
use crate::reactor::manager::Dead;
use crate::reactor::token::Token;
use crate::reactor::{AcceptEvent, Action, Reactor, SystemCommand, Termination};
use crate::time::{Duration, Instant};
use crate::{Command, DisconnectReason, Event, PeerId};

verus! {

/// A shutdown that is to flush for some span of time has exactly that span, whatever its length.
/// The connections are left alone until then.
pub proof fn law_shutdown_keeps_its_timeout<M: Message>(
    before: Reactor,
    timeout: Duration,
    now: Instant,
    after: Reactor,
    actions: Seq<Action<M>>,
)
    requires
        before.command_effect::<M>(
            SystemCommand::Shutdown(Termination::TryFlush(timeout)),
            now,
            &after,
            actions,
        ),
    ensures
        actions == seq![Action::<M>::Shutdown(Some(timeout))],
        after.manager == before.manager,
{
}

/// A shutdown that is immediate has no time to flush.
pub proof fn law_immediate_shutdown_has_no_timeout<M: Message>(
    before: Reactor,
    now: Instant,
    after: Reactor,
    actions: Seq<Action<M>>,
)
    requires
        before.command_effect::<M>(
            SystemCommand::Shutdown(Termination::Immediate),
            now,
            &after,
            actions,
        ),
    ensures
        actions == seq![Action::<M>::Shutdown(None)],
        after.manager == before.manager,
{
}

/// A command to connect is passed on with its target, and changes nothing yet.
pub proof fn law_connect_is_passed_on<M: Message>(
    before: Reactor,
    target: Target,
    now: Instant,
    after: Reactor,
    actions: Seq<Action<M>>,
)
    requires
        before.command_effect::<M>(
            SystemCommand::P2P(Command::Connect(target)),
            now,
            &after,
            actions,
        ),
    ensures
        actions == seq![Action::<M>::Connect(target)],
        after.manager == before.manager,
{
}

/// A command that names a peer that is on the other side of no connection is answered with just
/// that, and changes nothing.
pub proof fn law_unknown_peer_is_told_of<M: Message>(
    before: Reactor,
    peer: PeerId,
    command: Command<M>,
    now: Instant,
    after: Reactor,
    actions: Seq<Action<M>>,
)
    requires
        before.wf::<M>(),
        match command {
            Command::Connect(_) => false,
            Command::Disconnect(named) => named == peer,
            Command::Message(named, _) => named == peer,
        },
        forall|key: usize| #[trigger]
            before.manager@.contains_key(key) ==> before.manager@[key].peer() != Some(peer),
        before.command_effect::<M>(SystemCommand::P2P(command), now, &after, actions),
    ensures
        actions == seq![Action::<M>::Emit(Event::NoPeer(peer))],
        after.manager@ == before.manager@,
        after.manager.vacancies() == before.manager.vacancies(),
{
    if let Some(key) = before.manager.slot(peer) {
        before.manager.law_peer_ids_are_unique(peer, key);
    }
}

/// A peer that is to be disconnected is removed, and no other peer. Its connection is closed as it
/// is, along with what is still queued, and then the consumer is told. The token of the connection
/// is the next one to be given away.
pub proof fn law_disconnected_peer_is_removed<M: Message>(
    before: Reactor,
    peer: PeerId,
    key: usize,
    now: Instant,
    after: Reactor,
    actions: Seq<Action<M>>,
)
    requires
        before.wf::<M>(),
        before.manager@.contains_key(key),
        before.manager@[key].peer() == Some(peer),
        before.command_effect::<M>(
            SystemCommand::P2P(Command::Disconnect(peer)),
            now,
            &after,
            actions,
        ),
    ensures
        actions == seq![
            Action::<M>::Close(before.manager@[key]),
            Action::<M>::Emit(Event::Disconnected { peer, reason: DisconnectReason::Requested }),
        ],
        !after.manager@.contains_key(key),
        forall|other: usize|
            other != key ==> (#[trigger] after.manager@.contains_key(other)
                <==> before.manager@.contains_key(other)) && after.manager@[other]
                == before.manager@[other],
        after.manager.next_token() == Token(key),
{
    before.manager.law_peer_ids_are_unique(peer, key);
}

/// A message to a peer is queued exactly if the send buffer of the peer has space for all of it.
/// Then its bytes are put behind those that are queued already, the socket is polled for writing
/// too, and telemetry goes out if it is enabled and there are any bytes. Otherwise the message is
/// handed back and nothing changes. No other connection changes either way.
pub proof fn law_message_is_queued_or_handed_back<M: Message>(
    before: Reactor,
    peer: PeerId,
    message: M,
    key: usize,
    now: Instant,
    after: Reactor,
    actions: Seq<Action<M>>,
)
    requires
        before.wf::<M>(),
        before.manager@.contains_key(key),
        before.manager@[key].peer() == Some(peer),
        message.encoding().len() <= isize::MAX,
        before.command_effect::<M>(
            SystemCommand::P2P(Command::Message(peer, message)),
            now,
            &after,
            actions,
        ),
    ensures
        ({
            let had = before.manager@[key];
            let has = after.manager@[key];
            let size = message.encoding().len();
            let space = before.config.stream_config.tx_buf_max_size.factor() * M::MAX_SIZE
                - had.stream.tx_msg_buf@.len();
            &&& after.manager@.contains_key(key)
            &&& if size <= space {
                &&& has.stream.tx_msg_buf@ == had.stream.tx_msg_buf@ + message.encoding()
                &&& has.stream.rx_msg_buf == had.stream.rx_msg_buf
                &&& has.stream.config == had.stream.config
                &&& has.stream.ready == had.stream.ready
                &&& has.stream.last_write == had.stream.last_write
                &&& has.stream.frame_time == had.stream.frame_time
                &&& has.direction == had.direction
                &&& has.token == had.token
                &&& actions.len() == (if size > 0
                    && before.config.stream_config.outbound_telemetry {
                    2int
                } else {
                    1
                })
                &&& actions[0] == (Action::<M>::Reregister {
                    token: Token(key),
                    interest: Interest::ReadableWritable,
                })
                &&& actions.len() > 1 ==> {
                    &&& actions[1] matches Action::Emit(
                        Event::OutboundTelemetry { peer: told, available, delta },
                    )
                    &&& told == peer
                    &&& available == space - size
                    &&& delta == size
                }
            } else {
                &&& has == had
                &&& actions == seq![Action::<M>::Emit(Event::QueueRejected { peer, message })]
            }
            &&& forall|other: usize|
                other != key ==> (#[trigger] after.manager@.contains_key(other)
                    <==> before.manager@.contains_key(other)) && after.manager@[other]
                    == before.manager@[other]
            &&& after.manager.vacancies() == before.manager.vacancies()
        }),
{
    before.manager.law_peer_ids_are_unique(peer, key);
    assert(before.connection_fits::<M>(before.manager@[key]));
}

/// Whether one number was taken off the numbers that are going to be given away: the one that was
/// given back last, or else the lowest one that was never in use, which the next higher one takes
/// the place of.
pub open spec fn next_in_line(before: Seq<usize>, after: Seq<usize>) -> bool {
    &&& before.len() > 1 ==> after.len() == before.len() - 1
    &&& before.len() > 1 ==> forall|i: int| 0 <= i < after.len() ==> after[i] == before[i]
    &&& before.len() == 1 && before[0] < usize::MAX ==> after.len() == 1 && after[0] == before[0]
        + 1
}

/// A connect attempt that has led to a socket leads to a connection that is being established from
/// now on, under the next token, with nothing buffered. Nobody is told yet. An attempt that has
/// failed changes nothing, and the consumer is told of the error.
pub proof fn law_connect_attempt_is_followed_up<M: Message>(
    before: Reactor,
    target: Target,
    result: Result<(), ConnectError>,
    now: Instant,
    after: Reactor,
    actions: Seq<Action<M>>,
)
    requires
        before.connected_effect::<M>(target, result, now, &after, actions),
    ensures
        match result {
            Err(error) => {
                &&& actions == seq![
                    Action::<M>::Emit(Event::ConnectedTo { target, result: Err(error) }),
                ]
                &&& after.manager == before.manager
            },
            Ok(()) => {
                let token = before.manager.next_token();
                let made = after.manager@[token.0];
                &&& actions.len() == 0
                &&& !before.manager@.contains_key(token.0)
                &&& after.manager@.contains_key(token.0)
                &&& made.token == token
                &&& made.peer() is None
                &&& made.direction == (Direction::Outbound {
                    target,
                    state: State::Connecting { start: now },
                })
                &&& made.stream.config == before.config.stream_config
                &&& made.stream.rx_msg_buf@.len() == 0
                &&& made.stream.tx_msg_buf@.len() == 0
                &&& !made.stream.ready
                &&& made.stream.last_write == now
                &&& next_in_line(before.manager.vacancies(), after.manager.vacancies())
                &&& forall|other: usize|
                    other != token.0 ==> (#[trigger] after.manager@.contains_key(other)
                        <==> before.manager@.contains_key(other)) && after.manager@[other]
                        == before.manager@[other]
            },
        },
{
}

/// A connection that came in is established at once, under the next token and the next peer id,
/// with nothing buffered, and the consumer is told of it. Any other outcome of an attempt to accept
/// changes nothing. Accepting goes on until it would block, as long as the next token is one of a
/// connection.
pub proof fn law_incoming_connection_is_kept<M: Message>(
    before: Reactor,
    event: AcceptEvent,
    interface: SocketAddr,
    now: Instant,
    after: Reactor,
    actions: Seq<Action<M>>,
    go_on: bool,
)
    requires
        before.accept_effect::<M>(event, interface, now, &after, actions, go_on),
    ensures
        go_on <==> !(event is WouldBlock) && after.manager.next_token().0 < usize::MAX
            - after.scheduler.n_listeners(),
        match event {
            AcceptEvent::Accepted(addr) => {
                let token = before.manager.next_token();
                let peer = PeerId(before.manager.next_id());
                let made = after.manager@[token.0];
                &&& actions == seq![
                    Action::<M>::Emit(Event::ConnectedFrom { peer, addr, interface }),
                ]
                &&& after.manager.next_id() == before.manager.next_id() + 1
                &&& !before.manager@.contains_key(token.0)
                &&& after.manager@.contains_key(token.0)
                &&& made.token == token
                &&& made.peer() == Some(peer)
                &&& made.direction is Inbound
                &&& next_in_line(before.manager.vacancies(), after.manager.vacancies())
                &&& made.stream.config == before.config.stream_config
                &&& made.stream.rx_msg_buf@.len() == 0
                &&& made.stream.tx_msg_buf@.len() == 0
                &&& made.stream.last_write == now
                &&& forall|other: usize|
                    other != token.0 ==> (#[trigger] after.manager@.contains_key(other)
                        <==> before.manager@.contains_key(other)) && after.manager@[other]
                        == before.manager@[other]
            },
            _ => {
                &&& actions.len() == 0
                &&& after.manager == before.manager
            },
        },
{
}

/// The consumer is told of a connection that was not established in time by the result of the
/// connect attempt, and of a peer that does not read by the reason for which it is disconnected.
pub proof fn law_dead_connections_are_told_of<M: Message>(dead: Dead)
    ensures
        match dead {
            Dead::OutboundTimeout(target) => reactor::obituary::<M>(dead) == (Event::<
                M,
            >::ConnectedTo { target, result: Err(ConnectError::TimedOut) }),
            Dead::WriteStale(peer) => reactor::obituary::<M>(dead) == (Event::<M>::Disconnected {
                peer,
                reason: DisconnectReason::WriteStale,
            }),
        },
{
}

/// What only touches connections leaves everything else about a reactor as it is.
pub proof fn law_nothing_but_connections_changes(before: Reactor, after: Reactor)
    requires
        after.same_but_connections(&before),
    ensures
        after.config == before.config,
        after.scheduler == before.scheduler,
        after.round == before.round,
        after.manager.last_resize() == before.manager.last_resize(),
        after.manager.last_search() == before.manager.last_search(),
{
}

/// The buffers of a connection never hold more than they may: the configured multiples of the
/// largest message. A peer cannot fill up a receive buffer with endless junk, and a slow peer
/// cannot have a send buffer grow without end.
pub proof fn law_buffers_are_bounded<M: Message>(reactor: Reactor, key: usize)
    requires
        reactor.wf::<M>(),
        reactor.manager@.contains_key(key),
    ensures
        ({
            let stream = reactor.manager@[key].stream;
            let config = reactor.config.stream_config;
            &&& stream.config == config
            &&& stream.rx_msg_buf@.len() <= config.rx_buf_max_size.factor() * M::MAX_SIZE
            &&& stream.tx_msg_buf@.len() <= config.tx_buf_max_size.factor() * M::MAX_SIZE
        }),
{
    assert(reactor.connection_fits::<M>(reactor.manager@[key]));
}

} // verus!
