use bytes::Buf;

use peerlink::connector::{ConnectError, Ipv4Addr, SocketAddr, SocketAddrV4, Target};
use peerlink::message::{DecodeError, Message, Sink};
use peerlink::message_stream::spanned_view::SpannedView;
use peerlink::message_stream::{MaxMessageSizeMultiple, ReadError, StreamConfig, WriteEvent};
use peerlink::reactor::connection::{FlushStep, Interest};
use peerlink::reactor::handle::{RecvError, RecvOutcome, SendError, SendOutcome};
use peerlink::reactor::manager::{Connectedness, Dead, Manager, ShutdownStep};
use peerlink::reactor::readiness::{Carryover, PollEvent};
use peerlink::reactor::scheduler::Turn;
use peerlink::reactor::token::Token;
use peerlink::reactor::turn::TurnStep;
use peerlink::reactor::{AcceptEvent, Action, Reactor, SystemCommand};
use peerlink::time::{Duration, Instant};
use peerlink::{Command, Config, DisconnectReason, Event, PeerId, Termination};

#[derive(Debug, Eq, PartialEq)]
struct Ping(u64);

impl Message for Ping {
    const MAX_SIZE: usize = 8;

    fn encode<S: Sink>(&self, dest: &mut S) {
        dest.put_slice(&self.0.to_le_bytes());
    }

    fn decode(buffer: &mut SpannedView<'_>) -> Result<Self, DecodeError> {
        match buffer.try_get_u64_le() {
            Ok(u64::MAX) => Err(DecodeError::Malformed),
            Ok(v) => Ok(Ping(v)),
            Err(_) => Err(DecodeError::Partial),
        }
    }

    fn wire_size(&self) -> usize {
        8
    }
}

fn at(millis: u128) -> Instant {
    Instant { nanos: millis * 1_000_000 }
}

fn addr(port: u16) -> SocketAddr {
    SocketAddr::V4(SocketAddrV4 { ip: Ipv4Addr { bits: 0x7f000001 }, port })
}

fn reactor(telemetry: bool) -> Reactor {
    let config = Config {
        bind_addr: vec![addr(8000)],
        stream_config: StreamConfig {
            outbound_telemetry: telemetry,
            rx_buf_max_size: MaxMessageSizeMultiple::two(),
            ..StreamConfig::default()
        },
        ..Config::default()
    };
    Reactor::new::<Ping>(config, at(0))
}

/// Gets the turn of a single event.
fn turn_of(reactor: &mut Reactor, token: Token, readable: bool, writable: bool) -> Turn {
    reactor.scheduler.update(vec![PollEvent { token, readable, writable }]);
    let mut pass = reactor.scheduler.connections(reactor.round);
    reactor.scheduler.next_turn(&mut pass).unwrap()
}

fn accept(reactor: &mut Reactor) -> (Token, PeerId) {
    let token = reactor.manager.vacant_token();
    let (actions, go_on) =
        reactor.accept::<Ping>(AcceptEvent::Accepted(addr(40000)), addr(8000), at(1));
    assert!(go_on);
    assert_eq!(actions.len(), 1);
    match actions[0] {
        Action::Emit(Event::ConnectedFrom { peer, addr: from, interface }) => {
            assert_eq!(from, addr(40000));
            assert_eq!(interface, addr(8000));
            (token, peer)
        }
        _ => panic!(),
    }
}

fn bytes_of(pings: &[u64]) -> Vec<u8> {
    let mut bytes = Vec::new();
    for ping in pings {
        Ping(*ping).encode(&mut bytes);
    }
    bytes
}

#[test]
fn config_defaults() {
    let config = Config::default();
    assert!(config.bind_addr.is_empty());
    assert_eq!(config.receive_buffer_size, 1024 * 1024);
    assert_eq!(config.receive_channel_size, None);
    assert_eq!(config.stream_config.connect_timeout, Duration::from_secs(5));
}

#[test]
fn receive_buffer_is_capped_by_the_largest_message() {
    assert_eq!(reactor(false).receive_buffer_len::<Ping>(), 8);
    let config = Config { receive_buffer_size: 3, ..Config::default() };
    assert_eq!(Reactor::new::<Ping>(config, at(0)).receive_buffer_len::<Ping>(), 3);
}

#[test]
fn connect_commands() {
    let mut reactor = reactor(false);
    let target = Target::from(("example.org", 80));
    let actions = reactor.command(
        SystemCommand::P2P(Command::<Ping>::connect(("example.org", 80))),
        at(1),
    );
    assert_eq!(actions.len(), 1);
    assert!(matches!(&actions[0], Action::Connect(t) if *t == target));
    assert!(matches!(
        Command::<Ping>::connect(addr(5)),
        Command::Connect(Target::Socket(a)) if a == addr(5)
    ));
    assert!(matches!(
        Command::<Ping>::connect((Ipv4Addr { bits: 0x7f000001 }, 5)),
        Command::Connect(Target::Socket(a)) if a == addr(5)
    ));
}

#[test]
fn unknown_peers_are_answered() {
    let mut reactor = reactor(true);
    let (_, peer) = accept(&mut reactor);
    let unknown = PeerId::set_raw(peer.inner() + 1);
    let actions =
        reactor.command::<Ping>(SystemCommand::P2P(Command::Disconnect(unknown)), at(2));
    assert_eq!(actions.len(), 1);
    assert!(matches!(actions[0], Action::Emit(Event::NoPeer(p)) if p == unknown));
    let actions =
        reactor.command(SystemCommand::P2P(Command::Message(unknown, Ping(1))), at(2));
    assert_eq!(actions.len(), 1);
    assert!(matches!(actions[0], Action::Emit(Event::NoPeer(p)) if p == unknown));
}

#[test]
fn disconnect_commands() {
    let mut reactor = reactor(false);
    let (token, peer) = accept(&mut reactor);
    let _ = reactor.command(SystemCommand::P2P(Command::Message(peer, Ping(7))), at(2));
    let actions = reactor.command::<Ping>(SystemCommand::P2P(Command::Disconnect(peer)), at(3));
    assert_eq!(actions.len(), 2);
    match &actions[0] {
        Action::Close(connection) => {
            assert_eq!(connection.token, token);
            assert_eq!(connection.peer_id(), Some(peer));
            assert_eq!(connection.stream.tx_msg_buf.data(), &bytes_of(&[7])[..]);
        }
        _ => panic!(),
    }
    assert!(matches!(
        actions[1],
        Action::Emit(Event::Disconnected { peer: p, reason: DisconnectReason::Requested })
            if p == peer
    ));
    let actions = reactor.command::<Ping>(SystemCommand::P2P(Command::Disconnect(peer)), at(4));
    assert!(matches!(actions[0], Action::Emit(Event::NoPeer(p)) if p == peer));
}

#[test]
fn message_commands() {
    let mut reactor = reactor(true);
    let (token, peer) = accept(&mut reactor);
    for (i, available) in [(0, 8), (1, 0)] {
        let actions =
            reactor.command(SystemCommand::P2P(Command::Message(peer, Ping(i))), at(2));
        assert_eq!(actions.len(), 2);
        assert!(matches!(
            actions[0],
            Action::Reregister { token: t, interest: Interest::ReadableWritable } if t == token
        ));
        match actions[1] {
            Action::Emit(Event::OutboundTelemetry { peer: p, available: a, delta }) => {
                assert_eq!((p, a, delta), (peer, available, 8));
            }
            _ => panic!(),
        }
    }
    let actions = reactor.command(SystemCommand::P2P(Command::Message(peer, Ping(2))), at(2));
    assert_eq!(actions.len(), 1);
    assert!(matches!(
        actions[0],
        Action::Emit(Event::QueueRejected { peer: p, message: Ping(2) }) if p == peer
    ));
    assert_eq!(
        reactor.manager.get(token).unwrap().stream.tx_msg_buf.data(),
        &bytes_of(&[0, 1])[..]
    );
}

#[test]
fn shutdown_commands() {
    let mut reactor = reactor(false);
    let actions = reactor.command::<Ping>(SystemCommand::Shutdown(Termination::Immediate), at(1));
    assert_eq!(actions.len(), 1);
    assert!(matches!(actions[0], Action::Shutdown(None)));
    let timeout = Duration::from_secs(3);
    let actions =
        reactor.command::<Ping>(SystemCommand::Shutdown(Termination::TryFlush(timeout)), at(1));
    assert!(matches!(actions[0], Action::Shutdown(Some(t)) if t == timeout));
}

#[test]
fn outbound_connections_become_ready() {
    let mut reactor = reactor(false);
    let token = reactor.manager.vacant_token();
    let target = Target::from(addr(9000));
    assert!(reactor.connected::<Ping>(target.clone(), Ok(()), at(5)).is_empty());
    assert!(reactor.manager.is_connecting(token));

    let turn = turn_of(&mut reactor, token, false, true);
    let (actions, step) = reactor.begin_turn::<Ping>(&turn, None, false, 8);
    assert!(actions.is_empty());
    assert!(matches!(step, TurnStep::Done(Carryover { r: false, w: false })));
    assert!(reactor.manager.is_connecting(token));

    let turn = turn_of(&mut reactor, token, false, true);
    let (actions, step) = reactor.begin_turn::<Ping>(&turn, None, true, 8);
    assert!(matches!(step, TurnStep::Done(Carryover { r: false, w: false })));
    assert_eq!(actions.len(), 2);
    assert!(matches!(
        actions[0],
        Action::Reregister { token: t, interest: Interest::Readable } if t == token
    ));
    assert!(matches!(
        &actions[1],
        Action::Emit(Event::ConnectedTo { target: t, result: Ok(PeerId(0)) }) if *t == target
    ));
    assert!(!reactor.manager.is_connecting(token));
}

#[test]
fn failed_connect_attempts() {
    let mut reactor = reactor(false);
    let target = Target::from(("nowhere", 1));
    let actions =
        reactor.connected::<Ping>(target.clone(), Err(ConnectError::Unresolved), at(5));
    assert_eq!(actions.len(), 1);
    assert!(matches!(
        &actions[0],
        Action::Emit(Event::ConnectedTo { target: t, result: Err(ConnectError::Unresolved) })
            if *t == target
    ));

    let token = reactor.manager.vacant_token();
    assert!(reactor.connected::<Ping>(target.clone(), Ok(()), at(5)).is_empty());
    let turn = turn_of(&mut reactor, token, true, true);
    let refused = std::io::Error::from(std::io::ErrorKind::ConnectionRefused);
    let (actions, step) = reactor.begin_turn::<Ping>(&turn, Some(refused), false, 8);
    assert!(matches!(step, TurnStep::Done(Carryover { r: false, w: false })));
    assert_eq!(actions.len(), 2);
    assert!(matches!(actions[0], Action::Discard(t) if t == token));
    match &actions[1] {
        Action::Emit(Event::ConnectedTo { target: t, result: Err(ConnectError::Io(error)) }) => {
            assert!(*t == target);
            assert_eq!(error.kind(), std::io::ErrorKind::ConnectionRefused);
        }
        _ => panic!(),
    }
    assert!(reactor.manager.get(token).is_none());
}

#[test]
fn peer_ids_are_never_reused() {
    let mut reactor = reactor(false);
    for i in 0..5 {
        let (token, peer) = accept(&mut reactor);
        assert_eq!(token, Token(0));
        assert_eq!(peer.inner(), i);
        let _ = reactor.command::<Ping>(SystemCommand::P2P(Command::Disconnect(peer)), at(2));
        let old = PeerId::set_raw(i);
        let actions = reactor.command(SystemCommand::P2P(Command::Message(old, Ping(0))), at(2));
        assert!(matches!(actions[0], Action::Emit(Event::NoPeer(p)) if p == old));
    }
}

#[test]
fn accept_goes_on_until_it_would_block() {
    let mut reactor = reactor(false);
    assert!(reactor.may_accept());
    let (actions, go_on) = reactor.accept::<Ping>(AcceptEvent::Failed, addr(8000), at(1));
    assert!(actions.is_empty());
    assert!(go_on);
    let (actions, go_on) = reactor.accept::<Ping>(AcceptEvent::WouldBlock, addr(8000), at(1));
    assert!(actions.is_empty());
    assert!(!go_on);
}

#[test]
fn expired_carryover_is_ignored() {
    let mut reactor = reactor(false);
    let (token, peer) = accept(&mut reactor);
    let turn = turn_of(&mut reactor, token, true, false);
    assert!(reactor.scheduler.settle(turn, Some(Carryover { r: true, w: false })));
    let _ = reactor.command::<Ping>(SystemCommand::P2P(Command::Disconnect(peer)), at(2));
    reactor.end_round::<Ping>(at(2));
    reactor.scheduler.update(Vec::new());
    let mut pass = reactor.scheduler.connections(reactor.round);
    let turn = reactor.scheduler.next_turn(&mut pass).unwrap();
    assert!(turn.standalone);
    let (actions, step) = reactor.begin_turn::<Ping>(&turn, None, false, 8);
    assert!(actions.is_empty());
    assert!(matches!(step, TurnStep::Done(Carryover { r: false, w: false })));
}

#[test]
fn reads_deliver_messages() {
    let mut reactor = reactor(false);
    let (token, peer) = accept(&mut reactor);
    let turn = turn_of(&mut reactor, token, true, false);
    let (actions, step) = reactor.begin_turn::<Ping>(&turn, None, false, 100);
    assert!(actions.is_empty());
    let visit = match step {
        TurnStep::Read { visit, job } => {
            assert_eq!((job.limit, job.total_read), (16, 0));
            assert_eq!((visit.token, visit.peer), (token, peer));
            visit
        }
        _ => panic!(),
    };
    let (actions, step) = reactor.end_read::<Ping>(visit, &bytes_of(&[5, 6]), Ok(true), at(3));
    assert!(matches!(step, TurnStep::Done(Carryover { r: true, w: false })));
    assert_eq!(actions.len(), 2);
    for (action, nonce) in actions.iter().zip([5, 6]) {
        match action {
            Action::Emit(Event::Message { peer: p, message, size }) => {
                assert_eq!((*p, message, *size), (peer, &Ping(nonce), 8));
            }
            _ => panic!(),
        }
    }
}

#[test]
fn read_errors_disconnect() {
    let broken = || ReadError::Error(std::io::Error::from(std::io::ErrorKind::ConnectionReset));
    for case in 0..3 {
        let mut reactor = reactor(false);
        let (token, peer) = accept(&mut reactor);
        let turn = turn_of(&mut reactor, token, true, true);
        let visit = match reactor.begin_turn::<Ping>(&turn, None, false, 100).1 {
            TurnStep::Read { visit, .. } => visit,
            _ => panic!(),
        };
        let (bytes, result) = match case {
            0 => (bytes_of(&[1]), Err(ReadError::EndOfStream)),
            1 => (bytes_of(&[1, u64::MAX]), Ok(true)),
            _ => (bytes_of(&[1]), Err(broken())),
        };
        let (actions, step) = reactor.end_read::<Ping>(visit, &bytes, result, at(3));
        assert!(matches!(step, TurnStep::Done(Carryover { r: false, w: false })));
        assert_eq!(actions.len(), 3);
        assert!(matches!(actions[0], Action::Emit(Event::Message { message: Ping(1), .. })));
        assert!(matches!(&actions[1], Action::Close(c) if c.token == token));
        match (case, &actions[2]) {
            (0, Action::Emit(Event::Disconnected { peer: p, reason: DisconnectReason::Left })) => {
                assert_eq!(*p, peer);
            }
            (
                1,
                Action::Emit(Event::Disconnected {
                    peer: p,
                    reason: DisconnectReason::CodecViolation,
                }),
            ) => assert_eq!(*p, peer),
            (
                2,
                Action::Emit(Event::Disconnected { peer: p, reason: DisconnectReason::Error(e) }),
            ) => {
                assert_eq!(*p, peer);
                assert_eq!(e.kind(), std::io::ErrorKind::ConnectionReset);
            }
            _ => panic!(),
        }
        assert!(reactor.manager.get(token).is_none());
    }
}

#[test]
fn writes_flush_the_send_buffer() {
    let mut reactor = reactor(true);
    let (token, peer) = accept(&mut reactor);
    let _ = reactor.command(SystemCommand::P2P(Command::Message(peer, Ping(1))), at(2));
    let _ = reactor.command(SystemCommand::P2P(Command::Message(peer, Ping(2))), at(2));
    let turn = turn_of(&mut reactor, token, false, true);
    let (actions, step) = reactor.begin_turn::<Ping>(&turn, None, false, 8);
    assert!(actions.is_empty());
    let (visit, job) = match step {
        TurnStep::Write { visit, job } => (visit, job),
        _ => panic!(),
    };
    let (actions, step) = reactor.wrote::<Ping>(visit, job, WriteEvent::Wrote(10), at(3));
    assert!(actions.is_empty());
    let (visit, job) = match step {
        TurnStep::Write { visit, job } => (visit, job),
        _ => panic!(),
    };
    let (actions, step) = reactor.wrote::<Ping>(visit, job, WriteEvent::Wrote(6), at(3));
    assert!(matches!(step, TurnStep::Done(Carryover { r: false, w: false })));
    assert_eq!(actions.len(), 2);
    assert!(matches!(
        actions[0],
        Action::Reregister { token: t, interest: Interest::Readable } if t == token
    ));
    match actions[1] {
        Action::Emit(Event::OutboundTelemetry { peer: p, available, delta }) => {
            assert_eq!((p, available, delta), (peer, 16, -16));
        }
        _ => panic!(),
    }
}

#[test]
fn writes_that_are_cut_short_carry_over() {
    let mut reactor = reactor(true);
    let (token, peer) = accept(&mut reactor);
    let _ = reactor.command(SystemCommand::P2P(Command::Message(peer, Ping(1))), at(2));
    let _ = reactor.command(SystemCommand::P2P(Command::Message(peer, Ping(2))), at(2));
    let turn = turn_of(&mut reactor, token, false, true);
    let (_, mut step) = reactor.begin_turn::<Ping>(&turn, None, false, 8);
    let mut actions = Vec::new();
    while let TurnStep::Write { visit, job } = step {
        (actions, step) = reactor.wrote::<Ping>(visit, job, WriteEvent::Wrote(1), at(3));
    }
    assert!(matches!(step, TurnStep::Done(Carryover { r: false, w: true })));
    assert_eq!(actions.len(), 1);
    match actions[0] {
        Action::Emit(Event::OutboundTelemetry { peer: p, available, delta }) => {
            assert_eq!((p, available, delta), (peer, 8, -8));
        }
        _ => panic!(),
    }

    let turn = turn_of(&mut reactor, token, false, true);
    let (visit, job) = match reactor.begin_turn::<Ping>(&turn, None, false, 8).1 {
        TurnStep::Write { visit, job } => (visit, job),
        _ => panic!(),
    };
    let (_, step) = reactor.wrote::<Ping>(visit, job, WriteEvent::WouldBlock, at(3));
    assert!(matches!(step, TurnStep::Done(Carryover { r: false, w: false })));
}

#[test]
fn write_errors_disconnect() {
    let mut reactor = reactor(false);
    let (token, peer) = accept(&mut reactor);
    let _ = reactor.command(SystemCommand::P2P(Command::Message(peer, Ping(1))), at(2));
    let turn = turn_of(&mut reactor, token, true, true);
    let visit = match reactor.begin_turn::<Ping>(&turn, None, false, 8).1 {
        TurnStep::Read { visit, .. } => visit,
        _ => panic!(),
    };
    let (visit, job) = match reactor.end_read::<Ping>(visit, &[], Ok(true), at(3)).1 {
        TurnStep::Write { visit, job } => (visit, job),
        _ => panic!(),
    };
    let event = WriteEvent::Failed(std::io::Error::from(std::io::ErrorKind::BrokenPipe));
    let (actions, step) = reactor.wrote::<Ping>(visit, job, event, at(3));
    assert!(matches!(step, TurnStep::Done(Carryover { r: true, w: false })));
    assert_eq!(actions.len(), 2);
    assert!(matches!(&actions[0], Action::Close(c) if c.token == token));
    match &actions[1] {
        Action::Emit(Event::Disconnected { peer: p, reason: DisconnectReason::Error(e) }) => {
            assert_eq!(*p, peer);
            assert_eq!(e.kind(), std::io::ErrorKind::BrokenPipe);
        }
        _ => panic!(),
    }
}

#[test]
fn nothing_to_write_stops_polling_for_writing() {
    let mut reactor = reactor(true);
    let (token, _) = accept(&mut reactor);
    let turn = turn_of(&mut reactor, token, false, true);
    let (actions, step) = reactor.begin_turn::<Ping>(&turn, None, false, 8);
    assert!(matches!(step, TurnStep::Done(Carryover { r: false, w: false })));
    assert_eq!(actions.len(), 1);
    assert!(matches!(
        actions[0],
        Action::Reregister { token: t, interest: Interest::Readable } if t == token
    ));
}

#[test]
fn telemetry_tells_of_data_alone() {
    let mut reactor = reactor(true);
    let (token, peer) = accept(&mut reactor);
    let _ = reactor.command(SystemCommand::P2P(Command::Message(peer, Ping(1))), at(2));
    let turn = turn_of(&mut reactor, token, false, true);
    let (visit, job) = match reactor.begin_turn::<Ping>(&turn, None, false, 8).1 {
        TurnStep::Write { visit, job } => (visit, job),
        _ => panic!(),
    };
    let (actions, step) = reactor.wrote::<Ping>(visit, job, WriteEvent::WouldBlock, at(3));
    assert!(actions.is_empty());
    assert!(matches!(step, TurnStep::Done(Carryover { r: false, w: false })));

    let turn = turn_of(&mut reactor, token, false, true);
    let (visit, job) = match reactor.begin_turn::<Ping>(&turn, None, false, 8).1 {
        TurnStep::Write { visit, job } => (visit, job),
        _ => panic!(),
    };
    let (actions, _) = reactor.wrote::<Ping>(visit, job, WriteEvent::FlushWouldBlock(3), at(3));
    assert_eq!(actions.len(), 1);
    match actions[0] {
        Action::Emit(Event::OutboundTelemetry { peer: p, available, delta }) => {
            assert_eq!((p, available, delta), (peer, 11, -3));
        }
        _ => panic!(),
    }
}

#[test]
fn dead_connections_are_removed() {
    let mut reactor = reactor(false);
    let (stale, peer) = accept(&mut reactor);
    let _ = reactor.command(SystemCommand::P2P(Command::Message(peer, Ping(1))), at(1));
    let target = Target::from(addr(9000));
    let timed_out = reactor.manager.vacant_token();
    let _ = reactor.connected::<Ping>(target.clone(), Ok(()), at(10));
    let alive = reactor.manager.vacant_token();
    let _ = reactor.connected::<Ping>(target.clone(), Ok(()), at(5000));

    let write_timeout = Some(Duration::from_millis(4000));
    assert!(reactor.remove_dead::<Ping>(at(999), write_timeout).is_empty());
    assert!(reactor.remove_dead::<Ping>(at(4001), write_timeout).is_empty());
    let dead = reactor.remove_dead::<Ping>(at(5011), write_timeout);
    assert_eq!(dead.len(), 2);
    assert_eq!(dead[0].0, stale);
    assert!(matches!(
        dead[0].1,
        Event::Disconnected { peer: p, reason: DisconnectReason::WriteStale } if p == peer
    ));
    assert_eq!(dead[1].0, timed_out);
    assert!(matches!(
        &dead[1].1,
        Event::ConnectedTo { target: t, result: Err(ConnectError::TimedOut) } if *t == target
    ));
    assert!(reactor.manager.get(stale).is_none());
    assert!(reactor.manager.get(timed_out).is_none());
    assert!(reactor.manager.get(alive).is_some());
    assert!(reactor.remove_dead::<Ping>(at(5900), None).is_empty());
}

#[test]
fn rounds_shrink_buffers_now_and_then() {
    let mut reactor = reactor(false);
    let (token, peer) = accept(&mut reactor);
    let _ = reactor.command(SystemCommand::P2P(Command::Message(peer, Ping(9))), at(1));
    let before = reactor.manager.get(token).unwrap().stream.tx_msg_buf.buf.capacity();
    for (round, now) in [(1, 30_999), (2, 31_000), (3, 31_001)] {
        reactor.end_round::<Ping>(at(now));
        assert_eq!(reactor.round, round);
    }
    let stream = &reactor.manager.get(token).unwrap().stream;
    assert_eq!(stream.tx_msg_buf.data(), &bytes_of(&[9])[..]);
    assert_eq!(stream.tx_msg_buf.buf.capacity(), before);

    let config = Config {
        stream_config: StreamConfig { tx_buf_min_size: 16, ..StreamConfig::default() },
        ..Config::default()
    };
    let mut reactor = Reactor::new::<Ping>(config, at(0));
    let (token, peer) = accept(&mut reactor);
    let _ = reactor.command(SystemCommand::P2P(Command::Message(peer, Ping(9))), at(1));
    reactor.manager.get_mut(token).unwrap().stream.try_write(2, at(2));
    reactor.end_round::<Ping>(at(30_999));
    assert_eq!(reactor.manager.get(token).unwrap().stream.tx_msg_buf.buf.capacity(), 64);
    assert_eq!(reactor.manager.get(token).unwrap().stream.tx_msg_buf.cursor, 2);
    reactor.end_round::<Ping>(at(31_000));
    assert!(reactor.manager.get(token).unwrap().stream.tx_msg_buf.buf.capacity() < 64);
    assert_eq!(reactor.manager.get(token).unwrap().stream.tx_msg_buf.buf, &bytes_of(&[9])[2..]);
}

#[test]
fn manager_keeps_connections_apart() {
    let mut manager = Manager::new(at(0));
    let first = manager.add_inbound(StreamConfig::default(), at(1));
    let token = manager.add_outbound(StreamConfig::default(), at(2), Target::from(addr(1)));
    assert_eq!(token, Token(1));
    let second = manager.add_inbound(StreamConfig::default(), at(3));
    assert_eq!((first.inner(), second.inner()), (0, 1));
    assert_eq!(manager.get_by_peer_id(&second).unwrap().token, Token(2));
    assert!(matches!(manager.try_ready(Token(0), None, false), Connectedness::Ready { .. }));
    assert!(matches!(manager.try_ready(Token(7), None, false), Connectedness::Nonexistent));
    assert!(matches!(manager.try_ready(token, None, false), Connectedness::NotReady));
    assert!(matches!(
        manager.try_ready(token, None, true),
        Connectedness::New { peer: PeerId(2), .. }
    ));
    assert!(matches!(
        manager.try_ready(token, None, false),
        Connectedness::Ready { peer: PeerId(2) }
    ));
    let removed = manager.disconnect(&first).unwrap();
    assert_eq!(removed.token, Token(0));
    assert!(manager.disconnect(&first).is_none());
    assert!(manager.get_by_peer_id(&first).is_none());
    assert_eq!(manager.vacant_token(), Token(0));
    assert!(manager.has_slot(1));
    assert!(!manager.has_slot(usize::MAX));
    assert!(manager.get_mut(Token(2)).is_some());
    assert!(manager.get_mut(Token(0)).is_none());
}

#[test]
fn manager_finds_dead_connections() {
    let mut manager = Manager::new(at(0));
    let _ = manager.add_outbound(StreamConfig::default(), at(0), Target::from(("slow", 1)));
    let timeout = Duration::from_millis(1000);
    assert!(manager.remove_dead(at(1000), timeout, None).is_empty());
    let dead = manager.remove_dead(at(2000), timeout, None);
    assert_eq!(dead.len(), 1);
    assert!(matches!(&dead[0].1, Dead::OutboundTimeout(t) if *t == Target::from(("slow", 1))));
}

#[test]
fn shutdown_flushes_until_the_timeout() {
    let mut manager = Manager::new(at(0));
    let peer = manager.add_inbound(StreamConfig::default(), at(1));
    let timeout = Some(Duration::from_millis(100));
    let early = Duration::from_millis(99);
    let late = Duration::from_millis(100);
    assert_eq!(manager.shutdown(None, early, false), ShutdownStep::Flush);
    assert_eq!(manager.shutdown(None, early, true), ShutdownStep::Close);
    assert_eq!(manager.shutdown(timeout, early, false), ShutdownStep::Flush);
    assert_eq!(manager.shutdown(timeout, late, false), ShutdownStep::Close);
    assert_eq!(manager.shutdown(timeout, early, true), ShutdownStep::Close);

    let connection = manager.get_by_peer_id(&peer).unwrap();
    assert_eq!(
        connection.queue_message(&Ping(1), at(2)),
        (true, 8, Some(Interest::ReadableWritable))
    );
    assert!(manager.has_queued_data());
    assert_eq!(
        manager.shutdown(timeout, early, true),
        ShutdownStep::Pause(Duration::from_millis(10))
    );
    assert_eq!(manager.shutdown(None, early, true), ShutdownStep::Close);

    let connection = manager.get_by_peer_id(&peer).unwrap();
    assert_eq!(connection.available::<Ping>(), 8);
    match connection.begin_write() {
        FlushStep::Again(job) => {
            match connection.write(job, WriteEvent::Wrote(8), at(3)) {
                FlushStep::Stop(Ok(flushed)) => {
                    assert_eq!((flushed.more, flushed.written), (false, 8));
                    assert_eq!(flushed.interest, Some(Interest::Readable));
                }
                _ => panic!(),
            }
        }
        FlushStep::Stop(_) => panic!(),
    }
    assert!(!manager.has_queued_data());
}

/// Lets two reactors exchange messages over an in-memory wire.
#[test]
fn two_reactors_exchange_messages() {
    let mut client = reactor(false);
    let mut server = reactor(false);
    let client_token = client.manager.vacant_token();
    let _ = client.connected::<Ping>(Target::from(addr(8000)), Ok(()), at(0));
    let turn = turn_of(&mut client, client_token, false, true);
    let _ = client.begin_turn::<Ping>(&turn, None, true, 8);
    let (server_token, _) = accept(&mut server);

    let mut received = Vec::new();
    for nonce in 0..50 {
        let command = SystemCommand::P2P(Command::Message(PeerId::set_raw(0), Ping(nonce)));
        let actions = client.command(command, at(1));
        assert!(matches!(actions[0], Action::Reregister { .. }));

        let mut wire = Vec::new();
        let turn = turn_of(&mut client, client_token, false, true);
        let (_, mut step) = client.begin_turn::<Ping>(&turn, None, false, 8);
        while let TurnStep::Write { visit, job } = step {
            let queued = client.manager.get(client_token).unwrap().stream.tx_msg_buf.data();
            let n = queued.len().min(3);
            wire.extend_from_slice(&queued[..n]);
            step = client.wrote::<Ping>(visit, job, WriteEvent::Wrote(n), at(2)).1;
        }

        for chunk in wire.chunks(5) {
            let turn = turn_of(&mut server, server_token, true, false);
            let visit = match server.begin_turn::<Ping>(&turn, None, false, 8).1 {
                TurnStep::Read { visit, .. } => visit,
                _ => panic!(),
            };
            for action in server.end_read::<Ping>(visit, chunk, Ok(false), at(3)).0 {
                match action {
                    Action::Emit(Event::Message { message, size, .. }) => {
                        assert_eq!(size, 8);
                        received.push(message);
                    }
                    _ => panic!(),
                }
            }
        }
    }
    assert_eq!(received, (0..50).map(Ping).collect::<Vec<_>>());
}

#[test]
fn send_outcomes() {
    assert_eq!(SendOutcome::Woken.result(), Ok(()));
    assert_eq!(SendOutcome::NotWoken.result(), Err(SendError::Dead));
    assert_eq!(SendOutcome::Full.result(), Err(SendError::Full));
    assert_eq!(SendOutcome::Disconnected.result(), Err(SendError::Dead));
}

#[test]
fn receive_outcomes() {
    let event = Event::<Ping>::NoPeer(PeerId::set_raw(4));
    assert!(matches!(
        RecvOutcome::Received(event).result(),
        Ok(Some(Event::NoPeer(PeerId(4))))
    ));
    assert!(matches!(RecvOutcome::<Ping>::Nothing.result(), Ok(None)));
    assert!(matches!(RecvOutcome::<Ping>::Disconnected.result(), Err(RecvError)));
}
