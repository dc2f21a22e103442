//! Handles and tracks connections.

use std::collections::HashMap;

use slab::Slab;

use vstd::prelude::*;

use crate::connector::Target;
use crate::message_stream::{MessageStream, StreamConfig};
use crate::peer::PeerId;
use crate::reactor::connection::{Connection, Direction, State};
use crate::reactor::slots;
use crate::reactor::slots::{
    slab_get, slab_get_mut, slab_insert, slab_keys, slab_remove, slab_vacant_key,
    slab_with_capacity,
};
use crate::reactor::token;
use crate::reactor::token::Token;
use crate::time::{Duration, Instant, NANOS_PER_MILLI, NANOS_PER_SEC};

verus! {

broadcast use vstd::std_specs::hash::group_hash_axioms;

/// Buffers are shrunk when more than this many whole seconds have passed since the last time.
pub const BUFFER_RESIZE_SECS: u128 = 30;

/// Dead connections are looked for when this many milliseconds have passed since the last time.
pub const CLEANUP_MILLIS: u128 = 1000;

/// How long a shutdown pauses between two attempts to flush.
pub const FLUSH_PAUSE_MILLIS: u64 = 10;

/// The state of a connection for outside observation.
#[derive(Debug)]
pub enum Connectedness {
    /// There is no such connection.
    Nonexistent,
    /// The connection is still being established.
    NotReady,
    /// The connection can be used.
    Ready {
        /// The peer on the other side.
        peer: PeerId,
    },
    /// The connection has just been established.
    New {
        /// The peer on the other side.
        peer: PeerId,
        /// What was connected to.
        target: Target,
    },
    /// The connection could not be established.
    Errored {
        /// What was to be connected to.
        target: Target,
        /// Why it could not.
        error: std::io::Error,
    },
}

/// The reason a connection is dead, for outside observation.
#[derive(Debug)]
pub enum Dead {
    /// The connection was not established in time.
    OutboundTimeout(Target),
    /// The peer does not read what is sent to it.
    WriteStale(PeerId),
}

/// Whether a connection is dead, and why. A connection that is being established is dead after
/// `connect_timeout`, one that is established is dead once its write side is stale.
pub open spec fn death(
    connection: Connection,
    now: Instant,
    connect_timeout: Duration,
    write_timeout: Option<Duration>,
) -> Option<Dead> {
    match connection.direction {
        Direction::Outbound { target, state: State::Connecting { start } } => if now.since(
            start,
        ).nanos > connect_timeout.nanos {
            Some(Dead::OutboundTimeout(target))
        } else {
            None
        },
        _ => match (write_timeout, connection.peer()) {
            (Some(timeout), Some(peer)) => if connection.stream.write_stale(now, timeout) {
                Some(Dead::WriteStale(peer))
            } else {
                None
            },
            _ => None,
        },
    }
}

/// A connection is dead in two cases. One that is being established is dead once more time has
/// passed since it was started than connecting may take. One that is established is dead once data
/// is queued on it, and more time has passed since the last successful write than writing may take,
/// if there is a limit to that.
pub proof fn law_death_has_its_reasons(
    connection: Connection,
    now: Instant,
    connect_timeout: Duration,
    write_timeout: Option<Duration>,
)
    ensures
        ({
            let verdict = death(connection, now, connect_timeout, write_timeout);
            match connection.direction {
                Direction::Outbound { target, state: State::Connecting { start } } => {
                    &&& verdict is Some <==> now.nanos > start.nanos + connect_timeout.nanos
                    &&& verdict matches Some(dead) ==> dead == Dead::OutboundTimeout(target)
                },
                Direction::Inbound { peer } | Direction::Outbound {
                    state: State::Connected { peer },
                    ..
                } => {
                    &&& verdict is Some <==> connection.stream.tx_msg_buf@.len() > 0 && (
                    write_timeout matches Some(timeout) && now.nanos
                        > connection.stream.last_write.nanos + timeout.nanos)
                    &&& verdict matches Some(dead) ==> dead == Dead::WriteStale(peer)
                },
            }
        }),
{
}

/// Decides whether a connection is dead, and why.
fn check_death(
    connection: &Connection,
    now: Instant,
    connect_timeout: Duration,
    write_timeout: Option<Duration>,
) -> (dead: Option<Dead>)
    requires
        connection.stream.wf(),
    ensures
        dead == death(*connection, now, connect_timeout, write_timeout),
{
    match &connection.direction {
        Direction::Outbound { target, state: State::Connecting { start } } => {
            if now.since(*start).nanos > connect_timeout.nanos {
                Some(Dead::OutboundTimeout(target.clone()))
            } else {
                None
            }
        },
        Direction::Inbound { peer } | Direction::Outbound {
            state: State::Connected { peer },
            ..
        } => match write_timeout {
            Some(timeout) => if connection.stream.is_write_stale(now, timeout) {
                Some(Dead::WriteStale(*peer))
            } else {
                None
            },
            None => None,
        },
    }
}

/// What a shutdown does next.
#[derive(Debug, Clone, Copy, PartialEq, Eq, Structural)]
pub enum ShutdownStep {
    /// Write out what is queued on every connection.
    Flush,
    /// Pause, then go on.
    Pause(Duration),
    /// Close every connection.
    Close,
}

/// Handles and tracks connections.
#[derive(Debug)]
pub struct Manager {
    connections: Slab<Connection>,
    slots: HashMap<u64, usize>,
    next_seq: u64,
    last_buffer_resize: Instant,
    last_cleanup: Instant,
}

impl View for Manager {
    type V = Map<usize, Connection>;

    /// The connections by the numbers of their tokens.
    closed spec fn view(&self) -> Map<usize, Connection> {
        slots::slab_contents(self.connections)
    }
}

impl Manager {
    /// The id that the next peer gets.
    pub closed spec fn next_id(&self) -> u64 {
        self.next_seq
    }

    /// The numbers of the tokens that connections are going to get, last one first. The first
    /// number of the list is the lowest one that was never in use, the others were in use before.
    pub closed spec fn vacancies(&self) -> Seq<usize> {
        slots::slab_vacancies(self.connections)
    }

    /// The token that the next connection gets.
    pub open spec fn next_token(&self) -> Token {
        Token(self.vacancies().last())
    }

    /// When the buffers were last shrunk.
    pub closed spec fn last_resize(&self) -> Instant {
        self.last_buffer_resize
    }

    /// When dead connections were last looked for.
    pub closed spec fn last_search(&self) -> Instant {
        self.last_cleanup
    }

    /// The slot that the connection of a peer is in.
    pub closed spec fn slot(&self, peer: PeerId) -> Option<usize> {
        if self.slots@.contains_key(peer.0) {
            Some(self.slots@[peer.0])
        } else {
            None
        }
    }

    /// Connections are well-formed and have the token of their slot, and the peers are exactly
    /// those on the other side of an established connection. Their ids were given away before.
    pub closed spec fn wf(&self) -> bool {
        &&& self.vacancies().len() > 0
        &&& forall|key: usize| #[trigger]
            self@.contains_key(key) ==> self.connection_wf(key, self@[key])
        &&& forall|id: u64| #[trigger]
            self.slots@.contains_key(id) ==> self@.contains_key(self.slots@[id])
                && self@[self.slots@[id]].peer() == Some(PeerId(id))
    }

    closed spec fn connection_wf(&self, key: usize, connection: Connection) -> bool {
        &&& connection.token == Token(key)
        &&& connection.stream.wf()
        &&& connection.peer() matches Some(peer) ==> {
            &&& peer.0 < self.next_seq
            &&& self.slots@.contains_key(peer.0)
            &&& self.slots@[peer.0] == key
        }
    }

    /// Nothing about the manager has changed but its connections.
    pub open spec fn same_clock(&self, other: &Manager) -> bool {
        &&& self.last_resize() == other.last_resize()
        &&& self.last_search() == other.last_search()
    }

    /// Peer ids are unique: at most one connection is that of a certain peer, and it is the one
    /// that is found under the peer's id. All ids that are in use were given away before. Every
    /// connection is found under its token.
    pub proof fn law_peer_ids_are_unique(&self, peer: PeerId, key: usize)
        requires
            self.wf(),
        ensures
            self.slot(peer) == Some(key) <==> self@.contains_key(key) && self@[key].peer() == Some(
                peer,
            ),
            self.slot(peer) is Some ==> peer.0 < self.next_id(),
            self@.contains_key(key) ==> self@[key].token == Token(key) && self@[key].stream.wf(),
    {
        if self@.contains_key(key) {
            assert(self.connection_wf(key, self@[key]));
        }
        if self.slots@.contains_key(peer.0) {
            let other = self.slots@[peer.0];
            assert(self@.contains_key(other));
            assert(self.connection_wf(other, self@[other]));
        }
    }

    /// Removing a connection makes its peer unknown, and leaves all other peers where they are.
    pub proof fn law_removed_peer_is_unknown(
        before: &Manager,
        after: &Manager,
        key: usize,
        peer: PeerId,
        other: PeerId,
    )
        requires
            before.wf(),
            after.wf(),
            before.slot(peer) == Some(key),
            after@ == before@.remove(key),
        ensures
            after.slot(peer) is None,
            other != peer ==> after.slot(other) == before.slot(other),
    {
        before.law_peer_ids_are_unique(peer, key);
        if let Some(k) = after.slot(peer) {
            after.law_peer_ids_are_unique(peer, k);
            before.law_peer_ids_are_unique(peer, k);
        }
        if let Some(k) = after.slot(other) {
            after.law_peer_ids_are_unique(other, k);
            before.law_peer_ids_are_unique(other, k);
        }
        if let Some(k) = before.slot(other) {
            before.law_peer_ids_are_unique(other, k);
            after.law_peer_ids_are_unique(other, k);
        }
    }

    /// Creates a new connection manager.
    pub fn new(now: Instant) -> (manager: Self)
        ensures
            manager.wf(),
            manager@ == Map::<usize, Connection>::empty(),
            manager.next_id() == 0,
            manager.vacancies() == seq![0usize],
            manager.last_resize() == now,
            manager.last_search() == now,
    {
        Manager {
            connections: slab_with_capacity(16),
            slots: HashMap::new(),
            next_seq: 0,
            last_buffer_resize: now,
            last_cleanup: now,
        }
    }

    /// Returns the connection with a certain token, if there is one.
    pub fn get(&self, token: Token) -> (connection: Option<&Connection>)
        ensures
            match connection {
                Some(connection) => self@.contains_key(token.0) && *connection == self@[token.0],
                None => !self@.contains_key(token.0),
            },
    {
        slab_get(&self.connections, token.0)
    }

    /// Returns the connection with a certain token, if there is one, for writing. Only its buffers
    /// may be written to.
    pub fn get_mut(&mut self, token: Token) -> (connection: Option<&mut Connection>)
        requires
            old(self).wf(),
        ensures
            final(self).same_clock(old(self)),
            final(self).next_id() == old(self).next_id(),
            final(self).vacancies() == old(self).vacancies(),
            match connection {
                Some(connection) => {
                    &&& old(self)@.contains_key(token.0)
                    &&& *connection == old(self)@[token.0]
                    &&& connection.stream.wf()
                    &&& final(self)@ == old(self)@.insert(token.0, *final(connection))
                    &&& final(connection).same_link(connection) && final(connection).stream.wf()
                        ==> final(self).wf()
                },
                None => {
                    &&& !old(self)@.contains_key(token.0)
                    &&& final(self)@ == old(self)@
                    &&& final(self).wf()
                },
            },
    {
        proof {
            if self@.contains_key(token.0) {
                assert(self.connection_wf(token.0, self@[token.0]));
            }
            lemma_wf_kept(*self, token.0);
        }
        slab_get_mut(&mut self.connections, token.0)
    }

    /// Returns a connection by peer id, if such a peer id is known, for writing. Only its buffers
    /// may be written to.
    pub fn get_by_peer_id(&mut self, peer: &PeerId) -> (connection: Option<&mut Connection>)
        requires
            old(self).wf(),
        ensures
            final(self).same_clock(old(self)),
            final(self).next_id() == old(self).next_id(),
            final(self).vacancies() == old(self).vacancies(),
            match connection {
                Some(connection) => {
                    &&& old(self).slot(*peer) == Some(connection.token.0)
                    &&& old(self)@.contains_key(connection.token.0)
                    &&& *connection == old(self)@[connection.token.0]
                    &&& connection.peer() == Some(*peer)
                    &&& connection.stream.wf()
                    &&& final(self)@ == old(self)@.insert(connection.token.0, *final(connection))
                    &&& final(connection).same_link(connection) && final(connection).stream.wf()
                        ==> final(self).wf()
                },
                None => {
                    &&& old(self).slot(*peer) is None
                    &&& final(self)@ == old(self)@
                    &&& final(self).wf()
                },
            },
    {
        let found: Option<usize> = match self.slots.get(&peer.0) {
            Some(key) => Some(*key),
            None => None,
        };
        match found {
            Some(key) => {
                proof {
                    self.law_peer_ids_are_unique(*peer, key);
                }
                self.get_mut(Token(key))
            },
            None => None,
        }
    }

    /// Returns whether the connection with a certain token is still being established.
    pub fn is_connecting(&self, token: Token) -> (connecting: bool)
        ensures
            connecting == (self@.contains_key(token.0) && self@[token.0].peer() is None),
    {
        match slab_get(&self.connections, token.0) {
            Some(connection) => connection.peer_id().is_none(),
            None => false,
        }
    }

    /// Gets the connectedness status of a connection. For new connections, it attempts to put them
    /// in a usable state. If the connection is still being established, `pending` is the error
    /// that is pending on its socket, and `probe` tells whether the socket knows its peer.
    ///
    /// The socket of a connection that is in a usable state for the first time is to be polled for
    /// reading from now on. A connection that could not be established is removed.
    pub fn try_ready(
        &mut self,
        token: Token,
        pending: Option<std::io::Error>,
        probe: bool,
    ) -> (connectedness: Connectedness)
        requires
            old(self).wf(),
            readiness(*old(self), token, pending, probe) is New ==> old(self).next_id() < u64::MAX,
        ensures
            final(self).wf(),
            final(self).same_clock(old(self)),
            connectedness == readiness(*old(self), token, pending, probe),
            final(self)@ == (match connectedness {
                Connectedness::Errored { .. } => old(self)@.remove(token.0),
                Connectedness::New { peer, target } => old(self)@.insert(
                    token.0,
                    Connection {
                        stream: MessageStream { ready: true, ..old(self)@[token.0].stream },
                        direction: Direction::Outbound { target, state: State::Connected { peer } },
                        token,
                    },
                ),
                _ => old(self)@,
            }),
            final(self).next_id() == old(self).next_id() + (if connectedness is New {
                1int
            } else {
                0
            }),
            final(self).vacancies() == (if connectedness is Errored {
                old(self).vacancies().push(token.0)
            } else {
                old(self).vacancies()
            }),
    {
        let target: Target = match slab_get(&self.connections, token.0) {
            None => {
                return Connectedness::Nonexistent;
            },
            Some(connection) => {
                assert(self.connection_wf(token.0, self@[token.0]));
                match &connection.direction {
                    Direction::Inbound { peer } => {
                        return Connectedness::Ready { peer: *peer };
                    },
                    Direction::Outbound { state: State::Connected { peer }, .. } => {
                        return Connectedness::Ready { peer: *peer };
                    },
                    Direction::Outbound { target, state: State::Connecting { .. } } => {
                        target.clone()
                    },
                }
            },
        };
        match pending {
            Some(error) => {
                let _removed: Connection = slab_remove(&mut self.connections, token.0);
                proof {
                    lemma_slot_changed(*old(self), *self, token.0);
                }
                Connectedness::Errored { target, error }
            },
            None => {
                let peer: PeerId = PeerId(self.next_seq);
                let ready: bool = match slab_get_mut(&mut self.connections, token.0) {
                    Some(connection) => {
                        let ready: bool = connection.stream.is_ready(probe);
                        if ready {
                            connection.direction = Direction::Outbound {
                                target: target.clone(),
                                state: State::Connected { peer },
                            };
                        }
                        ready
                    },
                    None => false,
                };
                if !ready {
                    assert(self@ =~= old(self)@);
                    proof {
                        lemma_wf_kept(*old(self), token.0);
                    }
                    Connectedness::NotReady
                } else {
                    self.slots.insert(self.next_seq, token.0);
                    self.next_seq = self.next_seq + 1;
                    proof {
                        lemma_peer_added(*old(self), *self, token.0);
                    }
                    Connectedness::New { peer, target }
                }
            },
        }
    }

    /// Returns the token that the next connection gets. Its socket is to be registered under that
    /// token before the connection is added.
    pub fn vacant_token(&self) -> (token: Token)
        ensures
            token == self.next_token(),
            !self@.contains_key(token.0),
    {
        Token(slab_vacant_key(&self.connections))
    }

    /// Adds an outbound connection to the manager. Its socket is to be polled for writing.
    pub fn add_outbound(
        &mut self,
        stream_cfg: StreamConfig,
        start: Instant,
        target: Target,
    ) -> (token: Token)
        requires
            old(self).wf(),
        ensures
            final(self).wf(),
            final(self).same_clock(old(self)),
            final(self).next_id() == old(self).next_id(),
            token == old(self).next_token(),
            final(self).vacancies() == slots::occupied(old(self).vacancies()),
            !old(self)@.contains_key(token.0),
            final(self)@ == old(self)@.insert(token.0, final(self)@[token.0]),
            ({
                let added = final(self)@[token.0];
                &&& added.stream.is_new(stream_cfg, start)
                &&& added.direction == (Direction::Outbound {
                    target,
                    state: State::Connecting { start },
                })
                &&& added.token == token
            }),
    {
        let token: Token = self.vacant_token();
        let _key: usize = slab_insert(
            &mut self.connections,
            Connection {
                stream: MessageStream::new(stream_cfg, start),
                direction: Direction::Outbound { target, state: State::Connecting { start } },
                token,
            },
        );
        proof {
            assert(self@ =~= old(self)@.insert(token.0, self@[token.0]));
            lemma_slot_changed(*old(self), *self, token.0);
        }
        token
    }

    /// Adds an inbound connection to the manager. Its socket is to be polled for reading.
    pub fn add_inbound(&mut self, stream_cfg: StreamConfig, now: Instant) -> (peer: PeerId)
        requires
            old(self).wf(),
            old(self).next_id() < u64::MAX,
        ensures
            final(self).wf(),
            final(self).same_clock(old(self)),
            peer == PeerId(old(self).next_id()),
            final(self).next_id() == old(self).next_id() + 1,
            final(self).vacancies() == slots::occupied(old(self).vacancies()),
            !old(self)@.contains_key(old(self).next_token().0),
            final(self)@ == old(self)@.insert(
                old(self).next_token().0,
                final(self)@[old(self).next_token().0],
            ),
            ({
                let added = final(self)@[old(self).next_token().0];
                &&& added.stream.is_new(stream_cfg, now)
                &&& added.direction == (Direction::Inbound { peer })
                &&& added.token == old(self).next_token()
            }),
    {
        let token: Token = self.vacant_token();
        let peer: PeerId = PeerId(self.next_seq);
        let _key: usize = slab_insert(
            &mut self.connections,
            Connection {
                stream: MessageStream::new(stream_cfg, now),
                direction: Direction::Inbound { peer },
                token,
            },
        );
        self.slots.insert(self.next_seq, token.0);
        self.next_seq = self.next_seq + 1;
        proof {
            assert(self@ =~= old(self)@.insert(token.0, self@[token.0]));
            lemma_peer_added(*old(self), *self, token.0);
        }
        peer
    }

    /// Disconnects a peer. Returns the connection that was removed, if the peer existed. Its
    /// socket is to be deregistered; what is still queued on it can be written out once more
    /// before the socket is shut down.
    pub fn disconnect(&mut self, peer: &PeerId) -> (removed: Option<Connection>)
        requires
            old(self).wf(),
        ensures
            final(self).wf(),
            final(self).same_clock(old(self)),
            final(self).next_id() == old(self).next_id(),
            match removed {
                Some(connection) => {
                    &&& old(self).slot(*peer) == Some(connection.token.0)
                    &&& old(self)@.contains_key(connection.token.0)
                    &&& connection == old(self)@[connection.token.0]
                    &&& connection.stream.wf()
                    &&& final(self)@ == old(self)@.remove(connection.token.0)
                    &&& final(self).vacancies() == old(self).vacancies().push(connection.token.0)
                },
                None => {
                    &&& old(self).slot(*peer) is None
                    &&& final(self)@ == old(self)@
                    &&& final(self).vacancies() == old(self).vacancies()
                },
            },
    {
        let found: Option<usize> = match self.slots.get(&peer.0) {
            Some(key) => Some(*key),
            None => None,
        };
        match found {
            Some(key) => {
                proof {
                    self.law_peer_ids_are_unique(*peer, key);
                }
                Some(self.remove_slot(key))
            },
            None => None,
        }
    }

    /// Takes a connection out of the manager.
    fn remove_slot(&mut self, key: usize) -> (connection: Connection)
        requires
            old(self).wf(),
            old(self)@.contains_key(key),
        ensures
            final(self).wf(),
            final(self).same_clock(old(self)),
            final(self).next_id() == old(self).next_id(),
            connection == old(self)@[key],
            final(self)@ == old(self)@.remove(key),
            final(self).vacancies() == old(self).vacancies().push(key),
    {
        let connection: Connection = slab_remove(&mut self.connections, key);
        match connection.peer_id() {
            Some(peer) => {
                self.slots.remove(&peer.0);
            },
            None => {},
        }
        proof {
            lemma_slot_changed(*old(self), *self, key);
        }
        connection
    }

    /// Whether any data is queued on any connection.
    pub open spec fn data_remaining(&self) -> bool {
        exists|key: usize| #[trigger]
            self@.contains_key(key) && self@[key].stream.tx_msg_buf@.len() > 0
    }

    /// Performs internal housekeeping if necessary: shrinks the buffers of all connections. The
    /// data in them stays as it is; bytes that were consumed are not kept.
    pub fn compact(&mut self, now: Instant)
        requires
            old(self).wf(),
        ensures
            final(self).wf(),
            final(self).next_id() == old(self).next_id(),
            final(self).vacancies() == old(self).vacancies(),
            final(self).last_search() == old(self).last_search(),
            now.nanos >= old(self).last_resize().nanos + 31_000_000_000 ==> final(
                self).last_resize() == now,
            now.nanos < old(self).last_resize().nanos + 31_000_000_000 ==> final(self)@ == old(
                self)@ && final(self).last_resize() == old(self).last_resize(),
            if now.since(old(self).last_resize()).nanos / NANOS_PER_SEC > BUFFER_RESIZE_SECS {
                &&& final(self).last_resize() == now
                &&& final(self)@.dom() == old(self)@.dom()
                &&& forall|key: usize| #[trigger]
                    final(self)@.contains_key(key) ==> final(self)@[key].same_link(
                        &old(self)@[key],
                    ) && final(self)@[key].stream.same_data(&old(self)@[key].stream)
                        && final(self)@[key].stream.compacted()
            } else {
                &&& final(self).last_resize() == old(self).last_resize()
                &&& final(self)@ == old(self)@
            },
    {
        if now.since(self.last_buffer_resize).as_secs() > BUFFER_RESIZE_SECS {
            let keys: Vec<usize> = slab_keys(&self.connections);
            assert(forall|n: int| 0 <= n < keys@.len() ==> keys@.contains(#[trigger] keys@[n]));
            let mut i: usize = 0;
            while i < keys.len()
                invariant
                    i <= keys@.len(),
                    self.wf(),
                    self.same_clock(old(self)),
                    self.next_id() == old(self).next_id(),
                    self.vacancies() == old(self).vacancies(),
                    self@.dom() == old(self)@.dom(),
                    forall|key: usize| #[trigger] self@.contains_key(key) ==> keys@.contains(key),
                    forall|key: usize| #[trigger]
                        self@.contains_key(key) ==> self@[key].same_link(&old(self)@[key])
                            && self@[key].stream.same_data(&old(self)@[key].stream),
                    forall|n: int| 0 <= n < keys@.len() ==> self@.contains_key(#[trigger] keys@[n]),
                    forall|n: int| 0 <= n < i ==> self@[#[trigger] keys@[n]].stream.compacted(),
                decreases keys@.len() - i,
            {
                let ghost before = *self;
                match self.get_mut(Token(keys[i])) {
                    Some(connection) => {
                        connection.stream.shrink_buffers();
                    },
                    None => {},
                }
                assert(self@.dom() =~= before@.dom());
                i = i + 1;
            }
            assert forall|key: usize| #[trigger]
                self@.contains_key(key) implies self@[key].stream.compacted() by {
                assert(keys@.contains(key));
            }
            let ghost before = *self;
            self.last_buffer_resize = now;
            proof {
                lemma_wf_kept(before, 0);
            }
        }
    }

    /// Removes dead connections and returns the reasons, along with the tokens of the connections.
    /// Their sockets are to be deregistered.
    pub fn remove_dead(
        &mut self,
        now: Instant,
        connect_timeout: Duration,
        write_timeout: Option<Duration>,
    ) -> (dead: Vec<(Token, Dead)>)
        requires
            old(self).wf(),
        ensures
            final(self).wf(),
            final(self).next_id() == old(self).next_id(),
            final(self).last_resize() == old(self).last_resize(),
            final(self).vacancies() == old(self).vacancies() + numbers(dead@),
            now.nanos >= old(self).last_search().nanos + 1_000_000_000 ==> final(
                self).last_search() == now,
            now.nanos < old(self).last_search().nanos + 1_000_000_000 ==> final(self)@ == old(
                self)@ && dead@.len() == 0 && final(self).last_search() == old(
                self).last_search(),
            if now.since(old(self).last_search()).nanos / NANOS_PER_MILLI >= CLEANUP_MILLIS {
                &&& final(self).last_search() == now
                &&& buried(old(self)@, final(self)@, dead@, now, connect_timeout, write_timeout)
            } else {
                &&& final(self).last_search() == old(self).last_search()
                &&& final(self)@ == old(self)@
                &&& dead@.len() == 0
            },
    {
        let mut dead: Vec<(Token, Dead)> = Vec::new();
        if now.since(self.last_cleanup).as_millis() >= CLEANUP_MILLIS {
            let ghost before = *self;
            self.last_cleanup = now;
            proof {
                lemma_wf_kept(before, 0);
            }
            let keys: Vec<usize> = slab_keys(&self.connections);
            assert(forall|n: int| 0 <= n < keys@.len() ==> keys@.contains(#[trigger] keys@[n]));
            let mut i: usize = 0;
            while i < keys.len()
                invariant
                    i <= keys@.len(),
                    self.wf(),
                    self.next_id() == old(self).next_id(),
                    self.last_resize() == old(self).last_resize(),
                    self.last_search() == now,
                    self.vacancies() == old(self).vacancies() + numbers(dead@),
                    forall|a: int, b: int| 0 <= a < b < keys@.len() ==> keys@[a] < keys@[b],
                    forall|key: usize|
                        old(self)@.contains_key(key) <==> #[trigger] keys@.contains(key),
                    forall|key: usize| #[trigger]
                        self@.contains_key(key) ==> old(self)@.contains_key(key) && self@[key]
                            == old(self)@[key],
                    forall|n: int|
                        i <= n < keys@.len() ==> self@.contains_key(#[trigger] keys@[n]),
                    forall|n: int|
                        0 <= n < i ==> (self@.contains_key(#[trigger] keys@[n]) <==> death(
                            old(self)@[keys@[n]],
                            now,
                            connect_timeout,
                            write_timeout,
                        ) is None),
                    forall|a: int, b: int|
                        0 <= a < b < dead@.len() ==> (#[trigger] dead@[a]).0.0 < (
                        #[trigger] dead@[b]).0.0,
                    forall|n: int|
                        0 <= n < dead@.len() ==> old(self)@.contains_key(
                            (#[trigger] dead@[n]).0.0,
                        ) && death(
                            old(self)@[dead@[n].0.0],
                            now,
                            connect_timeout,
                            write_timeout,
                        ) == Some(dead@[n].1),
                    forall|n: int|
                        0 <= n < dead@.len() && i < keys@.len() ==> (#[trigger] dead@[n]).0.0
                            < keys@[i as int],
                    forall|n: int|
                        0 <= n < i && !self@.contains_key(#[trigger] keys@[n]) ==> exists|d: int|
                            0 <= d < dead@.len() && (#[trigger] dead@[d]).0.0 == keys@[n],
                decreases keys@.len() - i,
            {
                let key: usize = keys[i];
                let ghost listed = dead@;
                let ghost previous = self@;
                let verdict: Option<Dead> = match slab_get(&self.connections, key) {
                    Some(connection) => {
                        proof {
                            self.law_peer_ids_are_unique(PeerId(0), key);
                        }
                        check_death(connection, now, connect_timeout, write_timeout)
                    },
                    None => None,
                };
                match verdict {
                    Some(reason) => {
                        let _removed: Connection = self.remove_slot(key);
                        dead.push((Token(key), reason));
                        assert(numbers(dead@) =~= numbers(listed).push(key));
                        assert(dead@[dead@.len() - 1].0.0 == key);
                    },
                    None => {},
                }
                assert(forall|n: int| 0 <= n < listed.len() ==> dead@[n] == listed[n]);
                i = i + 1;
            }
            proof {
                assert forall|key: usize| #[trigger] old(self)@.contains_key(key) implies (
                self@.contains_key(key) <==> death(
                    old(self)@[key],
                    now,
                    connect_timeout,
                    write_timeout,
                ) is None) && (!self@.contains_key(key) ==> exists|d: int|
                    0 <= d < dead@.len() && (#[trigger] dead@[d]).0.0 == key) by {
                    assert(keys@.contains(key));
                    let n = choose|n: int| 0 <= n < keys@.len() && keys@[n] == key;
                    assert(keys@[n] == key);
                }
            }
        }
        dead
    }

    /// Checks if it is possible to accept a new connection: if the token that it would get is that
    /// of a connection.
    pub fn has_slot(&self, n_listeners: usize) -> (slot: bool)
        ensures
            slot == token::connection_token(n_listeners, self.next_token()),
    {
        slab_vacant_key(&self.connections) < usize::MAX - n_listeners
    }

    /// Checks if there is an id left for a new peer.
    pub fn has_id(&self) -> (id: bool)
        ensures
            id == (self.next_id() < u64::MAX),
    {
        self.next_seq < u64::MAX
    }

    /// Returns whether any data is queued on any connection.
    pub fn has_queued_data(&self) -> (queued: bool)
        requires
            self.wf(),
        ensures
            queued == self.data_remaining(),
    {
        let keys: Vec<usize> = slab_keys(&self.connections);
        let mut i: usize = 0;
        while i < keys.len()
            invariant
                i <= keys@.len(),
                self.wf(),
                forall|key: usize| self@.contains_key(key) <==> #[trigger] keys@.contains(key),
                forall|n: int|
                    0 <= n < i ==> self@[#[trigger] keys@[n]].stream.tx_msg_buf@.len() == 0,
            decreases keys@.len() - i,
        {
            let key: usize = keys[i];
            assert(keys@.contains(key));
            match slab_get(&self.connections, key) {
                Some(connection) => {
                    proof {
                        self.law_peer_ids_are_unique(PeerId(0), key);
                    }
                    if connection.stream.has_queued_data() {
                        return true;
                    }
                },
                None => {},
            }
            i = i + 1;
        }
        assert forall|key: usize| #[trigger]
            self@.contains_key(key) implies self@[key].stream.tx_msg_buf@.len() == 0 by {
            assert(keys@.contains(key));
        }
        false
    }

    /// How a shutdown goes on.
    pub open spec fn shutdown_goes_on(
        &self,
        timeout: Option<Duration>,
        elapsed: Duration,
        flushed: bool,
        step: ShutdownStep,
    ) -> bool {
        match timeout {
            None => step == (if flushed {
                ShutdownStep::Close
            } else {
                ShutdownStep::Flush
            }),
            Some(timeout) => if flushed {
                if self.data_remaining() {
                    step matches ShutdownStep::Pause(pause) && pause.nanos == 10_000_000
                } else {
                    step == ShutdownStep::Close
                }
            } else if elapsed.nanos < timeout.nanos {
                step == ShutdownStep::Flush
            } else {
                step == ShutdownStep::Close
            },
        }
    }

    /// Decides how a shutdown goes on that has taken a certain time so far. Without a timeout all
    /// connections are flushed once and then closed without waiting further. Otherwise they are
    /// flushed again and again until no data is left or the timeout has passed; `flushed` tells
    /// whether they have just been flushed.
    pub fn shutdown(
        &self,
        timeout: Option<Duration>,
        elapsed: Duration,
        flushed: bool,
    ) -> (step: ShutdownStep)
        requires
            self.wf(),
        ensures
            self.shutdown_goes_on(timeout, elapsed, flushed, step),
    {
        match timeout {
            None => {
                if flushed {
                    ShutdownStep::Close
                } else {
                    ShutdownStep::Flush
                }
            },
            Some(timeout) => {
                if flushed {
                    if self.has_queued_data() {
                        ShutdownStep::Pause(Duration::from_millis(FLUSH_PAUSE_MILLIS))
                    } else {
                        ShutdownStep::Close
                    }
                } else if elapsed.nanos < timeout.nanos {
                    ShutdownStep::Flush
                } else {
                    ShutdownStep::Close
                }
            },
        }
    }
}

/// The numbers of the tokens of dead connections.
pub open spec fn numbers(dead: Seq<(Token, Dead)>) -> Seq<usize> {
    Seq::new(dead.len(), |i: int| dead[i].0.0)
}

/// Whether exactly the dead connections were removed and listed, in the order of their tokens.
pub open spec fn buried(
    before: Map<usize, Connection>,
    after: Map<usize, Connection>,
    dead: Seq<(Token, Dead)>,
    now: Instant,
    connect_timeout: Duration,
    write_timeout: Option<Duration>,
) -> bool {
    &&& forall|key: usize| #[trigger]
        after.contains_key(key) <==> before.contains_key(key) && death(
            before[key],
            now,
            connect_timeout,
            write_timeout,
        ) is None
    &&& forall|key: usize| #[trigger] after.contains_key(key) ==> after[key] == before[key]
    &&& forall|a: int, b: int|
        0 <= a < b < dead.len() ==> (#[trigger] dead[a]).0.0 < (#[trigger] dead[b]).0.0
    &&& forall|n: int|
        0 <= n < dead.len() ==> before.contains_key((#[trigger] dead[n]).0.0) && death(
            before[dead[n].0.0],
            now,
            connect_timeout,
            write_timeout,
        ) == Some(dead[n].1)
    &&& forall|key: usize| #[trigger]
        before.contains_key(key) && !after.contains_key(key) ==> exists|n: int|
            0 <= n < dead.len() && (#[trigger] dead[n]).0.0 == key
}

/// A search for dead connections removes exactly the dead ones, and leaves all others as they are.
/// Every connection that is removed is listed once, under its own token and with the reason for its
/// death, and no other connection is listed. Lower tokens come first.
pub proof fn law_exactly_the_dead_are_removed(
    before: Map<usize, Connection>,
    after: Map<usize, Connection>,
    dead: Seq<(Token, Dead)>,
    now: Instant,
    connect_timeout: Duration,
    write_timeout: Option<Duration>,
    key: usize,
)
    requires
        buried(before, after, dead, now, connect_timeout, write_timeout),
    ensures
        ({
            let verdict = death(before[key], now, connect_timeout, write_timeout);
            &&& after.contains_key(key) <==> before.contains_key(key) && verdict is None
            &&& after.contains_key(key) ==> after[key] == before[key]
            &&& before.contains_key(key) && verdict is Some <==> exists|n: int|
                0 <= n < dead.len() && (#[trigger] dead[n]).0 == Token(key)
            &&& forall|n: int|
                0 <= n < dead.len() && (#[trigger] dead[n]).0 == Token(key) ==> verdict == Some(
                    dead[n].1,
                )
            &&& forall|a: int, b: int|
                0 <= a < b < dead.len() ==> (#[trigger] dead[a]).0.0 < (#[trigger] dead[b]).0.0
            &&& numbers(dead).len() == dead.len()
            &&& forall|n: int| 0 <= n < dead.len() ==> #[trigger] numbers(dead)[n] == dead[n].0.0
        }),
{
    let verdict = death(before[key], now, connect_timeout, write_timeout);
    if before.contains_key(key) && verdict is Some {
        assert(!after.contains_key(key));
        let n = choose|n: int| 0 <= n < dead.len() && (#[trigger] dead[n]).0.0 == key;
        assert(dead[n].0 == Token(key));
    }
}

/// The connectedness status of a connection.
pub open spec fn readiness(
    manager: Manager,
    token: Token,
    pending: Option<std::io::Error>,
    probe: bool,
) -> Connectedness {
    if !manager@.contains_key(token.0) {
        Connectedness::Nonexistent
    } else {
        let connection = manager@[token.0];
        match connection.direction {
            Direction::Inbound { peer } => Connectedness::Ready { peer },
            Direction::Outbound { target, state: State::Connected { peer } } => {
                Connectedness::Ready { peer }
            },
            Direction::Outbound { target, state: State::Connecting { .. } } => match pending {
                Some(error) => Connectedness::Errored { target, error },
                None => if connection.stream.ready || probe {
                    Connectedness::New { peer: PeerId(manager.next_id()), target }
                } else {
                    Connectedness::NotReady
                },
            },
        }
    }
}

/// Adding a connection without a peer keeps a manager well-formed, and so does removing a
/// connection along with its peer.
proof fn lemma_slot_changed(before: Manager, after: Manager, key: usize)
    requires
        before.wf(),
        after.vacancies().len() > 0,
        after.next_seq == before.next_seq,
        forall|k: usize|
            k != key ==> (#[trigger] after@.contains_key(k) <==> before@.contains_key(k)),
        forall|k: usize| k != key && #[trigger] after@.contains_key(k) ==> after@[k] == before@[k],
        after@.contains_key(key) ==> {
            &&& after@[key].token == Token(key)
            &&& after@[key].stream.wf()
            &&& after@[key].peer() is None
        },
        after.slots@ == (if before@.contains_key(key) {
            match before@[key].peer() {
                Some(peer) => before.slots@.remove(peer.0),
                None => before.slots@,
            }
        } else {
            before.slots@
        }),
    ensures
        after.wf(),
{
    if before@.contains_key(key) {
        assert(before.connection_wf(key, before@[key]));
    }
    assert forall|k: usize| #[trigger] after@.contains_key(k) implies after.connection_wf(
        k,
        after@[k],
    ) by {
        if k != key {
            assert(before.connection_wf(k, before@[k]));
        }
    }
    assert forall|id: u64| #[trigger] after.slots@.contains_key(id) implies after@.contains_key(
        after.slots@[id],
    ) && after@[after.slots@[id]].peer() == Some(PeerId(id)) by {
        assert(before.slots@.contains_key(id));
        assert(after.slots@[id] != key);
        assert(after@.contains_key(after.slots@[id]));
    }
}

/// A connection that gets the next peer id keeps a manager well-formed.
proof fn lemma_peer_added(before: Manager, after: Manager, key: usize)
    requires
        before.wf(),
        before.next_seq < u64::MAX,
        before@.contains_key(key) ==> before@[key].peer() is None,
        after.vacancies().len() > 0,
        after.next_seq == before.next_seq + 1,
        after.slots@ == before.slots@.insert(before.next_seq, key),
        after@ == before@.insert(key, after@[key]),
        after@[key].token == Token(key),
        after@[key].stream.wf(),
        after@[key].peer() == Some(PeerId(before.next_seq)),
    ensures
        after.wf(),
{
    assert forall|k: usize| #[trigger] after@.contains_key(k) implies after.connection_wf(
        k,
        after@[k],
    ) by {
        if k != key {
            assert(before.connection_wf(k, before@[k]));
        }
    }
    assert forall|id: u64| #[trigger] after.slots@.contains_key(id) implies after@.contains_key(
        after.slots@[id],
    ) && after@[after.slots@[id]].peer() == Some(PeerId(id)) by {
        if id != before.next_seq {
            assert(before.slots@.contains_key(id));
        }
    }
}

/// Writing to the buffers of a connection keeps a manager well-formed.
proof fn lemma_wf_kept(before: Manager, key: usize)
    requires
        before.wf(),
    ensures
        forall|after: Manager, connection: Connection|
            #![trigger after.wf(), before@.insert(key, connection)]
            before@.contains_key(key) && connection.same_link(&before@[key])
                && connection.stream.wf() && after@ == before@.insert(key, connection)
                && after.slots == before.slots && after.next_seq == before.next_seq
                && after.vacancies() == before.vacancies() ==> after.wf(),
        forall|after: Manager| #![trigger after.wf()]
            after@ == before@ && after.slots == before.slots && after.next_seq == before.next_seq
                && after.vacancies() == before.vacancies() ==> after.wf(),
{
    assert forall|after: Manager, connection: Connection|
        #![trigger after.wf(), before@.insert(key, connection)]
        before@.contains_key(key) && connection.same_link(&before@[key])
            && connection.stream.wf() && after@ == before@.insert(key, connection)
            && after.slots == before.slots && after.next_seq == before.next_seq
            && after.vacancies() == before.vacancies() implies after.wf() by {
        assert(before.connection_wf(key, before@[key]));
        assert forall|k: usize| #[trigger] after@.contains_key(k) implies after.connection_wf(
            k,
            after@[k],
        ) by {
            assert(before@.contains_key(k));
            assert(before.connection_wf(k, before@[k]));
        }
        assert forall|id: u64| #[trigger] after.slots@.contains_key(id) implies after@.contains_key(
            after.slots@[id],
        ) && after@[after.slots@[id]].peer() == Some(PeerId(id)) by {
            assert(before.slots@.contains_key(id));
        }
    }
    assert forall|after: Manager| #![trigger after.wf()]
        after@ == before@ && after.slots == before.slots && after.next_seq == before.next_seq
            && after.vacancies() == before.vacancies() implies after.wf() by {
        assert forall|k: usize| #[trigger] after@.contains_key(k) implies after.connection_wf(
            k,
            after@[k],
        ) by {
            assert(before.connection_wf(k, before@[k]));
        }
    }
}

/// Data remains exactly as long as some connection has a byte queued.
pub proof fn law_data_remains_until_all_is_sent(manager: Manager)
    ensures
        manager.data_remaining() <==> !(forall|key: usize| #[trigger]
            manager@.contains_key(key) ==> manager@[key].stream.tx_msg_buf@.len() == 0),
{
}

/// A shutdown closes the connections right after a flush exactly if it has no timeout or no byte is
/// left on any connection. Otherwise it pauses for ten milliseconds and looks again. It flushes at
/// least once without a timeout, and with one exactly as long as the timeout has not passed; then
/// it closes the connections with whatever is left on them.
pub proof fn law_shutdown_waits_for_data(
    manager: Manager,
    timeout: Option<Duration>,
    elapsed: Duration,
    flushed: bool,
    step: ShutdownStep,
)
    requires
        manager.shutdown_goes_on(timeout, elapsed, flushed, step),
    ensures
        ({
            let idle = forall|key: usize| #[trigger]
                manager@.contains_key(key) ==> manager@[key].stream.tx_msg_buf@.len() == 0;
            let in_time = match timeout {
                None => true,
                Some(timeout) => elapsed.nanos < timeout.nanos,
            };
            &&& flushed ==> (step is Close <==> timeout is None || idle)
            &&& flushed ==> !(step is Flush)
            &&& step matches ShutdownStep::Pause(pause) ==> flushed && pause.nanos == 10_000_000
            &&& !flushed ==> (step is Flush <==> in_time)
            &&& !flushed ==> (step is Close <==> !in_time)
        }),
{
    law_data_remains_until_all_is_sent(manager);
}

} // verus!
