//! # Peer-to-peer networking core
//!
//! Peerlink is a low-level building block for P2P applications. The library holds everything that
//! a nonblocking reactor decides: how bytes off the wire are put together to messages, how
//! messages are queued and flushed, which connections exist and under which peer ids, which of
//! them get a turn, and which events the consumer sees. It performs no I/O of its own: a driver
//! owns the sockets, performs what the library asks for and reports what came of it.

pub mod connector;
pub mod decimal;
pub mod io;
pub mod message;
pub mod message_stream;
pub mod peer;
pub mod reactor;
pub mod std_vec;
pub mod time;

use vstd::prelude::*;

use crate::connector::{ConnectError, SocketAddr, Target};

pub use crate::message::{DecodeError, Message};
pub use crate::message_stream::StreamConfig;
pub use crate::peer::PeerId;
pub use crate::reactor::Termination;

verus! {

/// Configuration parameters for the reactor.
#[derive(Debug, Clone)]
pub struct Config {
    /// The list of socket addresses where the reactor listens for inbound connections.
    pub bind_addr: Vec<SocketAddr>,
    /// Configuration parameters for individual peer connections. This allows the fine tuning of
    /// internal buffer sizes etc.
    pub stream_config: StreamConfig,
    /// The size of the shared receive buffer, i.e. the max number of bytes that can be read in one
    /// receive operation. Setting this too low can cause many reads to happen, whereas too high a
    /// figure will use up more memory and open up your application to DoS attacks. The default is
    /// 1 MB.
    ///
    /// This figure is capped by [`Message::MAX_SIZE`] since there is no need to ever take in more
    /// data in one read than the biggest message requires to decode.
    pub receive_buffer_size: usize,
    /// Whether the reactor should perform backpressure control on the receive side. Setting this
    /// to `Some(n)` means that the reactor will start blocking on sending events to the consumer
    /// when the receive channel of size `n` is full and events are not being read. Setting it to
    /// `None` means that the capacity of the event channel is unbounded and the reactor will send
    /// events to the consumer as fast as it can, regardless of whether those events are being read
    /// (at all). The default is no backpressure control (`None`).
    pub receive_channel_size: Option<usize>,
}

impl Default for Config {
    fn default() -> (config: Self)
        ensures
            config.bind_addr@.len() == 0,
            config.stream_config.rx_buf_min_size == 4096,
            config.stream_config.rx_buf_max_size.factor() == 1,
            config.stream_config.tx_buf_min_size == 4096,
            config.stream_config.tx_buf_max_size.factor() == 2,
            config.stream_config.connect_timeout.nanos == 5_000_000_000,
            !config.stream_config.outbound_telemetry,
            config.receive_buffer_size == 1_048_576,
            config.receive_channel_size is None,
    {
        Config {
            bind_addr: Vec::new(),
            stream_config: StreamConfig::default(),
            receive_buffer_size: 1024 * 1024,
            receive_channel_size: None,
        }
    }
}

/// Command variants for the reactor to process.
#[derive(Debug)]
pub enum Command<M: Message> {
    /// Connect to a remote host.
    Connect(Target),
    /// Disconnect from a peer.
    Disconnect(PeerId),
    /// Send a message to a peer.
    Message(PeerId, M),
}

impl<M: Message> Command<M> {
    /// Convenience function that converts a compatible argument into a connect [`Target`].
    /// Works on types such as:
    ///   - [`SocketAddr`]
    ///   - [`SocketAddrV4`](crate::connector::SocketAddrV4)
    ///   - [`SocketAddrV6`](crate::connector::SocketAddrV6)
    ///   - [`(Ipv4Addr, u16)`](crate::connector::Ipv4Addr) -- (address, port)
    ///   - [`(Ipv6Addr, u16)`](crate::connector::Ipv6Addr) -- (address, port)
    ///   - `(String, u16)` -- (domain, port)
    ///   - `(&str, u16)` -- (domain, port)
    pub fn connect<T: Into<Target>>(target: T) -> (command: Self)
        ensures
            command matches Command::Connect(connected) && call_ensures(
                T::into,
                (target,),
                connected,
            ),
    {
        Command::Connect(target.into())
    }
}

/// Event variants produced by the reactor.
#[derive(Debug)]
pub enum Event<M: Message> {
    /// The reactor attempted to connect to a remote peer.
    ConnectedTo {
        /// The remote host that was connected to. This is in the same format it was specified.
        target: Target,
        /// The result of the connection attempt. A peer id is returned if successful.
        result: Result<PeerId, ConnectError>,
    },
    /// The reactor received a connection from a remote peer.
    ConnectedFrom {
        /// The peer associated with the event.
        peer: PeerId,
        /// The address of the remote peer.
        addr: SocketAddr,
        /// The address of the local interface that accepted the connection.
        interface: SocketAddr,
    },
    /// A peer disconnected.
    Disconnected {
        /// The peer associated with the event.
        peer: PeerId,
        /// The reason the peer left.
        reason: DisconnectReason,
    },
    /// A peer produced a message.
    Message {
        /// The peer associated with the event.
        peer: PeerId,
        /// The message received from the peer.
        message: M,
        /// The original wire size of the message before it was decoded.
        size: usize,
    },
    /// No peer exists with the specified id. Sent when an operation was specified using a peer id
    /// that is not present in the reactor.
    NoPeer(PeerId),
    /// The send buffer associated with the peer has less space available than the queued message.
    QueueRejected {
        /// The peer associated with the event.
        peer: PeerId,
        /// The message that could not be queued.
        message: M,
    },
    /// Some data has entered or left the send buffer for a peer. This is only emitted if config
    /// enabled.
    OutboundTelemetry {
        /// The peer associated with the event.
        peer: PeerId,
        /// The number of bytes that can be queued without triggering a rejection.
        available: usize,
        /// By how many bytes the send buffer has grown or shrunk.
        delta: isize,
    },
}

/// Explains why a client connection was disconnected.
#[derive(Debug)]
pub enum DisconnectReason {
    /// The reactor was asked to perform a disconnect.
    Requested,
    /// The peer left and the end of stream was reached.
    Left,
    /// The peer violated the protocol in some way, usually by sending a malformed message.
    CodecViolation,
    /// The write side is stale, i.e. the peer is not reading the data we are sending.
    WriteStale,
    /// An IO error occurred.
    Error(std::io::Error),
}

} // verus!
