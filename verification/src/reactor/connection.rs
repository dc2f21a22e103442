//! The connections to peers, and who they are.

use vstd::prelude::*;

use crate::connector::Target;
use crate::message::Message;
use crate::message_stream;
use crate::message_stream::framing::Received;
use crate::message_stream::{
    MessageStream, ReadError, ReadJob, StreamConfig, WriteEvent, WriteJob, WriteResult, WriteStep,
};
use crate::peer::PeerId;
use crate::reactor::token::Token;
use crate::time::Instant;

verus! {

/// The internal state of an outbound connection.
#[derive(Debug, Clone, Copy)]
pub enum State {
    /// The connection is still being established.
    Connecting {
        /// When the connect attempt was made.
        start: Instant,
    },
    /// The connection is established and ready.
    Connected {
        /// The peer on the other side.
        peer: PeerId,
    },
}

/// The direction of a connection.
#[derive(Debug)]
pub enum Direction {
    /// The connection is from a remote peer to us. Inbound connections are always ready to use.
    Inbound {
        /// The peer on the other side.
        peer: PeerId,
    },
    /// The connection is from us to a remote peer. The state can vary.
    Outbound {
        /// What was connected to.
        target: Target,
        /// How far the connection has come.
        state: State,
    },
}

/// What a socket is to be polled for.
#[derive(Debug, Clone, Copy, PartialEq, Eq, Structural)]
pub enum Interest {
    /// Poll whether the socket can be read from.
    Readable,
    /// Poll whether the socket can be written to.
    Writable,
    /// Poll for both.
    ReadableWritable,
}

/// What a round of writes has come to.
#[derive(Debug, Clone, Copy)]
pub struct Flushed {
    /// Whether more write work is available immediately (without blocking).
    pub more: bool,
    /// How many bytes were written out.
    pub written: usize,
    /// What the socket is to be polled for from now on, if that changes.
    pub interest: Option<Interest>,
}

/// How a round of writes on a connection goes on.
#[derive(Debug)]
pub enum FlushStep {
    /// Write again.
    Again(WriteJob),
    /// The round is over. Encountering an error here means the connection must be discarded.
    Stop(Result<Flushed, std::io::Error>),
}

/// What the end of a round of writes means for a connection. Once all data is out the socket need
/// not be polled for writing any more.
pub open spec fn flush_step(step: WriteStep) -> FlushStep {
    match step {
        WriteStep::Again(job) => FlushStep::Again(job),
        WriteStep::Stop(Err(error)) => FlushStep::Stop(Err(error)),
        WriteStep::Stop(Ok((result, written))) => FlushStep::Stop(
            Ok(
                Flushed {
                    more: result == WriteResult::BudgetExceeded,
                    written,
                    interest: if result == WriteResult::Done {
                        Some(Interest::Readable)
                    } else {
                        None
                    },
                },
            ),
        ),
    }
}

/// Decides what the end of a round of writes means for a connection.
fn to_flush_step(step: WriteStep) -> (flush: FlushStep)
    ensures
        flush == flush_step(step),
{
    match step {
        WriteStep::Again(job) => FlushStep::Again(job),
        WriteStep::Stop(Err(error)) => FlushStep::Stop(Err(error)),
        WriteStep::Stop(Ok((result, written))) => match result {
            WriteResult::Done => FlushStep::Stop(
                Ok(Flushed { more: false, written, interest: Some(Interest::Readable) }),
            ),
            WriteResult::WouldBlock => FlushStep::Stop(
                Ok(Flushed { more: false, written, interest: None }),
            ),
            WriteResult::BudgetExceeded => FlushStep::Stop(
                Ok(Flushed { more: true, written, interest: None }),
            ),
        },
    }
}

/// Contains the state of a TCP connection along with its metadata.
#[derive(Debug)]
pub struct Connection {
    /// The buffers of the connection.
    pub stream: MessageStream,
    /// Which side has connected to which.
    pub direction: Direction,
    /// The token that the connection's socket is polled under.
    pub token: Token,
}

impl Connection {
    /// The peer on the other side, if the connection has been established.
    pub open spec fn peer(&self) -> Option<PeerId> {
        match self.direction {
            Direction::Inbound { peer } => Some(peer),
            Direction::Outbound { state: State::Connected { peer }, .. } => Some(peer),
            Direction::Outbound { state: State::Connecting { .. }, .. } => None,
        }
    }

    /// Whether two connections are the same but for their buffers.
    pub open spec fn same_link(&self, other: &Connection) -> bool {
        self.direction == other.direction && self.token == other.token
    }

    /// Starts a round of reads into a shared receive buffer of a certain size.
    pub fn begin_read<M: Message>(&self, rx_buf_len: usize) -> (job: ReadJob)
        requires
            self.stream.wf(),
            self.stream.rx_fits::<M>(),
        ensures
            job.wf(),
            job.total_read == 0,
            job.limit == vstd::math::min(
                self.stream.rx_max::<M>() - self.stream.rx_msg_buf@.len(),
                rx_buf_len as int,
            ),
    {
        self.stream.begin_read::<M>(rx_buf_len)
    }

    /// Ends a round of reads: attempts to decode messages from the bytes that the round has read.
    /// Encountering an error means that the connection must be discarded.
    ///
    /// Returns the messages, and whether there is more work available.
    pub fn read<M: Message>(
        &mut self,
        rx_buf: &[u8],
        read_result: Result<bool, ReadError>,
        now: Instant,
    ) -> (read: (Vec<Received<M>>, Result<bool, ReadError>))
        requires
            old(self).stream.wf(),
            old(self).stream.rx_fits::<M>(),
            rx_buf@.len() <= old(self).stream.rx_max::<M>() - old(self).stream.rx_msg_buf@.len(),
        ensures
            final(self).same_link(old(self)),
            final(self).stream.wf(),
            final(self).stream.rx_fits::<M>(),
            message_stream::read_effect::<M>(
                old(self).stream,
                rx_buf@,
                read_result,
                now,
                final(self).stream,
                read.0@,
                read.1,
            ),
    {
        self.stream.read::<M>(rx_buf, read_result, now)
    }

    /// Queues a message for sending. This method simply encodes the message and places it into
    /// the internal buffer. [`write`](Self::write) must be called when the socket is writeable in
    /// order to flush.
    ///
    /// Returns whether the message was queued successfully or rejected due to a lack of space in
    /// the buffer, along with the number of bytes added to the buffer. The socket must be polled
    /// for writing once a message was queued.
    pub fn queue_message<M: Message>(&mut self, message: &M, now: Instant) -> (queued: (
        bool,
        usize,
        Option<Interest>,
    ))
        requires
            old(self).stream.wf(),
            old(self).stream.tx_fits::<M>(),
        ensures
            final(self).same_link(old(self)),
            final(self).stream.wf(),
            final(self).stream.tx_fits::<M>(),
            message_stream::queue_effect::<M>(
                old(self).stream,
                *message,
                now,
                final(self).stream,
                (queued.0, queued.1),
            ),
            queued.2 == (if queued.0 {
                Some(Interest::ReadableWritable)
            } else {
                None
            }),
    {
        let (queued, n_bytes): (bool, usize) = self.stream.queue_message::<M>(message, now);
        if queued {
            (true, n_bytes, Some(Interest::ReadableWritable))
        } else {
            (false, n_bytes, None)
        }
    }

    /// Returns how many bytes can be queued immediately with respect to transmit buffer size limit.
    pub fn available<M: Message>(&self) -> (available: usize)
        requires
            self.stream.wf(),
            self.stream.tx_fits::<M>(),
        ensures
            available == self.stream.tx_max::<M>() - self.stream.tx_msg_buf@.len(),
    {
        self.stream.available::<M>()
    }

    /// Starts a round of writes.
    pub fn begin_write(&self) -> (step: FlushStep)
        requires
            self.stream.wf(),
        ensures
            step == (if self.stream.tx_msg_buf@.len() == 0 {
                FlushStep::Stop(
                    Ok(Flushed { more: false, written: 0, interest: Some(Interest::Readable) }),
                )
            } else {
                FlushStep::Again(
                    WriteJob {
                        write_budget: message_stream::WRITE_BUDGET,
                        syscall_budget: message_stream::SYSCALL_BUDGET,
                        total_written: 0,
                    },
                )
            }),
    {
        to_flush_step(self.stream.begin_write())
    }

    /// Takes in what a write of the send buffer came to. Writes go on until blocking would start
    /// or some write budget is exceeded.
    ///
    /// Returns whether more write work is available immediately (without blocking) and how many
    /// bytes were written out.
    pub fn write(&mut self, job: WriteJob, event: WriteEvent, now: Instant) -> (step: FlushStep)
        requires
            old(self).stream.wf(),
            job.syscall_budget > 0,
            job.total_written + old(self).stream.tx_msg_buf@.len() <= usize::MAX,
            event.written() <= old(self).stream.tx_msg_buf@.len(),
        ensures
            final(self).same_link(old(self)),
            final(self).stream.wf(),
            message_stream::write_effect(old(self).stream, event, now, final(self).stream),
            step == flush_step(
                message_stream::write_verdict(
                    job,
                    event,
                    final(self).stream.tx_msg_buf@.len() > 0,
                ),
            ),
            step matches FlushStep::Again(next) ==> {
                &&& 0 < next.syscall_budget < job.syscall_budget
                &&& next.total_written + final(self).stream.tx_msg_buf@.len() == job.total_written
                    + old(self).stream.tx_msg_buf@.len()
            },
    {
        to_flush_step(self.stream.write(job, event, now))
    }

    /// Exposes the stream config.
    pub fn config(&self) -> (config: &StreamConfig)
        ensures
            *config == self.stream.config,
    {
        self.stream.config()
    }

    /// Utility function that returns a peer id for a connection, if one has been established.
    pub fn peer_id(&self) -> (peer: Option<PeerId>)
        ensures
            peer == self.peer(),
    {
        match &self.direction {
            Direction::Inbound { peer } => Some(*peer),
            Direction::Outbound { state: State::Connected { peer }, .. } => Some(*peer),
            Direction::Outbound { state: State::Connecting { .. }, .. } => None,
        }
    }
}

/// There is a peer on the other side of a connection exactly if the connection came in or has been
/// established.
pub proof fn law_peer_is_known_once_established(connection: Connection)
    ensures
        match connection.direction {
            Direction::Inbound { peer } => connection.peer() == Some(peer),
            Direction::Outbound { state: State::Connected { peer }, .. } => connection.peer()
                == Some(peer),
            Direction::Outbound { state: State::Connecting { .. }, .. } => {
                connection.peer() is None
            },
        },
{
}

/// Two connections that differ in nothing but their buffers have the same peer, the same direction
/// and the same token.
pub proof fn law_same_link_same_peer(left: Connection, right: Connection)
    requires
        left.same_link(&right),
    ensures
        left.peer() == right.peer(),
        left.direction == right.direction,
        left.token == right.token,
{
}

/// What the end of a round of writes means. An error is passed on as it is. There is more to write
/// at once exactly if a budget was exceeded, and the socket is no longer polled for writing exactly
/// if the round is done. What was written is counted either way.
pub proof fn law_end_of_writes_is_passed_on(step: WriteStep)
    ensures
        match step {
            WriteStep::Again(job) => flush_step(step) == FlushStep::Again(job),
            WriteStep::Stop(Err(error)) => flush_step(step) == FlushStep::Stop(Err(error)),
            WriteStep::Stop(Ok((result, written))) => {
                &&& flush_step(step) matches FlushStep::Stop(Ok(flushed))
                &&& flushed.written == written
                &&& flushed.more <==> result == WriteResult::BudgetExceeded
                &&& flushed.interest == Some(Interest::Readable) <==> result == WriteResult::Done
                &&& flushed.interest is None <==> result != WriteResult::Done
            },
        },
{
}

} // verus!
