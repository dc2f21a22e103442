//! Message buffering and assembly on the read side of a connection, message serialization and
//! flushing on its write side.
//!
//! A stream does not own a socket. A driver reads from the socket and writes to it, one operation
//! at a time, reports what each of them came to, and is told whether to go on.

pub mod framing;
pub mod queue_points;
pub mod reassembly;
pub mod rounds;
pub mod shiftbuf;
pub mod spanned_view;
pub mod transfer;

use vstd::prelude::*;

use crate::message::Message;
use crate::message_stream::framing::{decode_from_buffer, Received};
use crate::message_stream::queue_points::{Point, Queue};
use crate::message_stream::shiftbuf::ShiftBuf;
use crate::message_stream::spanned_view::SpannedView;
use crate::time::{Duration, Instant};

verus! {

/// How many bytes a stream writes out before it makes room for others.
pub const WRITE_BUDGET: usize = 131_072;

/// How many writes a stream performs before it makes room for others.
pub const SYSCALL_BUDGET: u8 = 8;

/// A deferred size expressed as a multiple of the protocol's maximum message size
/// ([`Message::MAX_SIZE`]).
///
/// This type does not store a byte length. Instead, it stores a factor that is multiplied by the
/// maximum message size defined by the protocol to obtain a concrete size at evaluation time. The
/// factor is never zero.
#[derive(Debug, Clone, Copy, PartialEq, Eq, Structural)]
pub struct MaxMessageSizeMultiple {
    factor: u8,
}

impl MaxMessageSizeMultiple {
    #[verifier::type_invariant]
    spec fn nonzero(self) -> bool {
        self.factor != 0
    }

    /// The factor.
    pub closed spec fn factor(self) -> nat {
        self.factor as nat
    }

    /// The size in bytes for a type of messages.
    pub open spec fn bytes<M: Message>(self) -> nat {
        self.factor() * (M::MAX_SIZE as nat)
    }

    /// Creates a multiple. There is none for a factor of zero.
    pub fn new(factor: u8) -> (multiple: Option<Self>)
        ensures
            match multiple {
                Some(multiple) => factor != 0 && multiple.factor() == factor,
                None => factor == 0,
            },
    {
        if factor == 0 {
            None
        } else {
            Some(MaxMessageSizeMultiple { factor })
        }
    }

    /// The maximum message size itself.
    pub fn one() -> (multiple: Self)
        ensures
            multiple.factor() == 1,
    {
        MaxMessageSizeMultiple { factor: 1 }
    }

    /// Twice the maximum message size.
    pub fn two() -> (multiple: Self)
        ensures
            multiple.factor() == 2,
    {
        MaxMessageSizeMultiple { factor: 2 }
    }

    /// Three times the maximum message size.
    pub fn three() -> (multiple: Self)
        ensures
            multiple.factor() == 3,
    {
        MaxMessageSizeMultiple { factor: 3 }
    }

    /// Four times the maximum message size.
    pub fn four() -> (multiple: Self)
        ensures
            multiple.factor() == 4,
    {
        MaxMessageSizeMultiple { factor: 4 }
    }

    /// Returns whether the size in bytes for a type of messages can be represented.
    pub fn fits<M: Message>(&self) -> (fits: bool)
        ensures
            fits == (self.bytes::<M>() <= usize::MAX),
    {
        (self.factor as usize).checked_mul(M::MAX_SIZE).is_some()
    }

    /// Computes the size in bytes for a type of messages. It is never less than the size of the
    /// largest message.
    pub fn compute<M: Message>(&self) -> (size: usize)
        requires
            self.bytes::<M>() <= usize::MAX,
        ensures
            size == self.bytes::<M>(),
            size >= M::MAX_SIZE,
    {
        proof {
            use_type_invariant(self);
            let factor = self.factor as int;
            let max_size = M::MAX_SIZE as int;
            assert(factor * max_size >= max_size) by (nonlinear_arith)
                requires
                    factor >= 1,
                    max_size >= 0,
            ;
        }
        (self.factor as usize) * M::MAX_SIZE
    }
}

/// Stream related configuration parameters.
#[derive(Debug, Clone, Copy)]
pub struct StreamConfig {
    /// Defines the minimum size of the per-connection receive buffer used for message reassembly.
    /// Low values will cause more frequent reallocation while high values will reallocate less at
    /// the expense of more memory usage. A buffer never shrinks to less than this value.
    pub rx_buf_min_size: usize,
    /// Defines the maximum size of the per-connection receive buffer used for message reassembly.
    /// This defaults to [`Message::MAX_SIZE`]. This number is very important in DoS mitigation
    /// because it prevents a malicious sender from filling up a connection's receive buffer with
    /// endless junk data.
    pub rx_buf_max_size: MaxMessageSizeMultiple,
    /// Defines the minimum size of the per-connection send buffer. Low values will cause more
    /// frequent reallocation while high values will reallocate less at the expense of more memory
    /// usage. A buffer never shrinks to less than this value.
    pub tx_buf_min_size: usize,
    /// Defines the maximum size of the per-connection send buffer. Once the send buffer is full, it
    /// is not possible to queue new messages for sending until some capacity is available. A send
    /// buffer becomes full when sending messages faster than the remote peer is reading. This value
    /// is important for outbound backpressure control. Defaults to 2 x [`Message::MAX_SIZE`].
    pub tx_buf_max_size: MaxMessageSizeMultiple,
    /// The duration after which a connect attempt is abandoned. Applies only to non-blocking
    /// connect attempts. Blocking ones performed in custom connectors ignore this value.
    pub connect_timeout: Duration,
    /// Whether an event should be emitted every time data enters and leaves the send buffer for the
    /// peer. Useful for fine grained flow control and backpressure control. The event emitted is
    /// [`Event::OutboundTelemetry`](crate::Event::OutboundTelemetry).
    pub outbound_telemetry: bool,
}

impl Default for StreamConfig {
    fn default() -> (config: Self)
        ensures
            config.rx_buf_min_size == 4096,
            config.rx_buf_max_size.factor() == 1,
            config.tx_buf_min_size == 4096,
            config.tx_buf_max_size.factor() == 2,
            config.connect_timeout.nanos == 5_000_000_000,
            !config.outbound_telemetry,
    {
        StreamConfig {
            rx_buf_min_size: 4 * 1024,
            rx_buf_max_size: MaxMessageSizeMultiple::one(),
            tx_buf_min_size: 4 * 1024,
            tx_buf_max_size: MaxMessageSizeMultiple::two(),
            connect_timeout: Duration::from_secs(5),
            outbound_telemetry: false,
        }
    }
}

/// Why a stream cannot be read from any more.
#[derive(Debug)]
pub enum ReadError {
    /// A malformed message was received.
    MalformedMessage,
    /// End of stream has been reached (closed stream).
    EndOfStream,
    /// The stream produced an I/O error.
    Error(std::io::Error),
}

/// What a single read from a socket came to.
#[derive(Debug)]
pub enum ReadEvent {
    /// So many bytes were read.
    Read(usize),
    /// Nothing can be read at present.
    WouldBlock,
    /// The read failed.
    Failed(std::io::Error),
}

/// A round of reads from a socket.
///
/// The read strategy is as follows: every stream gets a fair chance to read. The most a stream can
/// read in one round is the size of shared receive buffer, or the amount of space remaining in the
/// receive buffer for incomplete messages, whichever is lower. This way we ensure that we never get
/// overwhelmed by an aggressive sender.
#[derive(Debug, Clone, Copy)]
pub struct ReadJob {
    /// The most bytes that the round may read.
    pub limit: usize,
    /// The number of bytes read so far.
    pub total_read: usize,
}

/// How a round of reads goes on.
#[derive(Debug)]
pub enum ReadStep {
    /// Read again, into what is left of the limit.
    Again(ReadJob),
    /// The round is over.
    Stop {
        /// The number of bytes that the round has read.
        total_read: usize,
        /// Whether there is maybe more to read, or why there will not be.
        result: Result<bool, ReadError>,
    },
}

impl ReadJob {
    /// The round has not read up to its limit yet, unless it must not read anything.
    pub open spec fn wf(self) -> bool {
        self.total_read < self.limit || (self.limit == 0 && self.total_read == 0)
    }

    /// How the round goes on after a read.
    pub open spec fn stepped(self, event: ReadEvent) -> ReadStep {
        match event {
            ReadEvent::Read(n) => if n == 0 {
                ReadStep::Stop {
                    total_read: self.total_read,
                    result: if self.limit == 0 {
                        Ok(true)
                    } else {
                        Err(ReadError::EndOfStream)
                    },
                }
            } else if self.total_read + n == self.limit {
                ReadStep::Stop { total_read: self.limit, result: Ok(true) }
            } else {
                ReadStep::Again(
                    ReadJob { limit: self.limit, total_read: (self.total_read + n) as usize },
                )
            },
            ReadEvent::WouldBlock => ReadStep::Stop {
                total_read: self.total_read,
                result: Ok(false),
            },
            ReadEvent::Failed(error) => ReadStep::Stop {
                total_read: self.total_read,
                result: Err(ReadError::Error(error)),
            },
        }
    }

    /// Takes in what a read into the remaining `limit - total_read` bytes came to.
    pub fn step(self, event: ReadEvent) -> (step: ReadStep)
        requires
            self.wf(),
            event matches ReadEvent::Read(n) ==> n <= self.limit - self.total_read,
        ensures
            step == self.stepped(event),
            step matches ReadStep::Again(job) ==> job.wf() && job.limit == self.limit
                && job.total_read > self.total_read,
            step matches ReadStep::Stop { total_read, .. } ==> total_read <= self.limit,
    {
        match event {
            ReadEvent::Read(n) => {
                if n == 0 {
                    if self.limit == 0 {
                        // there is maybe more to read but our buffer was already full
                        ReadStep::Stop { total_read: self.total_read, result: Ok(true) }
                    } else {
                        // buffer was not full and we simply reached the end of stream
                        ReadStep::Stop {
                            total_read: self.total_read,
                            result: Err(ReadError::EndOfStream),
                        }
                    }
                } else {
                    let total_read: usize = self.total_read + n;
                    if total_read == self.limit {
                        // exceeded, maybe there is more but we need to move on
                        ReadStep::Stop { total_read, result: Ok(true) }
                    } else {
                        ReadStep::Again(ReadJob { limit: self.limit, total_read })
                    }
                }
            },
            ReadEvent::WouldBlock => ReadStep::Stop {
                total_read: self.total_read,
                result: Ok(false),
            },
            ReadEvent::Failed(error) => ReadStep::Stop {
                total_read: self.total_read,
                result: Err(ReadError::Error(error)),
            },
        }
    }
}

/// What a single write to a socket, and the flush that follows it, came to.
#[derive(Debug)]
pub enum WriteEvent {
    /// So many bytes were written and flushed.
    Wrote(usize),
    /// Nothing can be written at present.
    WouldBlock,
    /// The write failed.
    Failed(std::io::Error),
    /// So many bytes were written, but flushing them would block.
    FlushWouldBlock(usize),
    /// So many bytes were written, but flushing them failed.
    FlushFailed(usize, std::io::Error),
}

impl WriteEvent {
    /// The number of bytes that left the send buffer.
    pub open spec fn written(self) -> nat {
        match self {
            WriteEvent::Wrote(n) => n as nat,
            WriteEvent::FlushWouldBlock(n) => n as nat,
            WriteEvent::FlushFailed(n, _) => n as nat,
            _ => 0,
        }
    }

    /// Whether the round of writes is done if no data is left.
    pub open spec fn clears(self) -> bool {
        self is Wrote || self is FlushWouldBlock
    }
}

/// How much of the send buffer was flushed.
#[derive(Debug, Clone, Copy, PartialEq, Eq, Structural)]
pub enum WriteResult {
    /// The write job is done and no more data remains queued.
    Done,
    /// More data remains queued but the write would block.
    WouldBlock,
    /// More data remains queued but the write budget has been exceeded.
    BudgetExceeded,
}

/// A round of writes to a socket.
#[derive(Debug, Clone, Copy)]
pub struct WriteJob {
    /// The number of bytes that the round may still write before it is cut short.
    pub write_budget: usize,
    /// The number of writes that the round may still perform.
    pub syscall_budget: u8,
    /// The number of bytes written so far.
    pub total_written: usize,
}

/// How a round of writes goes on.
#[derive(Debug)]
pub enum WriteStep {
    /// Write again.
    Again(WriteJob),
    /// The round is over: the status of the write and how many bytes were written out.
    Stop(Result<(WriteResult, usize), std::io::Error>),
}

impl WriteJob {
    /// How the round goes on once `n` more bytes were written, depending on whether there is more
    /// to write.
    pub open spec fn after(self, n: usize, has_more: bool) -> WriteStep {
        let total_written = (self.total_written + n) as usize;
        let write_budget = if n < self.write_budget {
            (self.write_budget - n) as usize
        } else {
            0
        };
        let syscall_budget = (self.syscall_budget - 1) as u8;
        if !has_more {
            WriteStep::Stop(Ok((WriteResult::Done, total_written)))
        } else if write_budget == 0 || syscall_budget == 0 {
            WriteStep::Stop(Ok((WriteResult::BudgetExceeded, total_written)))
        } else {
            WriteStep::Again(WriteJob { write_budget, syscall_budget, total_written })
        }
    }
}

/// A round of writes never takes long: it performs at most [`SYSCALL_BUDGET`] writes, and does not
/// go on once [`WRITE_BUDGET`] bytes went out. The jobs are those of the writes of one round, and
/// each write but the last has written so many bytes.
pub proof fn law_write_round_is_bounded(jobs: Seq<WriteJob>, written: Seq<usize>, i: int)
    requires
        jobs.len() == written.len() + 1,
        jobs[0] == (WriteJob {
            write_budget: WRITE_BUDGET,
            syscall_budget: SYSCALL_BUDGET,
            total_written: 0,
        }),
        forall|n: int|
            0 <= n < written.len() ==> #[trigger] jobs[n].after(written[n], true)
                == WriteStep::Again(jobs[n + 1]),
        0 <= i < jobs.len(),
    ensures
        i < SYSCALL_BUDGET,
        jobs[i].syscall_budget == SYSCALL_BUDGET - i,
        jobs[i].total_written < WRITE_BUDGET,
        jobs[i].write_budget == WRITE_BUDGET - jobs[i].total_written,
    decreases i,
{
    if i > 0 {
        law_write_round_is_bounded(jobs, written, i - 1);
        assert(jobs[i - 1].after(written[i - 1], true) == WriteStep::Again(jobs[i]));
    }
}

/// Various metrics on the outbound buffer.
#[derive(Debug, Clone, Copy)]
pub struct OutboundMetrics {
    /// How many bytes can be queued immediately with respect to tx buffer size limit.
    pub available: usize,
    /// The number of currently queued bytes.
    pub queued: usize,
    /// The time of the oldest queued byte, if any.
    pub oldest: Option<Instant>,
}

/// Wraps read and write parts of a peer connection and does message buffering and assembly
/// on the read side and message serialization and flushing on the write side.
#[derive(Debug)]
pub struct MessageStream {
    /// Configuration parameters for the stream.
    pub config: StreamConfig,
    /// Buffer used for message reconstruction.
    pub rx_msg_buf: ShiftBuf,
    /// Buffer used for sending.
    pub tx_msg_buf: ShiftBuf,
    /// The list of queue points for outgoing messages.
    pub tx_queue_points: Queue,
    /// Cached readyness.
    pub ready: bool,
    /// Last successful write time.
    pub last_write: Instant,
    /// The time the current message frame started coming in.
    pub frame_time: Instant,
}

/// The messages that a stream is to receive in a round of reads that has come to `rx`: all those
/// that the buffered bytes and the new ones hold.
pub open spec fn received_messages<M: Message>(
    before: MessageStream,
    rx: Seq<u8>,
    now: Instant,
) -> Seq<Received<M>> {
    framing::delivery(
        framing::frames::<M>(before.rx_msg_buf@ + rx).messages,
        if before.rx_msg_buf@.len() > 0 {
            Some(before.frame_time)
        } else {
            None
        },
        now,
    )
}

/// What a round of reads that has come to `rx` ends with. Malformed data takes precedence over
/// what the reads ended with.
pub open spec fn read_outcome<M: Message>(
    before: MessageStream,
    rx: Seq<u8>,
    read_result: Result<bool, ReadError>,
) -> Result<bool, ReadError> {
    if framing::frames::<M>(before.rx_msg_buf@ + rx).malformed {
        Err(ReadError::MalformedMessage)
    } else {
        read_result
    }
}

/// What a round of reads that has come to `rx` does to a stream. All messages that the buffered
/// bytes and the new ones hold are decoded; the bytes behind them are kept, and no others are
/// stored. Malformed data leaves the stream as it was. The frame that is left incomplete started
/// coming in just now, unless it was incomplete before.
pub open spec fn read_effect<M: Message>(
    before: MessageStream,
    rx: Seq<u8>,
    read_result: Result<bool, ReadError>,
    now: Instant,
    after: MessageStream,
    received: Seq<Received<M>>,
    result: Result<bool, ReadError>,
) -> bool {
    let bytes = before.rx_msg_buf@ + rx;
    let all = framing::frames::<M>(bytes);
    let preexisting = before.rx_msg_buf@.len() > 0;
    &&& framing::as_expected(received, received_messages::<M>(before, rx, now))
    &&& result == read_outcome::<M>(before, rx, read_result)
    &&& if all.malformed {
        after == before
    } else {
        &&& after.rx_msg_buf@ == bytes.skip(all.consumed as int)
        &&& after.rx_msg_buf.buf@ == bytes.skip(all.consumed as int)
        &&& after.rx_msg_buf.cursor == 0
        &&& after == (MessageStream {
            rx_msg_buf: after.rx_msg_buf,
            frame_time: if preexisting && all.consumed == 0 {
                before.frame_time
            } else if preexisting || all.consumed < bytes.len() {
                now
            } else {
                before.frame_time
            },
            ..before
        })
    }
}

/// What queueing a message does to a stream. A message that does not fit into the send buffer is
/// rejected as a whole. A message without bytes leaves nothing to be sent.
pub open spec fn queue_effect<M: Message>(
    before: MessageStream,
    message: M,
    now: Instant,
    after: MessageStream,
    queued: (bool, usize),
) -> bool {
    let size = message.encoding().len();
    if before.tx_msg_buf@.len() + size > before.tx_max::<M>() {
        &&& queued == (false, 0usize)
        &&& after == before
    } else {
        &&& queued == (true, size as usize)
        &&& after.tx_msg_buf@ == before.tx_msg_buf@ + message.encoding()
        &&& after.tx_queue_points@ == (if size > 0 {
            before.tx_queue_points@.push(Point { time: now, left: size as usize })
        } else {
            before.tx_queue_points@
        })
        &&& after == (MessageStream {
            tx_msg_buf: after.tx_msg_buf,
            tx_queue_points: after.tx_queue_points,
            ..before
        })
    }
}

/// What a write of the send buffer does to a stream. The bytes that went out leave the send buffer
/// and the queue points at their heads, whatever came of the flush. A send buffer that was written
/// out as a whole keeps none of its bytes, unless the stream has failed. A write is successful once
/// its bytes have been flushed too.
pub open spec fn write_effect(
    before: MessageStream,
    event: WriteEvent,
    now: Instant,
    after: MessageStream,
) -> bool {
    &&& after.tx_msg_buf@ == before.tx_msg_buf@.skip(event.written() as int)
    &&& if event.clears() && event.written() == before.tx_msg_buf@.len() {
        &&& after.tx_msg_buf.buf@ == Seq::<u8>::empty()
        &&& after.tx_msg_buf.cursor == 0
    } else {
        &&& after.tx_msg_buf.buf@ == before.tx_msg_buf.buf@
        &&& after.tx_msg_buf.cursor == before.tx_msg_buf.cursor + event.written()
    }
    &&& after.tx_queue_points@ == queue_points::after_write(
        before.tx_queue_points@,
        event.written(),
    )
    &&& after == (MessageStream {
        tx_msg_buf: after.tx_msg_buf,
        tx_queue_points: after.tx_queue_points,
        last_write: if event is Wrote {
            now
        } else {
            before.last_write
        },
        ..before
    })
}

/// How a round of writes goes on after a write, depending on whether there is more to write.
pub open spec fn write_verdict(job: WriteJob, event: WriteEvent, has_more: bool) -> WriteStep {
    match event {
        WriteEvent::Wrote(n) => job.after(n, has_more),
        WriteEvent::Failed(error) => WriteStep::Stop(Err(error)),
        WriteEvent::FlushFailed(n, error) => WriteStep::Stop(Err(error)),
        WriteEvent::FlushWouldBlock(n) => WriteStep::Stop(
            Ok(
                (
                    if has_more {
                        WriteResult::WouldBlock
                    } else {
                        WriteResult::Done
                    },
                    (job.total_written + n) as usize,
                ),
            ),
        ),
        WriteEvent::WouldBlock => WriteStep::Stop(
            Ok((WriteResult::WouldBlock, job.total_written)),
        ),
    }
}

impl MessageStream {
    /// The buffers are well-formed, and the receive buffer holds no bytes but those that are yet to
    /// be decoded. Every queued byte belongs to a queue point, and every queue point has a byte
    /// queued.
    pub open spec fn wf(&self) -> bool {
        &&& self.rx_msg_buf.wf()
        &&& self.rx_msg_buf.cursor == 0
        &&& self.tx_msg_buf.wf()
        &&& self.tx_msg_buf@.len() == queue_points::total_left(self.tx_queue_points@)
        &&& queue_points::all_unsent(self.tx_queue_points@)
    }

    /// The most bytes that the receive buffer may hold.
    pub open spec fn rx_max<M: Message>(&self) -> nat {
        self.config.rx_buf_max_size.bytes::<M>()
    }

    /// The most bytes that the send buffer may hold.
    pub open spec fn tx_max<M: Message>(&self) -> nat {
        self.config.tx_buf_max_size.bytes::<M>()
    }

    /// The receive buffer holds no more than it may. The limit depends on the type of messages
    /// that the stream carries.
    pub open spec fn rx_fits<M: Message>(&self) -> bool {
        self.rx_msg_buf@.len() <= self.rx_max::<M>() <= usize::MAX
    }

    /// The send buffer holds no more than it may.
    pub open spec fn tx_fits<M: Message>(&self) -> bool {
        self.tx_msg_buf@.len() <= self.tx_max::<M>() <= usize::MAX
    }

    /// Whether the stream is as it was created at a certain time: nothing is buffered or queued.
    pub open spec fn is_new(&self, config: StreamConfig, now: Instant) -> bool {
        &&& self.config == config
        &&& self.rx_msg_buf@ == Seq::<u8>::empty()
        &&& self.tx_msg_buf@ == Seq::<u8>::empty()
        &&& self.tx_queue_points@ == Seq::<Point>::empty()
        &&& !self.ready
        &&& self.last_write == now
        &&& self.frame_time == now
    }

    /// Creates a new stream.
    pub fn new(config: StreamConfig, now: Instant) -> (stream: Self)
        ensures
            stream.wf(),
            stream.is_new(config, now),
    {
        MessageStream {
            config,
            rx_msg_buf: ShiftBuf::default(),
            tx_msg_buf: ShiftBuf::default(),
            tx_queue_points: Queue::default(),
            ready: false,
            last_write: now,
            frame_time: now,
        }
    }

    /// Starts a round of reads into a shared receive buffer of a certain size.
    pub fn begin_read<M: Message>(&self, rx_buf_len: usize) -> (job: ReadJob)
        requires
            self.wf(),
            self.rx_fits::<M>(),
        ensures
            job.wf(),
            job.total_read == 0,
            job.limit == vstd::math::min(
                self.rx_max::<M>() - self.rx_msg_buf@.len(),
                rx_buf_len as int,
            ),
    {
        // limit ourselves to reading some fixed number of bytes
        let space: usize = self.config.rx_buf_max_size.compute::<M>() - self.rx_msg_buf.len();
        let limit: usize = if space <= rx_buf_len {
            space
        } else {
            rx_buf_len
        };
        ReadJob { limit, total_read: 0 }
    }

    /// Ends a round of reads: attempts to decode messages from the bytes that the round has read.
    /// Encountering an error means that the stream must be discarded.
    ///
    /// Returns the decoded messages, and whether there is more work available. Malformed data
    /// takes precedence over what the round of reads ended with.
    pub fn read<M: Message>(
        &mut self,
        rx_buf: &[u8],
        read_result: Result<bool, ReadError>,
        now: Instant,
    ) -> (read: (Vec<Received<M>>, Result<bool, ReadError>))
        requires
            old(self).wf(),
            old(self).rx_fits::<M>(),
            rx_buf@.len() <= old(self).rx_max::<M>() - old(self).rx_msg_buf@.len(),
        ensures
            read_effect::<M>(
                *old(self),
                rx_buf@,
                read_result,
                now,
                *final(self),
                read.0@,
                read.1,
            ),
            read.1 == read_result || read.1 == Err::<bool, ReadError>(ReadError::MalformedMessage),
            final(self).wf(),
            final(self).rx_fits::<M>(),
            final(self).rx_msg_buf.buf@.len() <= final(self).rx_max::<M>(),
    {
        let total_read: usize = rx_buf.len();
        if self.rx_msg_buf.is_empty() {
            proof {
                assert(self.rx_msg_buf@ + rx_buf@ =~= rx_buf@);
                assert(rx_buf@ + Seq::<u8>::empty() =~= rx_buf@);
            }
            let mut view = SpannedView::new(rx_buf, vstd::slice::slice_subrange(rx_buf, 0, 0));
            let (received, decoded): (Vec<Received<M>>, Result<usize, ReadError>) =
                decode_from_buffer::<M>(&mut view, None, now);
            match decoded {
                Err(error) => (received, Err(error)),
                Ok(consumed) => {
                    if consumed < total_read {
                        let rest = vstd::slice::slice_subrange(rx_buf, consumed, total_read);
                        self.rx_msg_buf.put(rest);
                        self.frame_time = now;
                    }
                    assert(self.rx_msg_buf@ =~= rx_buf@.skip(consumed as int));
                    assert(self.rx_msg_buf.buf@ =~= self.rx_msg_buf@);
                    (received, read_result)
                },
            }
        } else {
            let mut view = SpannedView::new(self.rx_msg_buf.data(), rx_buf);
            let (received, decoded): (Vec<Received<M>>, Result<usize, ReadError>) =
                decode_from_buffer::<M>(&mut view, Some(self.frame_time), now);
            match decoded {
                Err(error) => (received, Err(error)),
                Ok(consumed) => {
                    if consumed > 0 {
                        self.frame_time = now;
                    }
                    let buffered: usize = self.rx_msg_buf.len();
                    let a_consumed: usize = if consumed <= buffered {
                        consumed
                    } else {
                        buffered
                    };
                    let b_consumed: usize = consumed - a_consumed;
                    self.rx_msg_buf.advance(a_consumed);
                    if self.rx_msg_buf.is_empty() {
                        self.rx_msg_buf.clear();
                    } else if a_consumed > 0 {
                        self.rx_msg_buf.shift();
                    }
                    if b_consumed < total_read {
                        let rest = vstd::slice::slice_subrange(rx_buf, b_consumed, total_read);
                        self.rx_msg_buf.put(rest);
                    }
                    proof {
                        let bytes = old(self).rx_msg_buf@ + rx_buf@;
                        assert(self.rx_msg_buf@ =~= bytes.skip(consumed as int));
                        assert(self.rx_msg_buf.buf@ =~= self.rx_msg_buf@);
                    }
                    (received, read_result)
                },
            }
        }
    }

    /// Starts a round of writes. There is nothing to do if no data is queued.
    pub fn begin_write(&self) -> (step: WriteStep)
        requires
            self.wf(),
        ensures
            step == (if self.tx_msg_buf@.len() == 0 {
                WriteStep::Stop(Ok((WriteResult::Done, 0)))
            } else {
                WriteStep::Again(
                    WriteJob {
                        write_budget: WRITE_BUDGET,
                        syscall_budget: SYSCALL_BUDGET,
                        total_written: 0,
                    },
                )
            }),
    {
        if !self.has_queued_data() {
            WriteStep::Stop(Ok((WriteResult::Done, 0)))
        } else {
            WriteStep::Again(
                WriteJob {
                    write_budget: WRITE_BUDGET,
                    syscall_budget: SYSCALL_BUDGET,
                    total_written: 0,
                },
            )
        }
    }

    /// Takes in what a write of the send buffer came to, at a certain time. Writes go on until
    /// blocking would start or some write budget is exceeded.
    pub fn write(&mut self, job: WriteJob, event: WriteEvent, now: Instant) -> (step: WriteStep)
        requires
            old(self).wf(),
            job.syscall_budget > 0,
            job.total_written + old(self).tx_msg_buf@.len() <= usize::MAX,
            event.written() <= old(self).tx_msg_buf@.len(),
        ensures
            final(self).wf(),
            write_effect(*old(self), event, now, *final(self)),
            step == write_verdict(job, event, final(self).tx_msg_buf@.len() > 0),
            step matches WriteStep::Stop(Ok((WriteResult::Done, _))) ==> final(
                self).tx_msg_buf@.len() == 0,
            step matches WriteStep::Again(next) ==> {
                &&& 0 < next.syscall_budget < job.syscall_budget
                &&& next.total_written + final(self).tx_msg_buf@.len() == job.total_written + old(
                    self,
                ).tx_msg_buf@.len()
            },
    {
        proof {
            queue_points::lemma_empty_write(self.tx_queue_points@);
        }
        match event {
            WriteEvent::Wrote(written) => {
                self.try_write(written, now);
                let total_written: usize = job.total_written + written;
                if !self.has_queued_data() {
                    self.tx_msg_buf.clear();
                    assert(self.tx_msg_buf@ =~= old(self).tx_msg_buf@.skip(written as int));
                    WriteStep::Stop(Ok((WriteResult::Done, total_written)))
                } else {
                    let write_budget: usize = job.write_budget.saturating_sub(written);
                    let syscall_budget: u8 = job.syscall_budget - 1;
                    if write_budget == 0 || syscall_budget == 0 {
                        WriteStep::Stop(Ok((WriteResult::BudgetExceeded, total_written)))
                    } else {
                        WriteStep::Again(WriteJob { write_budget, syscall_budget, total_written })
                    }
                }
            },
            WriteEvent::WouldBlock => {
                assert(self.tx_msg_buf@.skip(0) =~= self.tx_msg_buf@);
                WriteStep::Stop(Ok((WriteResult::WouldBlock, job.total_written)))
            },
            WriteEvent::Failed(error) => {
                assert(self.tx_msg_buf@.skip(0) =~= self.tx_msg_buf@);
                WriteStep::Stop(Err(error))
            },
            WriteEvent::FlushWouldBlock(written) => {
                self.take_sent(written);
                let total_written: usize = job.total_written + written;
                if !self.has_queued_data() {
                    self.tx_msg_buf.clear();
                    assert(self.tx_msg_buf@ =~= old(self).tx_msg_buf@.skip(written as int));
                    WriteStep::Stop(Ok((WriteResult::Done, total_written)))
                } else {
                    WriteStep::Stop(Ok((WriteResult::WouldBlock, total_written)))
                }
            },
            WriteEvent::FlushFailed(written, error) => {
                self.take_sent(written);
                WriteStep::Stop(Err(error))
            },
        }
    }

    /// Takes some bytes from the local send buffer that went out.
    fn take_sent(&mut self, written: usize)
        requires
            old(self).wf(),
            written <= old(self).tx_msg_buf@.len(),
        ensures
            final(self).wf(),
            final(self).tx_msg_buf@ == old(self).tx_msg_buf@.skip(written as int),
            final(self).tx_msg_buf.buf@ == old(self).tx_msg_buf.buf@,
            final(self).tx_msg_buf.cursor == old(self).tx_msg_buf.cursor + written,
            final(self).tx_queue_points@ == queue_points::after_write(
                old(self).tx_queue_points@,
                written as nat,
            ),
            *final(self) == (MessageStream {
                tx_msg_buf: final(self).tx_msg_buf,
                tx_queue_points: final(self).tx_queue_points,
                ..*old(self)
            }),
    {
        self.tx_msg_buf.advance(written);
        self.tx_queue_points.mark_write(written);
        proof {
            queue_points::law_write_takes_bytes(old(self).tx_queue_points@, written as nat);
        }
    }

    /// Takes some bytes from the local send buffer once they were sent.
    pub fn try_write(&mut self, written: usize, now: Instant)
        requires
            old(self).wf(),
            written <= old(self).tx_msg_buf@.len(),
        ensures
            final(self).wf(),
            final(self).tx_msg_buf@ == old(self).tx_msg_buf@.skip(written as int),
            final(self).tx_msg_buf.buf@ == old(self).tx_msg_buf.buf@,
            final(self).tx_msg_buf.cursor == old(self).tx_msg_buf.cursor + written,
            final(self).tx_queue_points@ == queue_points::after_write(
                old(self).tx_queue_points@,
                written as nat,
            ),
            *final(self) == (MessageStream {
                tx_msg_buf: final(self).tx_msg_buf,
                tx_queue_points: final(self).tx_queue_points,
                last_write: now,
                ..*old(self)
            }),
    {
        self.take_sent(written);
        self.last_write = now;
    }

    /// Queues a message for sending. This method simply encodes the message and places it into
    /// the internal buffer. [`write`](Self::write) must be called when the socket is writeable in
    /// order to flush.
    ///
    /// Returns `true` if the write buffer contains enough space to accept the message, or `false`
    /// if the buffer is full and the message cannot be queued at this time. The second field
    /// returned denotes how many bytes exactly were queued.
    #[must_use]
    pub fn queue_message<M: Message>(&mut self, message: &M, now: Instant) -> (queued: (
        bool,
        usize,
    ))
        requires
            old(self).wf(),
            old(self).tx_fits::<M>(),
        ensures
            final(self).wf(),
            final(self).tx_fits::<M>(),
            queue_effect::<M>(*old(self), *message, now, *final(self), queued),
    {
        let size: usize = message.wire_size();
        let available: usize = self.available::<M>();
        if available < size {
            (false, 0)
        } else {
            let pre_encode_len: usize = self.tx_msg_buf.len();
            message.encode(&mut self.tx_msg_buf);
            let encoded: usize = self.tx_msg_buf.len() - pre_encode_len;
            if encoded > 0 {
                self.tx_queue_points.append(encoded, now);
            }
            proof {
                queue_points::law_append_adds_bytes(
                    old(self).tx_queue_points@,
                    Point { time: now, left: encoded },
                );
            }
            (true, encoded)
        }
    }

    /// Returns how many bytes can be queued immediately with respect to transmit buffer size limit.
    pub fn available<M: Message>(&self) -> (available: usize)
        requires
            self.wf(),
            self.tx_fits::<M>(),
        ensures
            available == self.tx_max::<M>() - self.tx_msg_buf@.len(),
    {
        self.config.tx_buf_max_size.compute::<M>() - self.tx_msg_buf.len()
    }

    /// Resizes and shrinks the capacity of internal send and receive buffers by 1/4, until the
    /// floor is reached. This helps maintain memory usage at sane levels since keeping permanent
    /// large receive buffers (e.g. after receiving a large message) would eventually exhaust
    /// available memory on less powerful devices when managing many peers. Already consumed data is
    /// discarded, so that both buffers hold exactly the bytes that have not been read yet. How much
    /// capacity they keep, the allocator decides.
    pub fn shrink_buffers(&mut self)
        requires
            old(self).wf(),
        ensures
            final(self).wf(),
            final(self).same_data(old(self)),
            final(self).compacted(),
            final(self).rx_msg_buf.buf@ == old(self).rx_msg_buf@,
            final(self).tx_msg_buf.buf@ == old(self).tx_msg_buf@,
    {
        self.rx_msg_buf.shrink(self.config.rx_buf_min_size);
        self.tx_msg_buf.shrink(self.config.tx_buf_min_size);
        self.tx_queue_points.shrink();
        assert(self.rx_msg_buf@ =~= self.rx_msg_buf.buf@);
        assert(self.tx_msg_buf@ =~= self.tx_msg_buf.buf@);
    }

    /// Whether the buffers hold no bytes that were consumed.
    pub open spec fn compacted(&self) -> bool {
        &&& self.rx_msg_buf.cursor == 0
        &&& self.tx_msg_buf.cursor == 0
    }

    /// Whether two streams are alike in all but the layout of their buffers.
    pub open spec fn same_data(&self, other: &Self) -> bool {
        &&& self.config == other.config
        &&& self.rx_msg_buf@ == other.rx_msg_buf@
        &&& self.tx_msg_buf@ == other.tx_msg_buf@
        &&& self.tx_queue_points@ == other.tx_queue_points@
        &&& self.ready == other.ready
        &&& self.last_write == other.last_write
        &&& self.frame_time == other.frame_time
    }

    /// Exposes the config.
    pub fn config(&self) -> (config: &StreamConfig)
        ensures
            *config == self.config,
    {
        &self.config
    }

    /// Returns whether the outbound buffer has more data queued.
    pub fn has_queued_data(&self) -> (queued: bool)
        requires
            self.wf(),
        ensures
            queued == (self.tx_msg_buf@.len() > 0),
    {
        !self.tx_msg_buf.is_empty()
    }

    /// When the oldest queued byte was queued, if there is one.
    pub open spec fn oldest(&self) -> Option<Instant> {
        if self.tx_queue_points@.len() == 0 {
            None
        } else {
            Some(self.tx_queue_points@[0].time)
        }
    }

    /// Returns various metrics on the outbound buffer.
    pub fn outbound_metrics<M: Message>(&self) -> (metrics: OutboundMetrics)
        requires
            self.wf(),
            self.tx_fits::<M>(),
        ensures
            metrics.available == self.tx_max::<M>() - self.tx_msg_buf@.len(),
            metrics.queued == self.tx_msg_buf@.len(),
            metrics.oldest == self.oldest(),
            metrics.oldest is Some <==> metrics.queued > 0,
    {
        OutboundMetrics {
            available: self.available::<M>(),
            queued: self.tx_msg_buf.len(),
            oldest: self.tx_queue_points.first(),
        }
    }

    /// Whether the peer is not reading the data that is queued for it: nothing could be written
    /// for longer than `timeout`.
    pub open spec fn write_stale(&self, now: Instant, timeout: Duration) -> bool {
        self.tx_msg_buf@.len() > 0 && now.since(self.last_write).nanos > timeout.nanos
    }

    /// Returns whether the write side is stale, i.e. the peer is not reading the data we are
    /// sending.
    pub fn is_write_stale(&self, now: Instant, timeout: Duration) -> (stale: bool)
        requires
            self.wf(),
        ensures
            stale == self.write_stale(now, timeout),
    {
        self.has_queued_data() && now.since(self.last_write).nanos > timeout.nanos
    }

    /// Returns `true` if the underlying socket is ready. Once it was found ready that result is
    /// cached; until then `probe` tells whether the socket knows its peer.
    pub fn is_ready(&mut self, probe: bool) -> (ready: bool)
        ensures
            ready == (old(self).ready || probe),
            *final(self) == (MessageStream { ready, ..*old(self) }),
    {
        if !self.ready {
            self.ready = probe;
        }
        self.ready
    }

    /// Returns the error that is pending on the underlying socket, if any. A socket that cannot be
    /// asked has none.
    pub fn take_error(probe: Result<Option<std::io::Error>, std::io::Error>) -> (error: Option<
        std::io::Error,
    >)
        ensures
            error == (match probe {
                Ok(pending) => pending,
                Err(_) => None,
            }),
    {
        match probe {
            Ok(pending) => pending,
            Err(_) => None,
        }
    }
}

} // verus!
