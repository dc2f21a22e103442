//! What rounds of reads and rounds of writes come to.

use vstd::prelude::*;

use crate::message::{DecodeError, Message};
use crate::message_stream;
use crate::message_stream::framing;
use crate::message_stream::framing::Received;
use crate::message_stream::reassembly;
use crate::message_stream::transfer;
use crate::message_stream::{
    MessageStream, ReadError, ReadEvent, ReadJob, ReadStep, StreamConfig, WriteEvent, WriteJob,
    WriteResult, WriteStep,
};
use crate::time::{Duration, Instant};

verus! {

/// Whether bytes can never become a message, whatever follows them: because decoding says so, or
/// because there are as many of them as the largest message has, and still no message. (A message
/// that takes up none of the bytes, or more than there are, is none.)
pub open spec fn hopeless<M: Message>(bytes: Seq<u8>) -> bool {
    match M::parse(bytes) {
        Ok((_, size)) => size == 0 || size > bytes.len(),
        Err(DecodeError::Malformed) => true,
        Err(DecodeError::Partial) => bytes.len() >= M::MAX_SIZE,
    }
}

/// A read goes on exactly if it has brought in some bytes and the limit is not reached. Otherwise
/// the round is over: with the end of the stream if there was nothing to bring in where there was
/// room, with the error of a read that failed, with nothing more to read if the read would block,
/// and with maybe more to read if the limit is reached. All bytes that were read are counted.
pub proof fn law_read_round_ends(job: ReadJob, event: ReadEvent)
    requires
        job.wf(),
        event matches ReadEvent::Read(n) ==> n <= job.limit - job.total_read,
    ensures
        ({
            let read = match event {
                ReadEvent::Read(n) => n as int,
                _ => 0,
            };
            match job.stepped(event) {
                ReadStep::Again(next) => {
                    &&& 0 < read < job.limit - job.total_read
                    &&& next.limit == job.limit
                    &&& next.total_read == job.total_read + read
                },
                ReadStep::Stop { total_read, result } => {
                    &&& !(0 < read < job.limit - job.total_read)
                    &&& total_read == job.total_read + read
                    &&& result == Err::<bool, ReadError>(ReadError::EndOfStream) <==> (event
                        == ReadEvent::Read(0) && job.limit > 0)
                    &&& event matches ReadEvent::Failed(error) ==> result == Err::<bool, ReadError>(
                        ReadError::Error(error),
                    )
                    &&& result matches Err(ReadError::Error(error)) ==> event
                        == ReadEvent::Failed(error)
                    &&& result == Ok::<bool, ReadError>(false) <==> event is WouldBlock
                    &&& result == Ok::<bool, ReadError>(true) <==> (event is Read && total_read
                        == job.limit)
                    &&& result != Err::<bool, ReadError>(ReadError::MalformedMessage)
                },
            }
        }),
{
}

/// Every message that is cut out of some bytes is what decoding finds at its place: right behind
/// the messages in front of it. What stays behind is no message, and it is given up exactly if it
/// can never become one.
pub proof fn law_frames_are_what_is_decoded<M: Message>(bytes: Seq<u8>)
    ensures
        ({
            let found = framing::frames::<M>(bytes);
            let rest = bytes.skip(reassembly::total_size(found.messages) as int);
            &&& reassembly::total_size(found.messages) <= bytes.len()
            &&& forall|i: int|
                0 <= i < found.messages.len() ==> M::parse(
                    bytes.skip(reassembly::total_size(#[trigger] found.messages.take(i)) as int),
                ) == Ok::<(M, nat), DecodeError>(found.messages[i])
            &&& M::parse(rest) is Ok ==> hopeless::<M>(rest)
            &&& found.malformed <==> hopeless::<M>(rest)
        }),
    decreases bytes.len(),
{
    reassembly::law_frames_account_for_bytes::<M>(bytes);
    let found = framing::frames::<M>(bytes);
    assert(bytes.skip(0) =~= bytes);
    match M::parse(bytes) {
        Ok((first, size)) => if 0 < size <= bytes.len() {
            let tail = bytes.skip(size as int);
            let behind = framing::frames::<M>(tail);
            law_frames_are_what_is_decoded::<M>(tail);
            reassembly::law_frames_account_for_bytes::<M>(tail);
            assert(found.messages =~= seq![(first, size)] + behind.messages);
            assert(found.messages.skip(1) =~= behind.messages);
            assert(tail.skip(behind.consumed as int) =~= bytes.skip(
                (size + behind.consumed) as int,
            ));
            assert forall|i: int| 0 <= i < found.messages.len() implies M::parse(
                bytes.skip(reassembly::total_size(#[trigger] found.messages.take(i)) as int),
            ) == Ok::<(M, nat), DecodeError>(found.messages[i]) by {
                let front = found.messages.take(i);
                if i == 0 {
                    assert(front.len() == 0);
                    assert(bytes.skip(0) =~= bytes);
                } else {
                    assert(front.skip(1) =~= behind.messages.take(i - 1));
                    assert(front[0] == (first, size));
                    let before = reassembly::total_size(behind.messages.take(i - 1));
                    assert(reassembly::total_size(front) == size + before);
                    lemma_part_of_total(behind.messages, i - 1);
                    assert(tail.skip(before as int) =~= bytes.skip((size + before) as int));
                }
            }
        },
        Err(_) => {},
    }
}

/// The first messages are not larger than all messages together.
proof fn lemma_part_of_total<M>(messages: Seq<(M, nat)>, n: int)
    requires
        0 <= n <= messages.len(),
    ensures
        reassembly::total_size(messages.take(n)) <= reassembly::total_size(messages),
    decreases messages.len(),
{
    if n > 0 {
        lemma_part_of_total(messages.skip(1), n - 1);
        assert(messages.take(n).skip(1) =~= messages.skip(1).take(n - 1));
    }
}

/// Whether some messages are all those that stand at the head of some bytes, in order: each of them
/// is what decoding finds right behind those in front of it, and no whole message follows the last
/// one.
pub open spec fn at_head<M: Message>(bytes: Seq<u8>, received: Seq<Received<M>>) -> bool {
    let sizes = transfer::contents(received);
    &&& reassembly::total_size(sizes) <= bytes.len()
    &&& forall|i: int|
        0 <= i < received.len() ==> {
            let place = reassembly::total_size(#[trigger] sizes.take(i));
            &&& M::parse(bytes.skip(place as int)) matches Ok((parsed, size))
            &&& received[i].message.same(&parsed)
            &&& received[i].size == size
        }
    &&& M::parse(behind(bytes, received)) is Ok ==> hopeless::<M>(behind(bytes, received))
}

/// The bytes behind some messages.
pub open spec fn behind<M>(bytes: Seq<u8>, received: Seq<Received<M>>) -> Seq<u8> {
    bytes.skip(reassembly::total_size(transfer::contents(received)) as int)
}

/// A round of reads gives exactly the messages that the buffered bytes and the new ones hold, in
/// order, each with its size. It ends with exactly what the reads from the socket have ended with,
/// whatever is in the receive buffer, unless the bytes behind the messages can never become one.
/// Then the data is malformed and the stream stays as it was. Otherwise the receive buffer holds
/// exactly the bytes behind the messages.
pub proof fn law_read_gives_what_came_in<M: Message>(
    before: MessageStream,
    rx: Seq<u8>,
    read_result: Result<bool, ReadError>,
    now: Instant,
    after: MessageStream,
    received: Seq<Received<M>>,
    result: Result<bool, ReadError>,
)
    requires
        message_stream::read_effect::<M>(
            before,
            rx,
            read_result,
            now,
            after,
            received,
            result,
        ),
        before.rx_msg_buf@.len() + rx.len() <= usize::MAX,
    ensures
        ({
            let bytes = before.rx_msg_buf@ + rx;
            let rest = behind(bytes, received);
            &&& at_head(bytes, received)
            &&& hopeless::<M>(rest) ==> result == Err::<bool, ReadError>(
                ReadError::MalformedMessage,
            ) && after == before
            &&& !hopeless::<M>(rest) ==> result == read_result && after.rx_msg_buf@ == rest
                && after.rx_msg_buf.buf@ == rest
            &&& after.config == before.config
            &&& after.tx_msg_buf == before.tx_msg_buf
            &&& after.tx_queue_points == before.tx_queue_points
            &&& after.ready == before.ready
            &&& after.last_write == before.last_write
        }),
{
    let bytes = before.rx_msg_buf@ + rx;
    let found = framing::frames::<M>(bytes);
    let sizes = transfer::contents(received);
    law_frames_are_what_is_decoded::<M>(bytes);
    reassembly::law_frames_account_for_bytes::<M>(bytes);
    transfer::lemma_sizes_fit(found.messages, bytes.len());
    lemma_same_sizes(sizes, found.messages);
    assert forall|i: int| 0 <= i < received.len() implies {
        let place = reassembly::total_size(#[trigger] sizes.take(i));
        &&& M::parse(bytes.skip(place as int)) matches Ok((parsed, size))
        &&& received[i].message.same(&parsed)
        &&& received[i].size == size
    } by {
        lemma_same_sizes(sizes.take(i), found.messages.take(i));
        assert(M::parse(
            bytes.skip(reassembly::total_size(found.messages.take(i)) as int),
        ) == Ok::<(M, nat), DecodeError>(found.messages[i]));
        assert(received[i].message.same(&found.messages[i].0));
    }
}

/// Messages of the same sizes have the same size together.
proof fn lemma_same_sizes<M>(left: Seq<(M, nat)>, right: Seq<(M, nat)>)
    requires
        left.len() == right.len(),
        forall|i: int| 0 <= i < left.len() ==> (#[trigger] left[i]).1 == right[i].1,
    ensures
        reassembly::total_size(left) == reassembly::total_size(right),
    decreases left.len(),
{
    if left.len() > 0 {
        assert forall|i: int| 0 <= i < left.skip(1).len() implies (#[trigger] left.skip(1)[i]).1
            == right.skip(1)[i].1 by {
            assert(left.skip(1)[i] == left[i + 1]);
        }
        lemma_same_sizes(left.skip(1), right.skip(1));
    }
}

/// Only the first message of a round of reads can have been incomplete before, and only if bytes
/// were buffered: it has waited since they started coming in. All others have not waited. A frame
/// that stays incomplete keeps the time at which it started coming in; a frame that starts in this
/// round starts now. The time does not change if nothing is or was incomplete.
pub proof fn law_frames_are_timed<M: Message>(
    before: MessageStream,
    rx: Seq<u8>,
    read_result: Result<bool, ReadError>,
    now: Instant,
    after: MessageStream,
    received: Seq<Received<M>>,
    result: Result<bool, ReadError>,
)
    requires
        message_stream::read_effect::<M>(
            before,
            rx,
            read_result,
            now,
            after,
            received,
            result,
        ),
        before.rx_msg_buf@.len() + rx.len() <= usize::MAX,
    ensures
        forall|i: int| 1 <= i < received.len() ==> (#[trigger] received[i]).time.nanos == 0,
        received.len() > 0 && before.rx_msg_buf@.len() == 0 ==> received[0].time.nanos == 0,
        received.len() > 0 && before.rx_msg_buf@.len() > 0 && before.frame_time.nanos
            <= now.nanos ==> received[0].time.nanos == now.nanos - before.frame_time.nanos,
        received.len() == 0 && before.rx_msg_buf@.len() > 0 ==> after.frame_time
            == before.frame_time,
        result != Err::<bool, ReadError>(ReadError::MalformedMessage) && after.rx_msg_buf@.len() > 0
            && (received.len() > 0 || before.rx_msg_buf@.len() == 0) ==> after.frame_time == now,
        result != Err::<bool, ReadError>(ReadError::MalformedMessage) && before.rx_msg_buf@.len()
            > 0 && received.len() > 0 ==> after.frame_time == now,
        before.rx_msg_buf@.len() == 0 && after.rx_msg_buf@.len() == 0 ==> after.frame_time
            == before.frame_time,
{
    let bytes = before.rx_msg_buf@ + rx;
    reassembly::law_frames_account_for_bytes::<M>(bytes);
    let found = framing::frames::<M>(bytes);
    if found.messages.len() > 0 {
        law_frames_are_what_is_decoded::<M>(bytes);
        assert(found.messages.take(0).len() == 0);
        assert(bytes.skip(0) =~= bytes);
        assert(M::parse(bytes) == Ok::<(M, nat), DecodeError>(found.messages[0]));
        assert(found.consumed > 0);
    }
}

/// A message is queued exactly if the send buffer has space for all of it, that is if the buffer
/// then holds no more than its multiple of the largest message. Then its bytes are put behind those
/// that are queued already, and all of them are counted. Otherwise nothing changes.
pub proof fn law_queue_takes_what_fits<M: Message>(
    before: MessageStream,
    message: M,
    now: Instant,
    after: MessageStream,
    queued: (bool, usize),
)
    requires
        message_stream::queue_effect::<M>(before, message, now, after, queued),
        before.tx_fits::<M>(),
    ensures
        queued.0 <==> before.tx_msg_buf@.len() + message.encoding().len()
            <= before.config.tx_buf_max_size.factor() * M::MAX_SIZE,
        queued.0 ==> queued.1 == message.encoding().len() && after.tx_msg_buf@
            == before.tx_msg_buf@ + message.encoding(),
        !queued.0 ==> queued.1 == 0 && after == before,
        after.rx_msg_buf == before.rx_msg_buf,
        after.config == before.config,
        after.ready == before.ready,
        after.last_write == before.last_write,
        after.frame_time == before.frame_time,
{
}

/// A write takes exactly the bytes off the head of the send buffer that went out. It counts as a
/// successful write exactly if these bytes were flushed too. A send buffer that is written out as a
/// whole gives up all of its bytes, unless the flush has failed; otherwise no byte moves. Nothing
/// else about the stream changes.
pub proof fn law_write_takes_what_went_out(
    before: MessageStream,
    event: WriteEvent,
    now: Instant,
    after: MessageStream,
)
    requires
        message_stream::write_effect(before, event, now, after),
        event.written() <= before.tx_msg_buf@.len(),
    ensures
        ({
            let n = match event {
                WriteEvent::Wrote(n) => n as int,
                WriteEvent::FlushWouldBlock(n) => n as int,
                WriteEvent::FlushFailed(n, _) => n as int,
                WriteEvent::WouldBlock => 0,
                WriteEvent::Failed(_) => 0,
            };
            &&& before.tx_msg_buf@ == before.tx_msg_buf@.take(n) + after.tx_msg_buf@
            &&& after.tx_msg_buf@.len() == before.tx_msg_buf@.len() - n
            &&& n > 0 && n == before.tx_msg_buf@.len() && !(event is FlushFailed)
                ==> after.tx_msg_buf.buf@.len() == 0 && after.tx_msg_buf.cursor == 0
            &&& n < before.tx_msg_buf@.len() || event is FlushFailed ==> after.tx_msg_buf.buf@
                == before.tx_msg_buf.buf@ && after.tx_msg_buf.cursor
                == before.tx_msg_buf.cursor + n
        }),
        event is Wrote ==> after.last_write == now,
        !(event is Wrote) ==> after.last_write == before.last_write,
        after.rx_msg_buf == before.rx_msg_buf,
        after.config == before.config,
        after.ready == before.ready,
        after.frame_time == before.frame_time,
{
    let n = event.written() as int;
    assert(before.tx_msg_buf@ =~= before.tx_msg_buf@.take(n) + after.tx_msg_buf@);
}

/// A round of writes is done exactly if nothing is left in the send buffer. It fails exactly if the
/// socket has failed. While bytes are left and the socket has not failed, the round ends because
/// the socket would block, or because a budget is used up, or it goes on. All bytes that went out
/// are counted.
pub proof fn law_write_round_ends(
    before: MessageStream,
    job: WriteJob,
    event: WriteEvent,
    now: Instant,
    after: MessageStream,
)
    requires
        message_stream::write_effect(before, event, now, after),
        before.tx_msg_buf@.len() > 0,
        event.written() <= before.tx_msg_buf@.len(),
        job.syscall_budget > 0,
        job.total_written + before.tx_msg_buf@.len() <= usize::MAX,
    ensures
        ({
            let sent = before.tx_msg_buf@.len() - after.tx_msg_buf@.len();
            let failed = event is Failed || event is FlushFailed;
            let blocked = event is WouldBlock || event is FlushWouldBlock;
            let spent = sent >= job.write_budget || job.syscall_budget == 1;
            match message_stream::write_verdict(job, event, after.tx_msg_buf@.len() > 0) {
                WriteStep::Stop(Ok((result, written))) => {
                    &&& !failed
                    &&& written == job.total_written + sent
                    &&& result == WriteResult::Done <==> after.tx_msg_buf@.len() == 0
                    &&& result == WriteResult::WouldBlock <==> after.tx_msg_buf@.len() > 0
                        && blocked
                    &&& result == WriteResult::BudgetExceeded <==> after.tx_msg_buf@.len() > 0
                        && !blocked
                    &&& result == WriteResult::BudgetExceeded ==> spent
                },
                WriteStep::Stop(Err(error)) => match event {
                    WriteEvent::Failed(cause) => error == cause,
                    WriteEvent::FlushFailed(_, cause) => error == cause,
                    _ => false,
                },
                WriteStep::Again(next) => {
                    &&& !failed && !blocked && !spent
                    &&& after.tx_msg_buf@.len() > 0
                    &&& next.total_written == job.total_written + sent
                    &&& next.write_budget == job.write_budget - sent
                    &&& next.syscall_budget == job.syscall_budget - 1
                },
            }
        }),
{
    law_write_takes_what_went_out(before, event, now, after);
}

/// The write side is stale exactly if bytes are queued and more time has passed since the last
/// successful write than is allowed.
pub proof fn law_stale_means_unread(stream: MessageStream, now: Instant, timeout: Duration)
    ensures
        stream.write_stale(now, timeout) <==> stream.tx_msg_buf@.len() > 0 && now.nanos
            > stream.last_write.nanos + timeout.nanos,
{
}

/// Shrinking keeps everything: what is buffered and queued, when it was queued, and all that is
/// known of the stream.
pub proof fn law_shrinking_keeps_everything(before: MessageStream, after: MessageStream)
    requires
        after.same_data(&before),
        after.compacted(),
        after.wf(),
    ensures
        after.config == before.config,
        after.rx_msg_buf.buf@ == before.rx_msg_buf@,
        after.tx_msg_buf.buf@ == before.tx_msg_buf@,
        after.tx_queue_points@ == before.tx_queue_points@,
        after.ready == before.ready,
        after.last_write == before.last_write,
        after.frame_time == before.frame_time,
{
    assert(after.rx_msg_buf@ =~= after.rx_msg_buf.buf@);
    assert(after.tx_msg_buf@ =~= after.tx_msg_buf.buf@);
}

/// A stream that was just created holds nothing and is not ready, and its times are that of its
/// creation.
pub proof fn law_new_stream_holds_nothing(stream: MessageStream, config: StreamConfig, now: Instant)
    requires
        stream.is_new(config, now),
    ensures
        stream.config == config,
        stream.rx_msg_buf@.len() == 0,
        stream.tx_msg_buf@.len() == 0,
        stream.oldest() is None,
        !stream.ready,
        stream.last_write == now,
        stream.frame_time == now,
{
}

/// The limits of the buffers are multiples of the size of the largest message.
pub proof fn law_limits_are_multiples<M: Message>(stream: MessageStream)
    ensures
        stream.rx_max::<M>() == stream.config.rx_buf_max_size.factor() * M::MAX_SIZE,
        stream.tx_max::<M>() == stream.config.tx_buf_max_size.factor() * M::MAX_SIZE,
{
}

} // verus!
