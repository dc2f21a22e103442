//! How messages get from the stream of one side to the stream of the other.

use vstd::prelude::*;

use crate::message;
use crate::message::Message;
use crate::message_stream;
use crate::message_stream::framing;
use crate::message_stream::framing::Received;
use crate::message_stream::queue_points;
use crate::message_stream::queue_points::Point;
use crate::message_stream::reassembly;
use crate::message_stream::{MessageStream, ReadError, WriteEvent};
use crate::time::Instant;

verus! {

/// What happens to a stream.
pub enum Step<M> {
    /// A message is to be queued.
    Queue {
        /// The message.
        message: M,
        /// When it is to be queued.
        now: Instant,
    },
    /// The send buffer is written out.
    Write {
        /// What came of the write.
        event: WriteEvent,
        /// When the send buffer is written out.
        now: Instant,
    },
    /// A round of reads has ended.
    Read {
        /// The bytes that came in.
        rx: Seq<u8>,
        /// What the reads ended with.
        read_result: Result<bool, ReadError>,
        /// When the round has ended.
        now: Instant,
        /// The messages that were received.
        received: Seq<Received<M>>,
        /// What the round ended with.
        result: Result<bool, ReadError>,
    },
    /// The stream is asked whether its socket is ready.
    Ready {
        /// Whether the socket knows its peer.
        probe: bool,
    },
    /// The buffers are shrunk.
    Shrink,
}

/// Whether the send buffer of a stream has space for a message.
pub open spec fn has_space<M: Message>(stream: MessageStream, message: M) -> bool {
    stream.tx_msg_buf@.len() + message.encoding().len() <= stream.tx_max::<M>()
}

/// What a step does to a stream.
pub open spec fn step_effect<M: Message>(
    before: MessageStream,
    step: Step<M>,
    after: MessageStream,
) -> bool {
    match step {
        Step::Queue { message, now } => message_stream::queue_effect::<M>(
            before,
            message,
            now,
            after,
            if has_space(before, message) {
                (true, message.encoding().len() as usize)
            } else {
                (false, 0usize)
            },
        ),
        Step::Write { event, now } => {
            &&& event.written() <= before.tx_msg_buf@.len()
            &&& message_stream::write_effect(before, event, now, after)
        },
        Step::Read { rx, read_result, now, received, result } => {
            &&& before.rx_msg_buf@.len() + rx.len() <= usize::MAX
            &&& message_stream::read_effect::<M>(
                before,
                rx,
                read_result,
                now,
                after,
                received,
                result,
            )
        },
        Step::Ready { probe } => after == (MessageStream {
            ready: before.ready || probe,
            ..before
        }),
        Step::Shrink => after.same_data(&before),
    }
}

/// Whether the steps lead a stream through the states. Reads and writes may come by turns.
pub open spec fn history<M: Message>(states: Seq<MessageStream>, steps: Seq<Step<M>>) -> bool {
    &&& states.len() == steps.len() + 1
    &&& forall|i: int|
        0 <= i < steps.len() ==> step_effect(#[trigger] states[i], steps[i], states[i + 1])
}

/// A history without its last step is a history.
proof fn lemma_earlier<M: Message>(states: Seq<MessageStream>, steps: Seq<Step<M>>)
    requires
        history(states, steps),
        steps.len() > 0,
    ensures
        history(states.drop_last(), steps.drop_last()),
        step_effect(states[steps.len() - 1], steps.last(), states.last()),
{
    let earlier = states.drop_last();
    assert forall|i: int| 0 <= i < steps.drop_last().len() implies step_effect(
        #[trigger] earlier[i],
        steps.drop_last()[i],
        earlier[i + 1],
    ) by {
        assert(step_effect(states[i], steps[i], states[i + 1]));
    }
    let n = steps.len() - 1;
    assert(step_effect(states[n], steps[n], states[n + 1]));
}

/// A history without its first step is a history.
proof fn lemma_later<M: Message>(states: Seq<MessageStream>, steps: Seq<Step<M>>)
    requires
        history(states, steps),
        steps.len() > 0,
    ensures
        history(states.skip(1), steps.skip(1)),
        step_effect(states[0], steps[0], states[1]),
{
    let later = states.skip(1);
    assert forall|i: int| 0 <= i < steps.skip(1).len() implies step_effect(
        #[trigger] later[i],
        steps.skip(1)[i],
        later[i + 1],
    ) by {
        assert(later[i] == states[i + 1]);
    }
    assert(step_effect(states[0], steps[0], states[1]));
}

/// The messages that were queued and not rejected, in order.
pub open spec fn queued<M: Message>(states: Seq<MessageStream>, steps: Seq<Step<M>>) -> Seq<M>
    decreases steps.len(),
{
    if steps.len() == 0 {
        Seq::empty()
    } else {
        let earlier = queued(states.drop_last(), steps.drop_last());
        match steps.last() {
            Step::Queue { message, now } => if has_space(states[steps.len() - 1], message) {
                earlier.push(message)
            } else {
                earlier
            },
            _ => earlier,
        }
    }
}

/// The bytes that went out to the socket, in order.
pub open spec fn went_out<M: Message>(states: Seq<MessageStream>, steps: Seq<Step<M>>) -> Seq<u8>
    decreases steps.len(),
{
    if steps.len() == 0 {
        Seq::empty()
    } else {
        let earlier = went_out(states.drop_last(), steps.drop_last());
        match steps.last() {
            Step::Write { event, now } => earlier + states[steps.len() - 1].tx_msg_buf@.take(
                event.written() as int,
            ),
            _ => earlier,
        }
    }
}

/// Whatever is queued, written and read on a stream, and however often a write is cut short: what
/// went out to the socket and what is still in the send buffer is together the encoding of the
/// messages that were queued, in the order in which they were queued. No byte of them is lost,
/// repeated or moved, and nothing of a rejected message ever goes out.
pub proof fn law_bytes_leave_in_order<M: Message>(
    states: Seq<MessageStream>,
    steps: Seq<Step<M>>,
)
    requires
        history(states, steps),
        states[0].tx_msg_buf@.len() == 0,
    ensures
        went_out(states, steps) + states.last().tx_msg_buf@ == message::encodings(
            queued(states, steps),
        ),
    decreases steps.len(),
{
    let unsent = states.last().tx_msg_buf@;
    if steps.len() == 0 {
        assert(went_out(states, steps) + unsent =~= Seq::empty());
    } else {
        let before = states[steps.len() - 1];
        lemma_earlier(states, steps);
        law_bytes_leave_in_order(states.drop_last(), steps.drop_last());
        let sent = went_out(states.drop_last(), steps.drop_last());
        let messages = queued(states.drop_last(), steps.drop_last());
        match steps.last() {
            Step::Queue { message, now } => {
                if has_space(before, message) {
                    message::law_encodings_concatenate(messages, seq![message]);
                    assert(messages.push(message) =~= messages + seq![message]);
                    assert(message::encodings(seq![message]) =~= message.encoding()) by {
                        reveal_with_fuel(message::encodings, 2);
                        assert(seq![message].skip(1) =~= Seq::empty());
                    }
                    assert(sent + unsent =~= (sent + before.tx_msg_buf@) + message.encoding());
                }
            },
            Step::Write { event, now } => {
                let k = event.written() as int;
                assert((sent + before.tx_msg_buf@.take(k)) + before.tx_msg_buf@.skip(k) =~= sent
                    + before.tx_msg_buf@);
            },
            _ => {},
        }
    }
}

/// When the messages were queued that were not rejected, and how large they are, in order. A
/// message without bytes does not count.
pub open spec fn queued_points<M: Message>(
    states: Seq<MessageStream>,
    steps: Seq<Step<M>>,
) -> Seq<Point>
    decreases steps.len(),
{
    if steps.len() == 0 {
        Seq::empty()
    } else {
        let earlier = queued_points(states.drop_last(), steps.drop_last());
        match steps.last() {
            Step::Queue { message, now } => if has_space(states[steps.len() - 1], message)
                && message.encoding().len() > 0 {
                earlier.push(Point { time: now, left: message.encoding().len() as usize })
            } else {
                earlier
            },
            _ => earlier,
        }
    }
}

/// The oldest queued byte is known for as long as any byte is queued, and only then: it was queued
/// along with the message that holds the first byte that has not gone out to the socket yet.
pub proof fn law_oldest_byte_is_known<M: Message>(
    states: Seq<MessageStream>,
    steps: Seq<Step<M>>,
)
    requires
        history(states, steps),
        states[0].tx_msg_buf@.len() == 0,
        forall|i: int| 0 <= i < states.len() ==> #[trigger] states[i].wf(),
        forall|i: int| 0 <= i < states.len() ==> (#[trigger] states[i]).tx_fits::<M>(),
    ensures
        ({
            let points = queued_points(states, steps);
            let sent = went_out(states, steps).len();
            let unsent = states.last().tx_msg_buf@.len();
            &&& queue_points::total_left(points) == sent + unsent
            &&& states.last().oldest() == (if unsent == 0 {
                None
            } else {
                Some(queue_points::holder(points, sent).time)
            })
        }),
{
    let points = queued_points(states, steps);
    let sent = went_out(states, steps).len();
    lemma_points_left(states, steps);
    queue_points::law_write_takes_bytes(points, sent);
    assert(states[states.len() - 1].wf());
    if sent < queue_points::total_left(points) {
        queue_points::law_oldest_point_holds_next_byte(points, sent);
    }
}

/// What is left of the queue points is what has not gone out of the queued messages.
proof fn lemma_points_left<M: Message>(states: Seq<MessageStream>, steps: Seq<Step<M>>)
    requires
        history(states, steps),
        states[0].tx_msg_buf@.len() == 0,
        forall|i: int| 0 <= i < states.len() ==> #[trigger] states[i].wf(),
        forall|i: int| 0 <= i < states.len() ==> (#[trigger] states[i]).tx_fits::<M>(),
    ensures
        ({
            let points = queued_points(states, steps);
            let sent = went_out(states, steps).len();
            &&& queue_points::all_unsent(points)
            &&& sent <= queue_points::total_left(points)
            &&& states.last().tx_queue_points@ == queue_points::after_write(points, sent)
        }),
    decreases steps.len(),
{
    if steps.len() == 0 {
        assert(states[0].wf());
        assert(states[0].tx_queue_points@ =~= Seq::empty());
    } else {
        let before = states[steps.len() - 1];
        let earlier = states.drop_last();
        lemma_earlier(states, steps);
        assert forall|i: int| 0 <= i < earlier.len() implies #[trigger] earlier[i].wf()
            && earlier[i].tx_fits::<M>() by {
            assert(states[i].wf() && states[i].tx_fits::<M>());
        }
        lemma_points_left(earlier, steps.drop_last());
        assert(before.wf() && before.tx_fits::<M>());
        let points = queued_points(earlier, steps.drop_last());
        let sent = went_out(earlier, steps.drop_last()).len();
        queue_points::law_write_takes_bytes(points, sent);
        match steps.last() {
            Step::Queue { message, now } => {
                if has_space(before, message) && message.encoding().len() > 0 {
                    let point = Point { time: now, left: message.encoding().len() as usize };
                    queue_points::law_append_and_write_commute(points, point, sent);
                    queue_points::law_append_adds_bytes(points, point);
                }
            },
            Step::Write { event, now } => {
                queue_points::law_writes_add_up(points, sent, event.written());
            },
            _ => {},
        }
    }
}

/// What came in, round of reads by round of reads.
pub open spec fn chunks<M>(steps: Seq<Step<M>>) -> Seq<Seq<u8>>
    decreases steps.len(),
{
    if steps.len() == 0 {
        Seq::empty()
    } else {
        match steps[0] {
            Step::Read { rx, .. } => seq![rx] + chunks(steps.skip(1)),
            _ => chunks(steps.skip(1)),
        }
    }
}

/// The bytes that came in, in order.
pub open spec fn came_in<M>(steps: Seq<Step<M>>) -> Seq<u8> {
    reassembly::joined(chunks(steps))
}

/// The messages in what a stream has received, and their sizes.
pub open spec fn contents<M>(received: Seq<Received<M>>) -> Seq<(M, nat)> {
    Seq::new(received.len(), |i: int| (received[i].message, received[i].size as nat))
}

/// The messages that were received and their sizes, in order.
pub open spec fn delivered<M>(steps: Seq<Step<M>>) -> Seq<(M, nat)>
    decreases steps.len(),
{
    if steps.len() == 0 {
        Seq::empty()
    } else {
        match steps[0] {
            Step::Read { received, .. } => contents(received) + delivered(steps.skip(1)),
            _ => delivered(steps.skip(1)),
        }
    }
}

/// Whether the same messages stand in two lists, with the same sizes.
pub open spec fn same_messages<M: Message>(left: Seq<(M, nat)>, right: Seq<(M, nat)>) -> bool {
    &&& left.len() == right.len()
    &&& forall|i: int|
        0 <= i < left.len() ==> (#[trigger] left[i]).0.same(&right[i].0) && left[i].1 == right[i].1
}

/// Whatever else happens on a stream, the messages that it receives are those that a series of
/// reads decodes from the bytes that came in, and the bytes behind them are kept. Reads that end
/// with the end of the stream or an error count too; only malformed data is left out.
pub proof fn law_stream_reassembles<M: Message>(
    states: Seq<MessageStream>,
    steps: Seq<Step<M>>,
)
    requires
        history(states, steps),
        !reassembly::reads::<M>(states[0].rx_msg_buf@, chunks(steps)).malformed,
    ensures
        ({
            let reads = reassembly::reads::<M>(states[0].rx_msg_buf@, chunks(steps));
            &&& same_messages(delivered(steps), reads.messages)
            &&& states.last().rx_msg_buf@ == reads.buffered
        }),
    decreases steps.len(),
{
    if steps.len() > 0 {
        lemma_later(states, steps);
        let rest = chunks(steps.skip(1));
        match steps[0] {
            Step::Read { rx, read_result, now, received, result } => {
                let bytes = states[0].rx_msg_buf@ + rx;
                let first = framing::frames::<M>(bytes);
                assert(chunks(steps)[0] == rx);
                assert(chunks(steps).skip(1) =~= rest);
                reassembly::law_frames_account_for_bytes::<M>(bytes);
                law_stream_reassembles(states.skip(1), steps.skip(1));
                lemma_sizes_fit(first.messages, bytes.len());
                let later = reassembly::reads::<M>(states[1].rx_msg_buf@, rest).messages;
                let all = first.messages + later;
                assert forall|i: int| 0 <= i < all.len() implies (#[trigger] delivered(
                    steps,
                )[i]).0.same(&all[i].0) && delivered(steps)[i].1 == all[i].1 by {
                    if i < first.messages.len() {
                        assert(received[i].message.same(&first.messages[i].0));
                    } else {
                        let n = i - first.messages.len();
                        assert(delivered(steps)[i] == delivered(steps.skip(1))[n]);
                    }
                }
            },
            _ => {
                law_stream_reassembles(states.skip(1), steps.skip(1));
            },
        }
    }
}

/// No message is larger than all messages together.
pub(crate) proof fn lemma_sizes_fit<M>(messages: Seq<(M, nat)>, limit: nat)
    requires
        reassembly::total_size(messages) <= limit,
    ensures
        forall|i: int| 0 <= i < messages.len() ==> (#[trigger] messages[i]).1 <= limit,
    decreases messages.len(),
{
    if messages.len() > 0 {
        lemma_sizes_fit(messages.skip(1), limit);
        assert forall|i: int| 0 <= i < messages.len() implies (#[trigger] messages[i]).1
            <= limit by {
            if i > 0 {
                assert(messages[i] == messages.skip(1)[i - 1]);
            }
        }
    }
}

/// Whether certain messages were delivered, in order, each with its size on the wire.
pub open spec fn arrived<M: Message>(delivered: Seq<(M, nat)>, messages: Seq<M>) -> bool {
    &&& delivered.len() == messages.len()
    &&& forall|i: int|
        0 <= i < messages.len() ==> {
            &&& (#[trigger] delivered[i]).0.same(&messages[i])
            &&& delivered[i].1 == messages[i].encoding().len()
        }
}

/// What was sent is what is received. If one side has queued some messages and written all of them
/// out, and the other side has read all of these bytes, in whatever pieces, then it has received
/// exactly these messages, in the order in which they were queued, each with its size on the wire,
/// and nothing is left over. Both sides may read and write by turns. Decoding must give back the
/// messages that were queued; of others nothing is asked.
pub proof fn law_messages_arrive<M: Message>(
    sender: Seq<MessageStream>,
    sending: Seq<Step<M>>,
    receiver: Seq<MessageStream>,
    receiving: Seq<Step<M>>,
)
    requires
        history(sender, sending),
        sender[0].tx_msg_buf@.len() == 0,
        sender.last().tx_msg_buf@.len() == 0,
        history(receiver, receiving),
        receiver[0].rx_msg_buf@.len() == 0,
        came_in(receiving) == went_out(sender, sending),
        message::lossless_on(queued(sender, sending)),
    ensures
        arrived(delivered(receiving), queued(sender, sending)),
        receiver.last().rx_msg_buf@.len() == 0,
{
    let messages = queued(sender, sending);
    law_bytes_leave_in_order(sender, sending);
    assert(went_out(sender, sending) + sender.last().tx_msg_buf@ =~= went_out(sender, sending));
    assert(receiver[0].rx_msg_buf@ =~= Seq::empty());
    reassembly::law_sent_is_received(messages, chunks(receiving));
    law_stream_reassembles(receiver, receiving);
    let reads = reassembly::reads::<M>(Seq::empty(), chunks(receiving)).messages;
    assert forall|i: int| 0 <= i < messages.len() implies (#[trigger] delivered(
        receiving,
    )[i]).0.same(&messages[i]) && delivered(receiving)[i].1 == messages[i].encoding().len() by {
        assert(message::stands_for(reads[i].0, messages[i]));
        assert(delivered(receiving)[i].0.same(&reads[i].0));
    }
}

} // verus!
