//! Cuts a stream of bytes into messages.

use bytes::Buf;

use vstd::prelude::*;

use crate::message::{DecodeError, Message};
use crate::message_stream::spanned_view::SpannedView;
use crate::message_stream::ReadError;
use crate::time::{Duration, Instant};

verus! {

/// What a run of bytes holds: the messages at its head, each with the number of bytes that it
/// takes up, and what follows them.
pub struct Frames<M> {
    /// The messages and their sizes, in order.
    pub messages: Seq<(M, nat)>,
    /// The number of bytes that the messages take up together.
    pub consumed: nat,
    /// Whether the bytes behind the messages can never become a message.
    pub malformed: bool,
}

/// Takes messages off the head of the bytes until no whole message is left. The bytes that stay
/// behind are the beginning of a message, unless they are malformed: because decoding says so, or
/// because there are as many of them as the largest message has, and still no message.
pub open spec fn frames<M: Message>(bytes: Seq<u8>) -> Frames<M>
    decreases bytes.len(),
{
    match M::parse(bytes) {
        Ok((message, size)) => if 0 < size <= bytes.len() {
            let rest = frames::<M>(bytes.skip(size as int));
            Frames {
                messages: seq![(message, size)] + rest.messages,
                consumed: size + rest.consumed,
                malformed: rest.malformed,
            }
        } else {
            Frames { messages: Seq::empty(), consumed: 0, malformed: true }
        },
        Err(DecodeError::Partial) => Frames {
            messages: Seq::empty(),
            consumed: 0,
            malformed: bytes.len() >= M::MAX_SIZE,
        },
        Err(DecodeError::Malformed) => Frames {
            messages: Seq::empty(),
            consumed: 0,
            malformed: true,
        },
    }
}

/// A message that came off the wire.
#[derive(Debug)]
pub struct Received<M> {
    /// The message.
    pub message: M,
    /// The original wire size of the message before it was decoded.
    pub size: usize,
    /// How long the message was incomplete in the receive buffer.
    pub time: Duration,
}

/// The messages as they are handed to the consumer. Only the first one can have been waiting for
/// its remaining bytes: since `first_frame`, if that is given.
pub open spec fn delivery<M>(
    messages: Seq<(M, nat)>,
    first_frame: Option<Instant>,
    now: Instant,
) -> Seq<Received<M>> {
    Seq::new(
        messages.len(),
        |i: int|
            Received {
                message: messages[i].0,
                size: messages[i].1 as usize,
                time: if i == 0 && first_frame is Some {
                    now.since(first_frame->0)
                } else {
                    Duration { nanos: 0 }
                },
            },
    )
}

/// Whether the messages that were received are those that were expected.
pub open spec fn as_expected<M: Message>(
    received: Seq<Received<M>>,
    expected: Seq<Received<M>>,
) -> bool {
    &&& received.len() == expected.len()
    &&& forall|i: int|
        0 <= i < received.len() ==> {
            &&& (#[trigger] received[i]).message.same(&expected[i].message)
            &&& received[i].size == expected[i].size
            &&& received[i].time == expected[i].time
        }
}

/// Decodes messages from the head of a buffer until no whole message is left in it.
///
/// Returns the messages, and how many bytes they took up together. Malformed data behind them is
/// an error; the messages in front of it are returned nevertheless.
pub fn decode_from_buffer<M: Message>(
    buffer: &mut SpannedView<'_>,
    first_frame: Option<Instant>,
    now: Instant,
) -> (decoded: (Vec<Received<M>>, Result<usize, ReadError>))
    requires
        old(buffer).wf(),
    ensures
        as_expected(
            decoded.0@,
            delivery(frames::<M>(old(buffer)@).messages, first_frame, now),
        ),
        decoded.1 == (if frames::<M>(old(buffer)@).malformed {
            Err(ReadError::MalformedMessage)
        } else {
            Ok(frames::<M>(old(buffer)@).consumed as usize)
        }),
        frames::<M>(old(buffer)@).consumed <= old(buffer)@.len(),
{
    let ghost all = frames::<M>(buffer@);
    let ghost start = buffer@;
    let mut received: Vec<Received<M>> = Vec::new();
    let mut total_consumed: usize = 0;
    let ghost mut taken: Seq<(M, nat)> = Seq::empty();
    proof {
        assert(taken + all.messages =~= all.messages);
    }
    loop
        invariant
            buffer.wf(),
            start == old(buffer)@,
            start.len() <= usize::MAX,
            all == frames::<M>(start),
            all.messages == taken + frames::<M>(buffer@).messages,
            all.consumed == total_consumed + frames::<M>(buffer@).consumed,
            all.malformed == frames::<M>(buffer@).malformed,
            total_consumed + buffer@.len() == start.len(),
            as_expected(received@, delivery(taken, first_frame, now)),
        decreases buffer@.len(),
    {
        let ghost before = buffer@;
        let pre: usize = Buf::remaining(&*buffer);
        match M::decode(buffer) {
            Ok(message) => {
                let time: Duration = match first_frame {
                    Some(start_time) => if received.len() == 0 {
                        now.since(start_time)
                    } else {
                        Duration::zero()
                    },
                    None => Duration::zero(),
                };
                let consumed: usize = pre - Buf::remaining(&*buffer);
                total_consumed = total_consumed + consumed;
                proof {
                    let rest = frames::<M>(buffer@);
                    assert(buffer@ =~= before.skip(consumed as int));
                    let one = M::parse(before)->Ok_0;
                    assert(taken + (seq![one] + rest.messages) =~= taken.push(one) + rest.messages);
                    taken = taken.push(one);
                }
                received.push(Received { message, size: consumed, time });
            },
            Err(DecodeError::Partial) => {
                proof {
                    assert(taken + Seq::empty() =~= taken);
                }
                if pre >= M::MAX_SIZE {
                    return (received, Err(ReadError::MalformedMessage));
                } else {
                    return (received, Ok(total_consumed));
                }
            },
            Err(DecodeError::Malformed) => {
                proof {
                    assert(taken + Seq::empty() =~= taken);
                }
                return (received, Err(ReadError::MalformedMessage));
            },
        }
    }
}

} // verus!
