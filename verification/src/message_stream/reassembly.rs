//! How messages are put together when their bytes come in piece by piece.

use vstd::prelude::*;

use crate::message;
use crate::message::{DecodeError, Message};
use crate::message_stream::framing;
use crate::message_stream::framing::Frames;

verus! {

/// What a series of reads has come to.
pub struct Reads<M> {
    /// All messages that the reads have decoded and their sizes, in order.
    pub messages: Seq<(M, nat)>,
    /// The bytes left in the receive buffer.
    pub buffered: Seq<u8>,
    /// Whether a read came across malformed data. No read follows that one.
    pub malformed: bool,
}

/// Reads the chunks one after the other: each read decodes what is buffered and what has come in,
/// and buffers what is left.
pub open spec fn reads<M: Message>(buffered: Seq<u8>, chunks: Seq<Seq<u8>>) -> Reads<M>
    decreases chunks.len(),
{
    if chunks.len() == 0 {
        Reads { messages: Seq::empty(), buffered, malformed: false }
    } else {
        let bytes = buffered + chunks[0];
        let first = framing::frames::<M>(bytes);
        if first.malformed {
            Reads { messages: first.messages, buffered, malformed: true }
        } else {
            let rest = reads::<M>(bytes.skip(first.consumed as int), chunks.skip(1));
            Reads {
                messages: first.messages + rest.messages,
                buffered: rest.buffered,
                malformed: rest.malformed,
            }
        }
    }
}

/// The bytes of all chunks.
pub open spec fn joined(chunks: Seq<Seq<u8>>) -> Seq<u8>
    decreases chunks.len(),
{
    if chunks.len() == 0 {
        Seq::empty()
    } else {
        chunks[0] + joined(chunks.skip(1))
    }
}

/// Whether what was decoded stands for certain messages, in order, each with the size of its
/// encoding.
pub open spec fn carries<M: Message>(decoded: Seq<(M, nat)>, messages: Seq<M>) -> bool {
    &&& decoded.len() == messages.len()
    &&& forall|i: int|
        0 <= i < messages.len() ==> {
            &&& message::stands_for((#[trigger] decoded[i]).0, messages[i])
            &&& decoded[i].1 == messages[i].encoding().len()
        }
}

/// The sizes of some messages added up.
pub open spec fn total_size<M>(messages: Seq<(M, nat)>) -> nat
    decreases messages.len(),
{
    if messages.len() == 0 {
        0
    } else {
        messages[0].1 + total_size(messages.skip(1))
    }
}

/// No byte is lost or read twice: the messages take up exactly the bytes that were consumed, and
/// those are bytes that there are. What stays behind is shorter than the largest message, so that
/// a sender cannot fill up a receive buffer with endless junk, and holds no whole message.
pub proof fn law_frames_account_for_bytes<M: Message>(bytes: Seq<u8>)
    ensures
        framing::frames::<M>(bytes).consumed <= bytes.len(),
        total_size(framing::frames::<M>(bytes).messages) == framing::frames::<M>(bytes).consumed,
        !framing::frames::<M>(bytes).malformed ==> {
            let rest = bytes.skip(framing::frames::<M>(bytes).consumed as int);
            &&& rest.len() < M::MAX_SIZE
            &&& M::parse(rest) == Err::<(M, nat), DecodeError>(DecodeError::Partial)
        },
    decreases bytes.len(),
{
    match M::parse(bytes) {
        Ok((decoded, size)) => {
            if 0 < size <= bytes.len() {
                let tail = bytes.skip(size as int);
                let rest = framing::frames::<M>(tail);
                law_frames_account_for_bytes::<M>(tail);
                assert((seq![(decoded, size)] + rest.messages).skip(1) =~= rest.messages);
                assert(tail.skip(rest.consumed as int) =~= bytes.skip(
                    (size + rest.consumed) as int,
                ));
            }
        },
        Err(_) => {
            assert(bytes.skip(0) =~= bytes);
        },
    }
}

/// It makes no difference whether bytes come in at once or in two reads: the messages are the
/// same, in the same order, and so is what is left over. The first read must not end in malformed
/// data, since no read follows that.
pub proof fn law_split_read<M: Message>(first: Seq<u8>, second: Seq<u8>)
    requires
        message::stable_codec::<M>(),
        !framing::frames::<M>(first).malformed,
    ensures
        ({
            let one = framing::frames::<M>(first);
            let two = framing::frames::<M>(first.skip(one.consumed as int) + second);
            framing::frames::<M>(first + second) == (Frames::<M> {
                messages: one.messages + two.messages,
                consumed: one.consumed + two.consumed,
                malformed: two.malformed,
            })
        }),
    decreases first.len(),
{
    let one = framing::frames::<M>(first);
    let two = framing::frames::<M>(first.skip(one.consumed as int) + second);
    match M::parse(first) {
        Ok((decoded, size)) => {
            assert(M::parse(first + second) == M::parse(first));
            let tail = first.skip(size as int);
            let rest = framing::frames::<M>(tail);
            law_split_read::<M>(tail, second);
            law_frames_account_for_bytes::<M>(tail);
            assert((first + second).skip(size as int) =~= tail + second);
            assert(tail.skip(rest.consumed as int) =~= first.skip((size + rest.consumed) as int));
            assert(seq![(decoded, size)] + (rest.messages + two.messages) =~= (seq![
                (decoded, size),
            ] + rest.messages) + two.messages);
        },
        Err(_) => {
            assert(first.skip(0) =~= first);
            assert(one.messages + two.messages =~= two.messages);
        },
    }
}

/// It makes no difference in how many pieces bytes come in: a series of reads gives the messages
/// that a single read of all bytes gives, in the same order, and leaves the same bytes over. The
/// bytes that were buffered before are those that an earlier read has left over.
pub proof fn law_chunked_reads<M: Message>(buffered: Seq<u8>, chunks: Seq<Seq<u8>>)
    requires
        message::stable_codec::<M>(),
        framing::frames::<M>(buffered).messages.len() == 0,
        !framing::frames::<M>(buffered).malformed,
        !reads::<M>(buffered, chunks).malformed,
    ensures
        ({
            let bytes = buffered + joined(chunks);
            let all = framing::frames::<M>(bytes);
            &&& !all.malformed
            &&& reads::<M>(buffered, chunks) == (Reads::<M> {
                messages: all.messages,
                buffered: bytes.skip(all.consumed as int),
                malformed: false,
            })
        }),
    decreases chunks.len(),
{
    if chunks.len() == 0 {
        law_frames_account_for_bytes::<M>(buffered);
        assert(buffered + joined(chunks) =~= buffered);
        assert(framing::frames::<M>(buffered).messages =~= Seq::empty());
        assert(buffered.skip(0) =~= buffered);
    } else {
        let first = buffered + chunks[0];
        let one = framing::frames::<M>(first);
        let left = first.skip(one.consumed as int);
        let rest = joined(chunks.skip(1));
        law_frames_account_for_bytes::<M>(first);
        law_chunked_reads::<M>(left, chunks.skip(1));
        law_split_read::<M>(first, rest);
        law_frames_account_for_bytes::<M>(left + rest);
        let two = framing::frames::<M>(left + rest);
        assert(buffered + joined(chunks) =~= first + rest);
        assert((left + rest).skip(two.consumed as int) =~= (first + rest).skip(
            (one.consumed + two.consumed) as int,
        ));
    }
}

/// What decoding gives back of a run of messages it also gives back of the end of that run.
proof fn lemma_lossless_end<M: Message>(messages: Seq<M>, from: int)
    requires
        message::lossless_on(messages),
        0 <= from <= messages.len(),
    ensures
        message::lossless_on(messages.skip(from)),
{
    let end = messages.skip(from);
    assert forall|i: int, rest: Seq<u8>| 0 <= i < end.len() implies message::reads_as(
        #[trigger] (end[i].encoding() + rest),
        end[i],
        end[i].encoding().len(),
    ) by {
        assert(end[i] == messages[from + i]);
        assert(message::reads_as(
            messages[from + i].encoding() + rest,
            messages[from + i],
            messages[from + i].encoding().len(),
        ));
    }
    assert forall|i: int, n: int|
        0 <= i < end.len() && 0 <= n < end[i].encoding().len() implies M::parse(
        #[trigger] end[i].encoding().take(n),
    ) == Err::<(M, nat), DecodeError>(DecodeError::Partial) by {
        assert(end[i] == messages[from + i]);
        assert(M::parse(messages[from + i].encoding().take(n)) is Err);
    }
}

/// The beginning of the encoding of a run of messages: as many whole messages as fit into it, and
/// a part of the next one.
proof fn lemma_prefix_frames<M: Message>(messages: Seq<M>, len: int) -> (whole: int)
    requires
        message::lossless_on(messages),
        0 <= len <= message::encodings(messages).len(),
    ensures
        0 <= whole <= messages.len(),
        ({
            let sent = message::encodings(messages.take(whole));
            let found = framing::frames::<M>(message::encodings(messages).take(len));
            &&& sent.len() <= len
            &&& carries(found.messages, messages.take(whole))
            &&& found.consumed == sent.len()
            &&& !found.malformed
            &&& message::encodings(messages) == sent + message::encodings(messages.skip(whole))
            &&& whole == messages.len() ==> len == sent.len()
        }),
    decreases messages.len(),
{
    let all = message::encodings(messages);
    let bytes = all.take(len);
    if messages.len() == 0 || len < messages[0].encoding().len() {
        if messages.len() == 0 {
            assert(bytes =~= Seq::empty());
        } else {
            let head = messages[0].encoding();
            assert(bytes =~= head.take(len));
            assert(M::parse(head.take(len)) is Err);
        }
        assert(messages.take(0) =~= Seq::empty());
        assert(messages.skip(0) =~= messages);
        assert(message::encodings(messages.take(0)) + all =~= all);
        0
    } else {
        let head = messages[0].encoding();
        let tail = messages.skip(1);
        let left = len - head.len();
        let rest = message::encodings(tail).take(left);
        assert(bytes =~= head + rest);
        assert(bytes.skip(head.len() as int) =~= rest);
        assert(message::reads_as(messages[0].encoding() + rest, messages[0], head.len()));
        lemma_lossless_end(messages, 1);
        let more = lemma_prefix_frames::<M>(tail, left);
        let whole = more + 1;
        let sent = message::encodings(messages.take(whole));
        assert(messages.take(whole).skip(1) =~= tail.take(more));
        assert(sent == head + message::encodings(tail.take(more)));
        assert(messages.skip(whole) =~= tail.skip(more));
        assert(all =~= sent + message::encodings(messages.skip(whole)));
        let found = framing::frames::<M>(bytes);
        let behind = framing::frames::<M>(rest);
        assert(carries(found.messages, messages.take(whole))) by {
            assert forall|i: int| 0 <= i < whole implies message::stands_for(
                (#[trigger] found.messages[i]).0,
                messages.take(whole)[i],
            ) && found.messages[i].1 == messages.take(whole)[i].encoding().len() by {
                if i > 0 {
                    assert(found.messages[i] == behind.messages[i - 1]);
                    assert(messages.take(whole)[i] == tail.take(more)[i - 1]);
                }
            }
        }
        whole
    }
}

/// What one side sends the other side receives: however the encodings of some messages are cut
/// into pieces on the wire, reading the pieces gives back these messages, each with its size on
/// the wire, in the order in which they were sent, and nothing is left over. Decoding must give
/// back these messages; of others nothing is asked.
pub proof fn law_sent_is_received<M: Message>(messages: Seq<M>, chunks: Seq<Seq<u8>>)
    requires
        message::lossless_on(messages),
        joined(chunks) == message::encodings(messages),
    ensures
        carries(reads::<M>(Seq::empty(), chunks).messages, messages),
        reads::<M>(Seq::empty(), chunks).buffered == Seq::<u8>::empty(),
        !reads::<M>(Seq::empty(), chunks).malformed,
{
    assert(Seq::<u8>::empty() + joined(chunks) =~= joined(chunks));
    assert(messages.len() > 0 ==> messages[0].encoding().len() > 0);
    lemma_rest_is_received::<M>(Seq::empty(), messages, chunks);
}

/// The same of what is yet to come when a part of the next message is buffered.
proof fn lemma_rest_is_received<M: Message>(
    buffered: Seq<u8>,
    messages: Seq<M>,
    chunks: Seq<Seq<u8>>,
)
    requires
        message::lossless_on(messages),
        buffered + joined(chunks) == message::encodings(messages),
        messages.len() > 0 ==> buffered.len() < messages[0].encoding().len(),
    ensures
        carries(reads::<M>(buffered, chunks).messages, messages),
        reads::<M>(buffered, chunks).buffered == Seq::<u8>::empty(),
        !reads::<M>(buffered, chunks).malformed,
    decreases chunks.len(),
{
    if chunks.len() == 0 {
        assert(buffered + joined(chunks) =~= buffered);
        assert(messages.len() == 0);
        assert(buffered =~= Seq::empty());
    } else {
        let bytes = buffered + chunks[0];
        let rest = joined(chunks.skip(1));
        assert(bytes + rest =~= buffered + joined(chunks));
        let len = bytes.len() as int;
        assert(message::encodings(messages).take(len) =~= bytes);
        let whole = lemma_prefix_frames::<M>(messages, len);
        let sent = message::encodings(messages.take(whole));
        let left = bytes.skip(sent.len() as int);
        let remaining = messages.skip(whole);
        assert(left + rest =~= message::encodings(remaining)) by {
            assert((bytes + rest).skip(sent.len() as int) =~= left + rest);
            assert((sent + message::encodings(remaining)).skip(sent.len() as int)
                =~= message::encodings(remaining));
        }
        lemma_lossless_end(messages, whole);
        if remaining.len() > 0 && left.len() >= remaining[0].encoding().len() {
            let next = remaining[0].encoding();
            law_frames_account_for_bytes::<M>(bytes);
            let behind = left.skip(next.len() as int);
            assert(message::encodings(remaining) == next + message::encodings(remaining.skip(1)));
            assert(left =~= next + behind);
            assert(message::reads_as(
                remaining[0].encoding() + behind,
                remaining[0],
                next.len(),
            ));
            assert(false);
        }
        lemma_rest_is_received::<M>(left, remaining, chunks.skip(1));
        let found = framing::frames::<M>(bytes).messages;
        let later = reads::<M>(left, chunks.skip(1)).messages;
        assert forall|i: int| 0 <= i < messages.len() implies message::stands_for(
            (#[trigger] (found + later)[i]).0,
            messages[i],
        ) && (found + later)[i].1 == messages[i].encoding().len() by {
            if i < whole {
                assert((found + later)[i] == found[i]);
                assert(messages.take(whole)[i] == messages[i]);
            } else {
                assert((found + later)[i] == later[i - whole]);
                assert(remaining[i - whole] == messages[i]);
            }
        }
    }
}

} // verus!
