//! The messages that peers exchange, and what is asked of their codec.

use vstd::prelude::*;

use crate::message_stream::spanned_view::SpannedView;

verus! {

/// Possible reasons why a message could not be decoded at a particular time.
#[derive(Debug, Clone, Copy, PartialEq, Eq, Structural)]
pub enum DecodeError {
    /// There is not enough data available to reconstruct a message. This does not indicate an
    /// irrecoverable problem, it just means that not enough data has been taken of the wire yet
    /// and that the operation should be retried once more data comes in.
    Partial,
    /// The message is malformed in some way. Once this is encountered, the peer that sent it
    /// is disconnected.
    Malformed,
}

/// An in-memory sink that messages are encoded into.
pub trait Sink: Sized {
    /// Whether the sink is in a state to take in bytes.
    spec fn open(&self) -> bool;

    /// The bytes in the sink, oldest first.
    spec fn written(&self) -> Seq<u8>;

    /// Appends bytes to the sink.
    fn put_slice(&mut self, data: &[u8])
        requires
            old(self).open(),
        ensures
            final(self).open(),
            final(self).written() == old(self).written() + data@,
    ;
}

impl Sink for Vec<u8> {
    open spec fn open(&self) -> bool {
        true
    }

    open spec fn written(&self) -> Seq<u8> {
        self@
    }

    fn put_slice(&mut self, data: &[u8]) {
        self.extend_from_slice(data);
        assert(self@ =~= old(self)@ + data@);
    }
}

/// A trait that network messages processed by the reactor must implement.
pub trait Message: std::fmt::Debug + Sized + Send + Sync + 'static {
    /// The size of the largest expected message. It is important to set this correctly because an
    /// incorrect value will interfere with inbound backpressure control and the ability to decode
    /// large messages. This is also crucial for DoS protection (resource exhaustion attacks).
    const MAX_SIZE: usize;

    /// The bytes that the message is encoded to. Nothing is known of them unless the implementor
    /// says what they are.
    open spec fn encoding(&self) -> Seq<u8> {
        arbitrary()
    }

    /// What decoding makes of a buffer: the message at its head and the number of bytes that the
    /// message takes up, or the reason why there is none. Nothing is known of it unless the
    /// implementor says what it is.
    open spec fn parse(buffer: Seq<u8>) -> Result<(Self, nat), DecodeError> {
        arbitrary()
    }

    /// Whether this is the same message as another one. Two values are the same if they are equal,
    /// unless the implementor says otherwise: a message that owns a collection can say that its
    /// contents decide.
    open spec fn same(&self, other: &Self) -> bool {
        self == other
    }

    /// Encodes a message into a sink.
    fn encode<S: Sink>(&self, dest: &mut S)
        requires
            old(dest).open(),
        ensures
            final(dest).open(),
            final(dest).written() == old(dest).written() + self.encoding(),
    ;

    /// Decodes the message at the head of a buffer. The buffer may contain any number of messages,
    /// including no messages at all or only a partial message. If there are enough bytes available
    /// to decode a message, the function must consume those bytes and return an `Ok` with the
    /// decoded message. A message takes up at least one byte.
    ///
    /// If there is not enough data to decode a message (i.e. it is available only partially),
    /// `Err(DecodeError::Partial)` must be returned. That signals that decoding should be
    /// retried when more data comes in. If the message cannot be decoded at all, or exceeds size
    /// limits or otherwise represents junk data, `Err(DecodeError::Malformed)` must be
    /// returned. Such peers are disconnected as protocol violators. After an error it does not
    /// matter how many bytes were consumed.
    fn decode(buffer: &mut SpannedView<'_>) -> (result: Result<Self, DecodeError>)
        requires
            old(buffer).wf(),
        ensures
            final(buffer).wf(),
            final(buffer).same_spans(old(buffer)),
            match result {
                Ok(message) => {
                    &&& final(buffer).consumed() > old(buffer).consumed()
                    &&& Self::parse(old(buffer)@) matches Ok((parsed, size))
                    &&& message.same(&parsed)
                    &&& size == final(buffer).consumed() - old(buffer).consumed()
                },
                Err(error) => Self::parse(old(buffer)@) == Err::<(Self, nat), DecodeError>(error),
            },
    ;

    /// The number of bytes that the message is encoded to. It is asked for before a message is
    /// encoded, so that a message is not placed into a send buffer that has no space for it.
    fn wire_size(&self) -> (size: usize)
        ensures
            size == self.encoding().len(),
    ;
}

/// Whether what decoding makes of a buffer stands when more data comes in: a message that is
/// complete stays the message that it is, and malformed data stays malformed. A message takes up
/// some of the bytes that it is decoded from.
pub open spec fn stable_codec<M: Message>() -> bool {
    &&& forall|head: Seq<u8>, more: Seq<u8>|
        M::parse(head) != Err::<(M, nat), DecodeError>(DecodeError::Partial)
            ==> #[trigger] M::parse(head + more) == M::parse(head)
    &&& forall|head: Seq<u8>|
        #[trigger] M::parse(head) matches Ok((message, size)) ==> 0 < size <= head.len()
}

/// Whether decoding a buffer gives a message that takes up so many bytes. Whatever value is decoded
/// is the same as the message.
pub open spec fn reads_as<M: Message>(buffer: Seq<u8>, message: M, size: nat) -> bool {
    M::parse(buffer) matches Ok((parsed, n)) && n == size && stands_for(parsed, message)
}

/// Whether everything that is the same as one message is the same as another one.
pub open spec fn stands_for<M: Message>(parsed: M, message: M) -> bool {
    forall|decoded: M| #[trigger] decoded.same(&parsed) ==> decoded.same(&message)
}

/// Whether decoding gives back certain messages from their encodings, whatever follows, and asks
/// for more data as long as one of them is incomplete. None of them is empty or larger than it may
/// be.
pub open spec fn lossless_on<M: Message>(messages: Seq<M>) -> bool {
    &&& M::MAX_SIZE > 0
    &&& M::parse(Seq::empty()) == Err::<(M, nat), DecodeError>(DecodeError::Partial)
    &&& forall|i: int, rest: Seq<u8>|
        0 <= i < messages.len() ==> reads_as(
            #[trigger] (messages[i].encoding() + rest),
            messages[i],
            messages[i].encoding().len(),
        )
    &&& forall|i: int, n: int|
        0 <= i < messages.len() && 0 <= n < messages[i].encoding().len() ==> M::parse(
            #[trigger] messages[i].encoding().take(n),
        ) == Err::<(M, nat), DecodeError>(DecodeError::Partial)
    &&& forall|i: int|
        0 <= i < messages.len() ==> 0 < (#[trigger] messages[i]).encoding().len() <= M::MAX_SIZE
}

/// The bytes that a run of messages is encoded to.
pub open spec fn encodings<M: Message>(messages: Seq<M>) -> Seq<u8>
    decreases messages.len(),
{
    if messages.len() == 0 {
        Seq::empty()
    } else {
        messages[0].encoding() + encodings(messages.skip(1))
    }
}

/// A run of messages is encoded to the bytes of its parts, one after the other. In particular a
/// message that is encoded behind others adds its own bytes to theirs.
pub proof fn law_encodings_concatenate<M: Message>(first: Seq<M>, second: Seq<M>)
    ensures
        encodings(first + second) == encodings(first) + encodings(second),
    decreases first.len(),
{
    if first.len() == 0 {
        assert(first + second =~= second);
        assert(encodings(first) + encodings(second) =~= encodings(second));
    } else {
        law_encodings_concatenate(first.skip(1), second);
        assert((first + second).skip(1) =~= first.skip(1) + second);
        assert(encodings(first + second) =~= encodings(first) + encodings(second));
    }
}

/// A single message is encoded to its own bytes, and no messages to none.
pub proof fn law_one_encoding<M: Message>(message: M)
    ensures
        encodings(Seq::<M>::empty()) == Seq::<u8>::empty(),
        encodings(seq![message]) == message.encoding(),
{
    reveal_with_fuel(encodings, 2);
    assert(seq![message].skip(1) =~= Seq::<M>::empty());
    assert(message.encoding() + Seq::<u8>::empty() =~= message.encoding());
}

} // verus!
