use std::io::{Cursor, Read, Write};

use bytes::Buf;

use peerlink::message::{DecodeError, Message, Sink};
use peerlink::message_stream::framing::{decode_from_buffer, Received};
use peerlink::message_stream::queue_points::Queue;
use peerlink::message_stream::shiftbuf::ShiftBuf;
use peerlink::message_stream::spanned_view::SpannedView;
use peerlink::message_stream::{
    MaxMessageSizeMultiple, MessageStream, ReadError, ReadEvent, ReadJob, ReadStep, StreamConfig,
    WriteEvent, WriteJob, WriteResult, WriteStep,
};
use peerlink::time::{Duration, Instant};

#[derive(Debug, Eq, PartialEq)]
struct Ping(u64);

impl Message for Ping {
    const MAX_SIZE: usize = 8;

    fn encode<S: Sink>(&self, dest: &mut S) {
        dest.put_slice(&self.0.to_le_bytes());
    }

    fn decode(buffer: &mut SpannedView<'_>) -> Result<Self, DecodeError> {
        match buffer.try_get_u64_le() {
            Ok(v) => Ok(Ping(v)),
            Err(_) => Err(DecodeError::Partial),
        }
    }

    fn wire_size(&self) -> usize {
        8
    }
}

/// A message with a length prefix. A length of 255 is malformed.
#[derive(Debug, Eq, PartialEq)]
struct Text(Vec<u8>);

impl Message for Text {
    const MAX_SIZE: usize = 32;

    fn encode<S: Sink>(&self, dest: &mut S) {
        dest.put_slice(&[self.0.len() as u8]);
        dest.put_slice(&self.0);
    }

    fn decode(buffer: &mut SpannedView<'_>) -> Result<Self, DecodeError> {
        let len = buffer.try_get_u8().map_err(|_| DecodeError::Partial)?;
        if len == 255 {
            return Err(DecodeError::Malformed);
        }
        let mut text = vec![0; len as usize];
        buffer.try_copy_to_slice(&mut text).map_err(|_| DecodeError::Partial)?;
        Ok(Text(text))
    }

    fn wire_size(&self) -> usize {
        1 + self.0.len()
    }
}

fn at(nanos: u128) -> Instant {
    Instant { nanos }
}

/// Performs a round of reads from an in-memory source and hands the bytes to the stream.
fn read<M: Message>(
    conn: &mut MessageStream,
    source: &mut impl Read,
    buf: &mut [u8],
    now: Instant,
) -> (Vec<Received<M>>, Result<bool, ReadError>) {
    let mut job = conn.begin_read::<M>(buf.len());
    loop {
        let event = match source.read(&mut buf[job.total_read..job.limit]) {
            Ok(n) => ReadEvent::Read(n),
            Err(err) if err.kind() == std::io::ErrorKind::WouldBlock => ReadEvent::WouldBlock,
            Err(err) => ReadEvent::Failed(err),
        };
        match job.step(event) {
            ReadStep::Again(next) => job = next,
            ReadStep::Stop { total_read, result } => {
                return conn.read::<M>(&buf[..total_read], result, now);
            }
        }
    }
}

/// Performs a round of writes to an in-memory sink.
fn write(
    conn: &mut MessageStream,
    sink: &mut impl Write,
    now: Instant,
) -> Result<(WriteResult, usize), std::io::Error> {
    let mut step = conn.begin_write();
    loop {
        match step {
            WriteStep::Again(job) => {
                let event = match sink.write(conn.tx_msg_buf.data()) {
                    Ok(n) => WriteEvent::Wrote(n),
                    Err(err) if err.kind() == std::io::ErrorKind::WouldBlock => {
                        WriteEvent::WouldBlock
                    }
                    Err(err) => WriteEvent::Failed(err),
                };
                step = conn.write(job, event, now);
            }
            WriteStep::Stop(result) => return result,
        }
    }
}

#[test]
fn queue_behavior() {
    let mut queue = Queue::default();

    queue.append(10, at(1));
    queue.append(20, at(2));
    queue.append(30, at(3));

    assert_eq!(queue.0[0].left, 10);
    assert_eq!(queue.0[1].left, 20);
    assert_eq!(queue.0[2].left, 30);

    queue.mark_write(5);
    assert_eq!(queue.0[0].left, 5);
    assert_eq!(queue.0[1].left, 20);
    assert_eq!(queue.0[2].left, 30);

    queue.mark_write(5);
    assert_eq!(queue.0[0].left, 20);
    assert_eq!(queue.0[1].left, 30);

    queue.mark_write(25);
    assert_eq!(queue.0[0].left, 25);
    assert_eq!(queue.0.len(), 1);

    queue.mark_write(25);
    assert!(queue.first().is_none());
}

#[test]
fn queue_knows_its_oldest_point() {
    let mut queue = Queue::default();
    assert_eq!(queue.first(), None);
    queue.append(10, at(7));
    queue.append(10, at(8));
    assert_eq!(queue.first(), Some(at(7)));
    queue.mark_write(11);
    assert_eq!(queue.first(), Some(at(8)));
    assert_eq!(queue.0[0].left, 9);
}

#[test]
fn queue_shrinks_and_keeps_its_points() {
    let mut queue = Queue::default();
    for i in 0..100 {
        queue.append(i + 1, at(i as u128));
    }
    let before = queue.0.capacity();
    for i in 0..97 {
        queue.mark_write(i + 1);
    }
    queue.shrink();
    assert!(queue.0.capacity() < before);
    assert_eq!(queue.0.len(), 3);
    assert_eq!(queue.0[0].left, 98);
    assert_eq!(queue.first(), Some(at(97)));
}

#[test]
fn buffer_test() {
    let mut buffer = ShiftBuf::default();

    assert_eq!(buffer.len(), 0);

    buffer.put_slice(b"test 123");
    assert_eq!(buffer.len(), 8);
    assert_eq!(buffer.data(), b"test 123");

    buffer.advance(5);
    assert_eq!(buffer.len(), 3);
    assert_eq!(buffer.data(), b"123");
    assert_eq!(buffer.buf, b"test 123");

    buffer.shift();
    assert_eq!(buffer.len(), 3);
    assert_eq!(buffer.data(), b"123");
    assert_eq!(buffer.buf, b"123");

    buffer.shift(); // this one is a no-op
    assert_eq!(buffer.len(), 3);
    assert_eq!(buffer.data(), b"123");
    assert_eq!(buffer.buf, b"123");

    buffer.advance(3);
    assert_eq!(buffer.len(), 0);
    assert_eq!(buffer.data(), b"");
    assert_eq!(buffer.buf, b"123");

    buffer.shift();
    assert_eq!(buffer.len(), 0);
    assert_eq!(buffer.data(), b"");
    assert_eq!(buffer.buf, b"");

    assert_eq!(buffer.buf.capacity(), 64);
    buffer.shrink(4);
    assert!(buffer.buf.capacity() >= 4 && buffer.buf.capacity() < 64);
}

#[test]
fn buffer_shifts_when_more_than_a_third_was_read() {
    let mut buffer = ShiftBuf::default();
    buffer.put(b"123456789");
    buffer.advance(3);
    buffer.smart_shift();
    assert_eq!(buffer.cursor, 3);
    assert_eq!(buffer.buf, b"123456789");

    buffer.advance(1);
    buffer.smart_shift();
    assert_eq!(buffer.cursor, 0);
    assert_eq!(buffer.buf, b"56789");

    buffer.advance(4);
    buffer.put_slice(b"ab");
    assert_eq!(buffer.buf, b"9ab");
    buffer.clear();
    assert!(buffer.is_empty());
    assert_eq!(buffer.buf, b"");
}

#[test]
fn buffer_shrinks_and_keeps_its_data() {
    let mut buffer = ShiftBuf::default();
    buffer.put(&[7; 1000]);
    buffer.advance(998);
    let before = buffer.buf.capacity();
    buffer.shrink(16);
    assert!(buffer.buf.capacity() < before);
    assert_eq!(buffer.data(), &[7, 7]);
    assert_eq!(buffer.cursor, 0);
}

#[test]
fn view_spans_two_slices() {
    let mut view = SpannedView::new(b"abc", b"de");
    assert_eq!(view.remaining(), 5);
    assert_eq!(view.chunk(), b"abc");
    view.advance(1);
    assert_eq!(view.chunk(), b"bc");
    view.advance(2);
    assert_eq!(view.chunk(), b"de");
    view.advance(1);
    assert_eq!(view.chunk(), b"e");
    assert_eq!(view.remaining(), 1);
    view.advance(1);
    assert_eq!(view.chunk(), b"");
    assert!(!view.has_remaining());

    let mut bytes = [0; 4];
    SpannedView::new(b"ab", b"cd").copy_to_slice(&mut bytes);
    assert_eq!(&bytes, b"abcd");
}

#[test]
fn messages_are_cut_out_of_a_buffer() {
    let mut view = SpannedView::new(&[2, b'h'], &[b'i', 0, 3, b'x']);
    let (received, decoded) = decode_from_buffer::<Text>(&mut view, Some(at(5)), at(9));
    assert_eq!(decoded.unwrap(), 4);
    assert_eq!(received.len(), 2);
    assert_eq!(received[0].message, Text(b"hi".to_vec()));
    assert_eq!(received[0].size, 3);
    assert_eq!(received[0].time, Duration { nanos: 4 });
    assert_eq!(received[1].message, Text(Vec::new()));
    assert_eq!(received[1].size, 1);
    assert_eq!(received[1].time, Duration { nanos: 0 });
}

#[test]
fn messages_in_front_of_malformed_data_are_decoded() {
    let mut view = SpannedView::new(&[1, b'a', 255], &[]);
    let (received, decoded) = decode_from_buffer::<Text>(&mut view, None, at(0));
    assert!(matches!(decoded, Err(ReadError::MalformedMessage)));
    assert_eq!(received.len(), 1);
    assert_eq!(received[0].message, Text(b"a".to_vec()));
}

#[test]
fn reassemble_message_whole_reads() {
    let mut buf = [0; 1024];
    let mut cursor = Vec::new();

    Ping(0).encode(&mut cursor);
    Ping(1).encode(&mut cursor);

    let mut stream = Cursor::new(cursor);
    let mut conn = MessageStream::new(StreamConfig::default(), at(0));

    let mut received: Vec<Ping> = Vec::new();
    let (messages, result) = read::<Ping>(&mut conn, &mut stream, &mut buf, at(1));
    for one in messages {
        assert_eq!(one.size, 8);
        assert_eq!(one.time, Duration::zero());
        received.push(one.message);
    }
    result.unwrap();

    assert_eq!(received[0], Ping(0));

    let (messages, result) = read::<Ping>(&mut conn, &mut stream, &mut buf, at(2));
    for one in messages {
        assert_eq!(one.size, 8);
        assert_eq!(one.time, Duration::zero());
        received.push(one.message);
    }
    result.unwrap();
    assert_eq!(received[1], Ping(1));

    let (messages, err) = read::<Ping>(&mut conn, &mut stream, &mut buf, at(3));
    for one in messages {
        assert_eq!(one.size, 8);
        assert_eq!(one.time, Duration::zero());
        received.push(one.message);
    }
    assert!(matches!(err, Err(ReadError::EndOfStream)));
    assert_eq!(stream.position(), 16);
    assert!(conn.rx_msg_buf.is_empty());
}

#[test]
fn reassemble_message_partial_reads() {
    let mut buf = [0; 8];
    let mut cursor = Cursor::new(Vec::new());
    let mut conn = MessageStream::new(StreamConfig::default(), at(0));
    let mut serialized = Vec::new();
    Ping(u64::MAX - 1).encode(&mut serialized);
    Ping(u64::MAX).encode(&mut serialized);

    let mut received: Vec<Ping> = Vec::new();

    cursor.get_mut().extend_from_slice(&serialized[..4]);
    let (messages, _) = read::<Ping>(&mut conn, &mut cursor, &mut buf, at(10));
    for one in messages {
        assert_eq!(one.size, 8);
        assert_eq!(one.time, Duration::zero());
        received.push(one.message);
    }
    assert!(received.is_empty());
    assert_eq!(conn.rx_msg_buf.len(), 4);

    cursor.get_mut().extend_from_slice(&serialized[4..]);
    let (messages, _) = read::<Ping>(&mut conn, &mut cursor, &mut buf, at(25));
    for one in messages {
        assert_eq!(one.size, 8);
        assert!(one.time != Duration::zero());
        received.push(one.message);
    }
    assert_eq!(received[0], Ping(u64::MAX - 1));

    let (messages, _) = read::<Ping>(&mut conn, &mut cursor, &mut buf, at(30));
    for one in messages {
        assert_eq!(one.size, 8);
        assert_eq!(one.time, Duration::zero());
        received.push(one.message);
    }
    assert_eq!(received[1], Ping(u64::MAX));
}

#[test]
fn frame_time_is_that_of_the_first_bytes() {
    let config = StreamConfig {
        rx_buf_max_size: MaxMessageSizeMultiple::two(),
        ..StreamConfig::default()
    };
    let mut conn = MessageStream::new(config, at(0));
    let mut bytes = Vec::new();
    Ping(1).encode(&mut bytes);
    Ping(2).encode(&mut bytes);

    let (messages, _) = conn.read::<Ping>(&bytes[..2], Ok(false), at(10));
    assert!(messages.is_empty());
    let (messages, _) = conn.read::<Ping>(&bytes[2..4], Ok(false), at(20));
    assert!(messages.is_empty());
    assert_eq!(conn.frame_time, at(10));
    let (messages, _) = conn.read::<Ping>(&bytes[4..12], Ok(false), at(40));
    assert_eq!(messages.len(), 1);
    assert_eq!(messages[0].time, Duration { nanos: 30 });
    assert_eq!(conn.frame_time, at(40));
    assert_eq!(conn.rx_msg_buf.data(), &bytes[8..12]);
    let (messages, _) = conn.read::<Ping>(&bytes[12..], Ok(false), at(41));
    assert_eq!(messages[0].message, Ping(2));
    assert_eq!(messages[0].time, Duration { nanos: 1 });
    assert!(conn.rx_msg_buf.is_empty());
}

#[test]
fn junk_does_not_fill_the_receive_buffer() {
    let mut conn = MessageStream::new(StreamConfig::default(), at(0));
    let mut junk = vec![200];
    junk.resize(32, 0);
    let (messages, result) = conn.read::<Text>(&junk[..31], Ok(true), at(1));
    assert!(messages.is_empty());
    assert!(matches!(result, Ok(true)));
    assert_eq!(conn.begin_read::<Text>(1024).limit, 1);
    let (messages, result) = conn.read::<Text>(&junk[31..], Ok(true), at(2));
    assert!(messages.is_empty());
    assert!(matches!(result, Err(ReadError::MalformedMessage)));
    assert_eq!(conn.rx_msg_buf.len(), 31);
}

#[test]
fn malformed_data_takes_precedence_over_the_end_of_stream() {
    let mut conn = MessageStream::new(StreamConfig::default(), at(0));
    let (messages, result) =
        conn.read::<Text>(&[1, b'a', 255], Err(ReadError::EndOfStream), at(1));
    assert_eq!(messages.len(), 1);
    assert!(matches!(result, Err(ReadError::MalformedMessage)));

    let mut conn = MessageStream::new(StreamConfig::default(), at(0));
    let (messages, result) = conn.read::<Text>(&[1, b'a'], Err(ReadError::EndOfStream), at(1));
    assert_eq!(messages.len(), 1);
    assert!(matches!(result, Err(ReadError::EndOfStream)));
}

#[test]
fn chunked_reads_give_what_was_sent() {
    let texts: Vec<Text> = vec![
        Text(b"hello".to_vec()),
        Text(Vec::new()),
        Text(vec![9; 31]),
        Text(b"bye".to_vec()),
    ];
    let mut bytes = Vec::new();
    for text in &texts {
        text.encode(&mut bytes);
    }
    for chunk_size in 1..=bytes.len().min(32) {
        let mut conn = MessageStream::new(
            StreamConfig {
                rx_buf_max_size: MaxMessageSizeMultiple::two(),
                ..StreamConfig::default()
            },
            at(0),
        );
        let mut received = Vec::new();
        for chunk in bytes.chunks(chunk_size) {
            let (messages, result) = conn.read::<Text>(chunk, Ok(true), at(1));
            assert!(matches!(result, Ok(true)));
            received.extend(messages.into_iter().map(|one| (one.message, one.size)));
        }
        assert!(conn.rx_msg_buf.is_empty());
        assert_eq!(received.len(), texts.len());
        for (one, text) in received.iter().zip(&texts) {
            assert_eq!(&one.0, text);
            assert_eq!(one.1, text.wire_size());
        }
    }
}

#[test]
fn read_rounds_end() {
    let job = ReadJob { limit: 10, total_read: 0 };
    let job = match job.step(ReadEvent::Read(4)) {
        ReadStep::Again(job) => job,
        ReadStep::Stop { .. } => panic!(),
    };
    assert_eq!((job.limit, job.total_read), (10, 4));
    assert!(matches!(
        job.step(ReadEvent::Read(6)),
        ReadStep::Stop { total_read: 10, result: Ok(true) }
    ));
    assert!(matches!(
        job.step(ReadEvent::Read(0)),
        ReadStep::Stop { total_read: 4, result: Err(ReadError::EndOfStream) }
    ));
    assert!(matches!(
        job.step(ReadEvent::WouldBlock),
        ReadStep::Stop { total_read: 4, result: Ok(false) }
    ));
    assert!(matches!(
        job.step(ReadEvent::Failed(std::io::Error::other("broken"))),
        ReadStep::Stop { total_read: 4, result: Err(ReadError::Error(_)) }
    ));
    assert!(matches!(
        ReadJob { limit: 0, total_read: 0 }.step(ReadEvent::Read(0)),
        ReadStep::Stop { total_read: 0, result: Ok(true) }
    ));
}

#[test]
fn send_message() {
    let mut wire = Cursor::new(Vec::<u8>::new());
    let mut connection = MessageStream::new(
        StreamConfig {
            tx_buf_max_size: MaxMessageSizeMultiple::three(),
            ..Default::default()
        },
        at(0),
    );

    assert_eq!(connection.queue_message(&Ping(0), at(1)), (true, 8));
    assert_eq!(connection.queue_message(&Ping(1), at(2)), (true, 8));
    assert_eq!(connection.queue_message(&Ping(2), at(3)), (true, 8));

    let cloned_buffer = connection.tx_msg_buf.data().to_vec();
    write(&mut connection, &mut wire, at(4)).unwrap();
    assert_eq!(wire.position(), 24);
    assert_eq!(wire.into_inner(), cloned_buffer);
}

#[test]
fn send_message_buf_full() {
    let mut wire = Cursor::new(Vec::<u8>::new());
    let config = StreamConfig {
        tx_buf_min_size: 1,
        tx_buf_max_size: MaxMessageSizeMultiple::one(),
        ..Default::default()
    };
    let mut connection = MessageStream::new(config, at(0));

    assert_eq!(connection.queue_message(&Ping(0), at(1)), (true, 8));
    assert_eq!(connection.queue_message(&Ping(1), at(2)), (false, 0));

    let buffer_len = connection.tx_msg_buf.len();
    let cloned_buffer = connection.tx_msg_buf.data().to_vec();
    write(&mut connection, &mut wire, at(3)).unwrap();
    assert_eq!(wire.position(), buffer_len as u64);
    assert_eq!(wire.into_inner(), cloned_buffer);
}

#[test]
fn outbound_buffer_availability() {
    let mut wire = Cursor::new(Vec::<u8>::new());
    let config = StreamConfig {
        tx_buf_min_size: 1,
        tx_buf_max_size: MaxMessageSizeMultiple::one(),
        ..Default::default()
    };
    let mut connection = MessageStream::new(config, at(0));

    assert_eq!(connection.queue_message(&Ping(0), at(1)), (true, 8));
    assert_eq!(connection.queue_message(&Ping(1), at(2)), (false, 0));

    assert_eq!(connection.available::<Ping>(), 0);
    write(&mut connection, &mut wire, at(3)).unwrap();
    assert_eq!(connection.available::<Ping>(), 8);
}

#[test]
fn nothing_to_write_is_done() {
    let conn = MessageStream::new(StreamConfig::default(), at(0));
    assert!(matches!(conn.begin_write(), WriteStep::Stop(Ok((WriteResult::Done, 0)))));
}

#[test]
fn write_rounds_end() {
    let mut conn = MessageStream::new(StreamConfig::default(), at(0));
    assert_eq!(conn.queue_message(&Ping(1), at(1)), (true, 8));
    let job = match conn.begin_write() {
        WriteStep::Again(job) => job,
        WriteStep::Stop(_) => panic!(),
    };
    assert_eq!((job.write_budget, job.syscall_budget, job.total_written), (131072, 8, 0));
    let job = match conn.write(job, WriteEvent::Wrote(3), at(5)) {
        WriteStep::Again(job) => job,
        WriteStep::Stop(_) => panic!(),
    };
    assert_eq!((job.write_budget, job.syscall_budget, job.total_written), (131069, 7, 3));
    assert_eq!(conn.last_write, at(5));
    assert_eq!(conn.outbound_metrics::<Ping>().queued, 5);
    assert!(matches!(
        conn.write(job, WriteEvent::WouldBlock, at(6)),
        WriteStep::Stop(Ok((WriteResult::WouldBlock, 3)))
    ));
    assert_eq!(conn.last_write, at(5));
    assert!(matches!(
        conn.write(job, WriteEvent::Failed(std::io::Error::other("broken")), at(6)),
        WriteStep::Stop(Err(_))
    ));
    assert!(matches!(
        conn.write(job, WriteEvent::FlushWouldBlock(1), at(6)),
        WriteStep::Stop(Ok((WriteResult::WouldBlock, 4)))
    ));
    assert_eq!(conn.tx_msg_buf.len(), 4);
    assert!(matches!(
        conn.write(job, WriteEvent::FlushFailed(1, std::io::Error::other("broken")), at(6)),
        WriteStep::Stop(Err(_))
    ));
    assert_eq!(conn.tx_msg_buf.len(), 3);
    assert!(matches!(
        conn.write(job, WriteEvent::Wrote(3), at(7)),
        WriteStep::Stop(Ok((WriteResult::Done, 6)))
    ));
    assert!(!conn.has_queued_data());
    assert_eq!(conn.tx_msg_buf.buf, b"");
}

#[test]
fn write_rounds_are_cut_short() {
    let mut conn = MessageStream::new(StreamConfig::default(), at(0));
    assert_eq!(conn.queue_message(&Ping(1), at(1)), (true, 8));
    assert_eq!(conn.queue_message(&Ping(2), at(1)), (true, 8));
    let mut step = conn.begin_write();
    let mut writes = 0;
    loop {
        match step {
            WriteStep::Again(job) => {
                step = conn.write(job, WriteEvent::Wrote(1), at(2));
                writes += 1;
            }
            WriteStep::Stop(result) => {
                assert_eq!(result.unwrap(), (WriteResult::BudgetExceeded, 8));
                break;
            }
        }
    }
    assert_eq!(writes, 8);

    let job = WriteJob { write_budget: 4, syscall_budget: 8, total_written: 0 };
    assert!(matches!(
        conn.write(job, WriteEvent::Wrote(4), at(3)),
        WriteStep::Stop(Ok((WriteResult::BudgetExceeded, 4)))
    ));
}

#[test]
fn messages_arrive_in_order() {
    let config = StreamConfig {
        tx_buf_max_size: MaxMessageSizeMultiple::two(),
        rx_buf_max_size: MaxMessageSizeMultiple::four(),
        ..StreamConfig::default()
    };
    let mut sender = MessageStream::new(config, at(0));
    let mut receiver = MessageStream::new(config, at(0));
    let mut sent = Vec::new();
    let mut received = Vec::new();
    let mut nonce = 0;
    for round in 0..200_usize {
        for _ in 0..round % 4 {
            let ping = Ping(nonce);
            nonce += 1;
            if sender.queue_message(&ping, at(1)).0 {
                sent.push(ping);
            }
        }
        if let WriteStep::Again(job) = sender.begin_write() {
            let n = (1 + round % 7).min(sender.tx_msg_buf.len());
            let bytes = sender.tx_msg_buf.data()[..n].to_vec();
            let _ = sender.write(job, WriteEvent::Wrote(n), at(2));
            let (messages, result) = receiver.read::<Ping>(&bytes, Ok(true), at(3));
            assert!(result.is_ok());
            received.extend(messages.into_iter().map(|one| one.message));
        }
        if round % 20 == 19 {
            sender.shrink_buffers();
            receiver.shrink_buffers();
        }
    }
    while sender.has_queued_data() {
        let bytes = sender.tx_msg_buf.data().to_vec();
        let job = match sender.begin_write() {
            WriteStep::Again(job) => job,
            WriteStep::Stop(_) => panic!(),
        };
        let _ = sender.write(job, WriteEvent::Wrote(bytes.len()), at(4));
        let (messages, _) = receiver.read::<Ping>(&bytes, Ok(true), at(4));
        received.extend(messages.into_iter().map(|one| one.message));
    }
    assert!(nonce as usize > sent.len());
    assert_eq!(received, sent);
    assert!(receiver.rx_msg_buf.is_empty());
}

/// Moves some queued bytes from one stream to the other.
fn transfer<M: Message>(
    from: &mut MessageStream,
    to: &mut MessageStream,
    most: usize,
    result: Result<bool, ReadError>,
) -> Vec<(M, usize)> {
    let n = from.tx_msg_buf.len().min(most).min(to.begin_read::<M>(most).limit);
    let bytes = from.tx_msg_buf.data()[..n].to_vec();
    if let WriteStep::Again(job) = from.begin_write() {
        let _ = from.write(job, WriteEvent::Wrote(n), at(2));
    }
    let (messages, _) = to.read::<M>(&bytes, result, at(3));
    messages.into_iter().map(|one| (one.message, one.size)).collect()
}

#[test]
fn both_sides_read_and_write_by_turns() {
    let mut left = MessageStream::new(StreamConfig::default(), at(0));
    let mut right = MessageStream::new(StreamConfig::default(), at(0));
    let (mut to_left, mut to_right) = (Vec::new(), Vec::new());
    let (mut at_left, mut at_right) = (Vec::new(), Vec::new());
    for round in 0..120_usize {
        // the largest messages come first, while there is space for them
        let (a, b) = (Text(vec![1; 31 - round % 32]), Text(vec![2; 31 - (3 * round) % 32]));
        if left.queue_message(&a, at(1)).0 {
            to_right.push(a);
        }
        if right.queue_message(&b, at(1)).0 {
            to_left.push(b);
        }
        assert_eq!(left.is_ready(round > 3), round > 3);
        at_right.extend(transfer::<Text>(&mut left, &mut right, 1 + round % 13, Ok(true)));
        at_left.extend(transfer::<Text>(&mut right, &mut left, 1 + round % 17, Ok(false)));
        if round % 25 == 24 {
            left.shrink_buffers();
        }
    }
    while left.has_queued_data() || right.has_queued_data() {
        let end = Err(ReadError::EndOfStream);
        at_right.extend(transfer::<Text>(&mut left, &mut right, 64, end));
        at_left.extend(transfer::<Text>(&mut right, &mut left, 64, Ok(true)));
    }
    for (received, sent) in [(at_right, to_right), (at_left, to_left)] {
        assert!(sent.iter().any(|text| text.wire_size() == Text::MAX_SIZE));
        assert_eq!(received.len(), sent.len());
        for (one, text) in received.iter().zip(&sent) {
            assert_eq!((&one.0, one.1), (text, text.wire_size()));
        }
    }
    assert!(left.rx_msg_buf.is_empty() && right.rx_msg_buf.is_empty());
}

#[test]
fn shrinking_discards_consumed_data() {
    let mut conn = MessageStream::new(StreamConfig::default(), at(0));
    assert_eq!(conn.queue_message(&Ping(1), at(1)), (true, 8));
    let bytes = conn.tx_msg_buf.data().to_vec();
    conn.try_write(3, at(2));
    let _ = conn.read::<Ping>(&bytes[..6], Ok(true), at(2));
    assert_eq!((conn.tx_msg_buf.cursor, conn.rx_msg_buf.cursor), (3, 0));
    conn.shrink_buffers();
    assert_eq!((conn.tx_msg_buf.cursor, conn.rx_msg_buf.cursor), (0, 0));
    assert_eq!(conn.tx_msg_buf.buf, &bytes[3..]);
    assert_eq!(conn.rx_msg_buf.buf, &bytes[..6]);
    assert_eq!(conn.outbound_metrics::<Ping>().oldest, Some(at(1)));
}

#[test]
fn flush_that_would_block_counts_what_was_written() {
    let mut conn = MessageStream::new(StreamConfig::default(), at(0));
    assert_eq!(conn.queue_message(&Ping(1), at(1)), (true, 8));
    let job = match conn.begin_write() {
        WriteStep::Again(job) => job,
        WriteStep::Stop(_) => panic!(),
    };
    match conn.write(job, WriteEvent::FlushWouldBlock(8), at(2)) {
        WriteStep::Stop(Ok((result, written))) => {
            assert_eq!((result, written), (WriteResult::Done, 8));
        }
        _ => panic!(),
    }
    let metrics = conn.outbound_metrics::<Ping>();
    assert_eq!((metrics.available, metrics.queued, metrics.oldest), (16, 0, None));
    assert_eq!(conn.tx_msg_buf.buf, b"");
    assert_eq!(conn.last_write, at(0));
}

#[test]
fn failed_flush_accounts_for_what_was_written() {
    let mut conn = MessageStream::new(StreamConfig::default(), at(0));
    assert_eq!(conn.queue_message(&Ping(1), at(1)), (true, 8));
    assert_eq!(conn.queue_message(&Ping(2), at(2)), (true, 8));
    let job = match conn.begin_write() {
        WriteStep::Again(job) => job,
        WriteStep::Stop(_) => panic!(),
    };
    let event = WriteEvent::FlushFailed(9, std::io::Error::other("broken"));
    assert!(matches!(conn.write(job, event, at(3)), WriteStep::Stop(Err(_))));
    let metrics = conn.outbound_metrics::<Ping>();
    assert_eq!((metrics.queued, metrics.oldest), (7, Some(at(2))));
}

#[test]
fn oldest_byte_is_known_while_bytes_are_queued() {
    let mut conn = MessageStream::new(StreamConfig::default(), at(0));
    let oldest = |conn: &MessageStream| conn.outbound_metrics::<Ping>().oldest;
    assert_eq!(oldest(&conn), None);
    assert_eq!(conn.queue_message(&Ping(1), at(3)), (true, 8));
    assert_eq!(conn.queue_message(&Ping(2), at(4)), (true, 8));
    conn.try_write(7, at(5));
    assert_eq!(oldest(&conn), Some(at(3)));
    conn.try_write(0, at(5));
    assert_eq!(oldest(&conn), Some(at(3)));
    conn.try_write(1, at(6));
    assert_eq!(oldest(&conn), Some(at(4)));
    conn.try_write(8, at(7));
    assert_eq!(oldest(&conn), None);
}

/// A message without bytes.
#[derive(Debug)]
struct Nothing;

impl Message for Nothing {
    const MAX_SIZE: usize = 8;

    fn encode<S: Sink>(&self, dest: &mut S) {
        dest.put_slice(&[]);
    }

    fn decode(_: &mut SpannedView<'_>) -> Result<Self, DecodeError> {
        Err(DecodeError::Partial)
    }

    fn wire_size(&self) -> usize {
        0
    }
}

#[test]
fn message_without_bytes_is_not_waited_for() {
    let mut conn = MessageStream::new(StreamConfig::default(), at(0));
    assert_eq!(conn.queue_message(&Nothing, at(1)), (true, 0));
    let metrics = conn.outbound_metrics::<Nothing>();
    assert_eq!((metrics.queued, metrics.oldest), (0, None));
    assert!(matches!(conn.begin_write(), WriteStep::Stop(Ok((WriteResult::Done, 0)))));
}

/// A message of one byte that is only decoded once two more bytes follow it.
#[derive(Debug, Eq, PartialEq)]
struct Ahead(u8);

impl Message for Ahead {
    const MAX_SIZE: usize = 8;

    fn encode<S: Sink>(&self, dest: &mut S) {
        dest.put_slice(&[self.0]);
    }

    fn decode(buffer: &mut SpannedView<'_>) -> Result<Self, DecodeError> {
        if buffer.remaining() < 3 {
            Err(DecodeError::Partial)
        } else {
            Ok(Ahead(buffer.get_u8()))
        }
    }

    fn wire_size(&self) -> usize {
        1
    }
}

#[test]
fn receive_buffer_stores_no_decoded_bytes() {
    let mut conn = MessageStream::new(StreamConfig::default(), at(0));
    let mut received = Vec::new();
    for byte in 0..100 {
        let (messages, result) = conn.read::<Ahead>(&[byte], Ok(true), at(1));
        assert!(result.is_ok());
        received.extend(messages.into_iter().map(|one| one.message.0));
        assert!(conn.rx_msg_buf.buf.len() <= 2);
        assert_eq!(conn.rx_msg_buf.cursor, 0);
    }
    assert_eq!(received, (0..98).collect::<Vec<u8>>());

    let mut conn = MessageStream::new(StreamConfig::default(), at(0));
    let mut bytes = Vec::new();
    Ping(1).encode(&mut bytes);
    let _ = conn.read::<Ping>(&bytes[..5], Ok(true), at(1));
    let _ = conn.read::<Ping>(&bytes[5..], Ok(true), at(2));
    assert_eq!(conn.rx_msg_buf.buf, b"");
}

#[test]
fn messages_arrive_before_the_stream_ends() {
    let mut conn = MessageStream::new(StreamConfig::default(), at(0));
    let mut bytes = Vec::new();
    Ping(1).encode(&mut bytes);
    Ping(2).encode(&mut bytes);
    let (messages, result) =
        conn.read::<Ping>(&bytes[..6], Err(ReadError::EndOfStream), at(1));
    assert!(messages.is_empty());
    assert!(matches!(result, Err(ReadError::EndOfStream)));
    let broken = ReadError::Error(std::io::Error::other("broken"));
    let (messages, result) = conn.read::<Ping>(&bytes[6..8], Err(broken), at(2));
    assert_eq!(messages[0].message, Ping(1));
    assert!(matches!(result, Err(ReadError::Error(_))));
    let (messages, _) = conn.read::<Ping>(&bytes[8..], Err(ReadError::EndOfStream), at(3));
    assert_eq!(messages[0].message, Ping(2));
    assert!(conn.rx_msg_buf.is_empty());
}

#[test]
fn stale_write_side() {
    let mut conn = MessageStream::new(StreamConfig::default(), at(100));
    let timeout = Duration { nanos: 50 };
    assert!(!conn.is_write_stale(at(1000), timeout));
    assert_eq!(conn.queue_message(&Ping(1), at(110)), (true, 8));
    assert!(!conn.is_write_stale(at(150), timeout));
    assert!(conn.is_write_stale(at(151), timeout));
    conn.try_write(2, at(151));
    assert!(!conn.is_write_stale(at(201), timeout));
}

#[test]
fn metrics_on_the_outbound_buffer() {
    let mut conn = MessageStream::new(StreamConfig::default(), at(0));
    let metrics = conn.outbound_metrics::<Ping>();
    assert_eq!((metrics.available, metrics.queued, metrics.oldest), (16, 0, None));
    assert_eq!(conn.queue_message(&Ping(1), at(3)), (true, 8));
    assert_eq!(conn.queue_message(&Ping(1), at(4)), (true, 8));
    let metrics = conn.outbound_metrics::<Ping>();
    assert_eq!((metrics.available, metrics.queued, metrics.oldest), (0, 16, Some(at(3))));
}

#[test]
fn readiness_is_cached() {
    let mut conn = MessageStream::new(StreamConfig::default(), at(0));
    assert!(!conn.is_ready(false));
    assert!(conn.is_ready(true));
    assert!(conn.is_ready(false));
}

#[test]
fn pending_errors() {
    assert!(MessageStream::take_error(Ok(None)).is_none());
    assert!(MessageStream::take_error(Err(std::io::Error::other("broken"))).is_none());
    let pending = std::io::Error::from(std::io::ErrorKind::ConnectionRefused);
    assert_eq!(
        MessageStream::take_error(Ok(Some(pending))).unwrap().kind(),
        std::io::ErrorKind::ConnectionRefused
    );
}

#[test]
fn stream_config_defaults() {
    let config = StreamConfig::default();
    assert_eq!(config.rx_buf_min_size, 4096);
    assert_eq!(config.tx_buf_min_size, 4096);
    assert_eq!(config.rx_buf_max_size.compute::<Ping>(), 8);
    assert_eq!(config.tx_buf_max_size.compute::<Ping>(), 16);
    assert_eq!(config.connect_timeout, Duration::from_secs(5));
    assert!(!config.outbound_telemetry);
}

#[test]
fn size_multiples() {
    assert!(MaxMessageSizeMultiple::new(0).is_none());
    assert_eq!(MaxMessageSizeMultiple::new(7).unwrap().compute::<Ping>(), 56);
    assert_eq!(MaxMessageSizeMultiple::four().compute::<Text>(), 128);
    assert!(MaxMessageSizeMultiple::four().fits::<Text>());
}
