//! A byte buffer that is filled at its tail and read at its head.

use vstd::prelude::*;

use crate::message::Sink;
use crate::std_vec::{bytes_capacity, bytes_shrink_to, shrink_target};

verus! {

/// How many bytes a full buffer reserves before it takes in more.
pub const RESERVE: usize = 64;

/// A buffer implementation that enables multiple, individual reads to happen without having
/// to clear the read data from the head. This can be done lazily when opportune instead.
#[derive(Debug)]
pub struct ShiftBuf {
    /// All bytes in the buffer, those that were read already included.
    pub buf: Vec<u8>,
    /// How many bytes at the head were read already.
    pub cursor: usize,
}

impl View for ShiftBuf {
    type V = Seq<u8>;

    /// The bytes that have not been read yet.
    open spec fn view(&self) -> Seq<u8> {
        self.buf@.skip(self.cursor as int)
    }
}

impl Default for ShiftBuf {
    fn default() -> (buffer: Self)
        ensures
            buffer.wf(),
            buffer.buf@ == Seq::<u8>::empty(),
            buffer@ == Seq::<u8>::empty(),
    {
        ShiftBuf { buf: Vec::new(), cursor: 0 }
    }
}

impl ShiftBuf {
    /// The read cursor never runs past the end of the buffer.
    pub open spec fn wf(&self) -> bool {
        self.cursor <= self.buf@.len()
    }

    /// Whether the bytes that were read already take up more than one third of the buffer.
    pub open spec fn mostly_read(&self) -> bool {
        3 * self.cursor > self.buf@.len()
    }

    /// Returns the view of data that has not been read yet.
    pub fn data(&self) -> (data: &[u8])
        requires
            self.wf(),
        ensures
            data@ == self@,
    {
        vstd::slice::slice_subrange(self.buf.as_slice(), self.cursor, self.buf.len())
    }

    /// Returns the length of the data that has not been read yet.
    pub fn len(&self) -> (len: usize)
        requires
            self.wf(),
        ensures
            len == self@.len(),
    {
        self.buf.len() - self.cursor
    }

    /// Returns whether all data has been read.
    pub fn is_empty(&self) -> (empty: bool)
        requires
            self.wf(),
        ensures
            empty == (self@.len() == 0),
    {
        self.len() == 0
    }

    /// Advances the read cursor forward, consuming bytes. No byte moves.
    pub fn advance(&mut self, n: usize)
        requires
            old(self).wf(),
            n <= old(self)@.len(),
        ensures
            final(self).wf(),
            final(self)@ == old(self)@.skip(n as int),
            final(self).buf@ == old(self).buf@,
            final(self).cursor == old(self).cursor + n,
    {
        assert(self.cursor + n <= self.buf.len());
        self.cursor = self.cursor + n;
    }

    /// Clears the entire buffer and resets the read cursor.
    pub fn clear(&mut self)
        ensures
            final(self).wf(),
            final(self)@ == Seq::<u8>::empty(),
            final(self).buf@ == Seq::<u8>::empty(),
            final(self).cursor == 0,
    {
        self.buf.clear();
        self.cursor = 0;
    }

    /// Moves the yet unread data forward, discarding any previously read data.
    /// This operation only has an effect if the "junk" (already consumed) data takes up more
    /// than one third of space in the buffer.
    pub fn smart_shift(&mut self)
        requires
            old(self).wf(),
        ensures
            final(self).wf(),
            final(self)@ == old(self)@,
            old(self).mostly_read() ==> final(self).buf@ == old(self)@ && final(self).cursor == 0,
            !old(self).mostly_read() ==> final(self).buf@ == old(self).buf@ && final(self).cursor
                == old(self).cursor,
            3 * old(self).cursor > old(self).buf@.len() ==> final(self).cursor == 0,
            3 * old(self).cursor <= old(self).buf@.len() ==> final(self).cursor == old(
                self).cursor,
    {
        if self.cursor > self.buf.len() / 3 {
            self.shift();
        }
    }

    /// Shrinks the buffer by one quarter, with respect to some floor. Already consumed data is
    /// discarded first.
    pub fn shrink(&mut self, min: usize)
        requires
            old(self).wf(),
        ensures
            final(self).wf(),
            final(self)@ == old(self)@,
            final(self).cursor == 0,
    {
        if self.cursor > 0 {
            self.shift();
        }
        match shrink_target(bytes_capacity(&self.buf), min) {
            Some(target) => bytes_shrink_to(&mut self.buf, target),
            None => {},
        }
    }

    /// Appends data at the tail.
    pub fn put(&mut self, data: &[u8])
        requires
            old(self).wf(),
        ensures
            final(self).wf(),
            final(self)@ == old(self)@ + data@,
            final(self).buf@ == old(self).buf@ + data@,
            final(self).cursor == old(self).cursor,
    {
        self.buf.extend_from_slice(data);
        assert(self.buf@ =~= old(self).buf@ + data@);
        assert(self@ =~= old(self)@ + data@);
    }

    /// Moves the yet unread data forward, discarding any previously read data.
    pub fn shift(&mut self)
        requires
            old(self).wf(),
        ensures
            final(self).wf(),
            final(self)@ == old(self)@,
            final(self).buf@ == old(self)@,
            final(self).cursor == 0,
    {
        let unread: usize = self.buf.len() - self.cursor;
        let mut i: usize = 0;
        while i < unread
            invariant
                i <= unread,
                old(self).wf(),
                self.cursor == old(self).cursor,
                unread == old(self)@.len(),
                self.cursor + unread == self.buf.len(),
                self.buf@.len() == old(self).buf@.len(),
                forall|k: int| 0 <= k < i ==> self.buf@[k] == old(self)@[k],
                forall|k: int| i <= k < self.buf@.len() ==> self.buf@[k] == old(self).buf@[k],
            decreases unread - i,
        {
            let byte: u8 = self.buf[self.cursor + i];
            self.buf[i] = byte;
            i = i + 1;
        }
        self.buf.truncate(unread);
        self.cursor = 0;
        assert(self.buf@ =~= old(self)@);
        assert(self@ =~= old(self)@);
    }
}

impl Sink for ShiftBuf {
    open spec fn open(&self) -> bool {
        self.wf()
    }

    open spec fn written(&self) -> Seq<u8> {
        self@
    }

    /// Appends data at the tail, after making room where much of the buffer was read already.
    fn put_slice(&mut self, data: &[u8])
        ensures
            final(self).buf@ == (if old(self).mostly_read() {
                old(self)@
            } else {
                old(self).buf@
            }) + data@,
            final(self).cursor == (if old(self).mostly_read() {
                0
            } else {
                old(self).cursor
            }),
    {
        self.smart_shift();
        if self.buf.len() == bytes_capacity(&self.buf) {
            self.buf.reserve(RESERVE);
        }
        self.put(data);
    }
}

/// Room is made in a buffer exactly if more than a third of its bytes were read already.
pub proof fn law_room_is_made_past_one_third(buffer: ShiftBuf)
    requires
        buffer.wf(),
    ensures
        buffer.mostly_read() <==> 3 * (buffer.buf@.len() - buffer@.len()) > buffer.buf@.len(),
        buffer.buf@ == buffer.buf@.take(buffer.cursor as int) + buffer@,
{
    assert(buffer.buf@ =~= buffer.buf@.take(buffer.cursor as int) + buffer@);
}

} // verus!
