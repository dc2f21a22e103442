//! A contiguous view over two disjointed slices.

use vstd::prelude::*;

verus! {

/// A lightweight wrapper that logically concatenates two byte slices into a single readable
/// stream without allocation.
pub struct SpannedView<'a> {
    a: &'a [u8],
    b: &'a [u8],
    cursor: usize,
}

impl<'a> View for SpannedView<'a> {
    type V = Seq<u8>;

    /// The bytes that have not been read yet.
    open spec fn view(&self) -> Seq<u8> {
        (self.first_span() + self.second_span()).skip(self.consumed() as int)
    }
}

impl<'a> SpannedView<'a> {
    /// The bytes of the first slice.
    pub closed spec fn first_span(&self) -> Seq<u8> {
        self.a@
    }

    /// The bytes of the second slice.
    pub closed spec fn second_span(&self) -> Seq<u8> {
        self.b@
    }

    /// How many bytes have been read.
    pub closed spec fn consumed(&self) -> nat {
        self.cursor as nat
    }

    /// The two slices can be counted together, and no more was read than they hold.
    pub open spec fn wf(&self) -> bool {
        &&& self.first_span().len() + self.second_span().len() <= usize::MAX
        &&& self.consumed() <= self.first_span().len() + self.second_span().len()
    }

    /// Whether this is a view over the same two slices as another one.
    pub open spec fn same_spans(&self, other: &SpannedView<'a>) -> bool {
        &&& self.first_span() == other.first_span()
        &&& self.second_span() == other.second_span()
    }

    /// Creates a view over two slices, none of which has been read.
    pub fn new(a: &'a [u8], b: &'a [u8]) -> (view: Self)
        requires
            a@.len() + b@.len() <= usize::MAX,
        ensures
            view.wf(),
            view.first_span() == a@,
            view.second_span() == b@,
            view.consumed() == 0,
            view@ == a@ + b@,
    {
        let view = SpannedView { a, b, cursor: 0 };
        assert(view@ =~= a@ + b@);
        view
    }
}

impl<'a> bytes::Buf for SpannedView<'a> {
    /// Returns how many bytes have not been read yet.
    fn remaining(&self) -> (n: usize)
        requires
            self.wf(),
        ensures
            n == self@.len(),
    {
        (self.a.len() + self.b.len()) - self.cursor
    }

    /// Returns the unread bytes up to the end of the slice that the next byte lies in.
    fn chunk(&self) -> (chunk: &[u8])
        requires
            self.wf(),
        ensures
            chunk@ == (if self.consumed() < self.first_span().len() {
                self.first_span().skip(self.consumed() as int)
            } else {
                self.second_span().skip(self.consumed() - self.first_span().len())
            }),
            chunk@ == self@.take(chunk@.len() as int),
            chunk@.len() == 0 ==> self@.len() == 0,
    {
        let chunk = if self.cursor < self.a.len() {
            vstd::slice::slice_subrange(self.a, self.cursor, self.a.len())
        } else {
            let b_cursor: usize = self.cursor - self.a.len();
            vstd::slice::slice_subrange(self.b, b_cursor, self.b.len())
        };
        assert(chunk@ =~= self@.take(chunk@.len() as int));
        chunk
    }

    /// Consumes bytes.
    fn advance(&mut self, cnt: usize)
        requires
            old(self).wf(),
            cnt <= old(self)@.len(),
        ensures
            final(self).wf(),
            final(self).same_spans(old(self)),
            final(self).consumed() == old(self).consumed() + cnt,
            final(self)@ == old(self)@.skip(cnt as int),
    {
        self.cursor = self.cursor + cnt;
        assert(self@ =~= old(self)@.skip(cnt as int));
    }
}

} // verus!
