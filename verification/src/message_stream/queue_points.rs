//! Tracks the points in time at which messages of certain sizes were queued. This allows the
//! consumer to tell how long ago the oldest unsent message was queued and how many of its bytes
//! are yet to be sent.

use std::collections::VecDeque;

use vstd::prelude::*;

use crate::std_vec::{points_capacity, points_shrink_to, shrink_target};
use crate::time::Instant;

verus! {

/// A queue never shrinks below this many points.
pub const MIN_CAPACITY: usize = 8;

/// A single queue point: a point in time and the number of bytes left to be sent.
#[derive(Debug, Clone, Copy)]
pub struct Point {
    /// When the message was queued.
    pub time: Instant,
    /// How many of its bytes are yet to be sent.
    pub left: usize,
}

/// The number of bytes left over all points.
pub open spec fn total_left(points: Seq<Point>) -> nat
    decreases points.len(),
{
    if points.len() == 0 {
        0
    } else {
        points[0].left as nat + total_left(points.skip(1))
    }
}

/// Whether every point has bytes left to be sent.
pub open spec fn all_unsent(points: Seq<Point>) -> bool {
    forall|i: int| 0 <= i < points.len() ==> (#[trigger] points[i]).left > 0
}

/// What is left of the points once `n` bytes went out, oldest point first. A point whose last
/// byte went out is gone, and so is an empty point that the write came across.
pub open spec fn after_write(points: Seq<Point>, n: nat) -> Seq<Point>
    decreases points.len(),
{
    if points.len() == 0 {
        points
    } else if n < points[0].left {
        points.update(0, Point { time: points[0].time, left: (points[0].left - n) as usize })
    } else if n == points[0].left {
        points.skip(1)
    } else {
        after_write(points.skip(1), (n - points[0].left) as nat)
    }
}

/// A write takes as many bytes off the queue points as it sent, and leaves the youngest points
/// as they were: only the oldest of those that stay can have fewer bytes left. Points that were
/// sent as a whole do not stay.
pub proof fn law_write_takes_bytes(points: Seq<Point>, n: nat)
    requires
        n <= total_left(points),
    ensures
        total_left(after_write(points, n)) == total_left(points) - n,
        after_write(points, n).len() <= points.len(),
        forall|i: int|
            1 <= i < after_write(points, n).len() ==> #[trigger] after_write(points, n)[i]
                == points[points.len() - after_write(points, n).len() + i],
        after_write(points, n).len() > 0 ==> after_write(points, n)[0].time == points[points.len()
            - after_write(points, n).len()].time,
        all_unsent(points) ==> all_unsent(after_write(points, n)),
    decreases points.len(),
{
    if points.len() > 0 {
        let rest = points.skip(1);
        if n < points[0].left {
            assert(after_write(points, n).skip(1) =~= rest);
        } else if n > points[0].left {
            law_write_takes_bytes(rest, (n - points[0].left) as nat);
        }
    }
}

/// A write of no bytes leaves the points as they were.
pub proof fn lemma_empty_write(points: Seq<Point>)
    requires
        all_unsent(points),
    ensures
        after_write(points, 0) == points,
{
    assert(after_write(points, 0) =~= points);
}

/// It makes no difference whether bytes go out at once or in two writes.
pub proof fn law_writes_add_up(points: Seq<Point>, first: nat, second: nat)
    requires
        all_unsent(points),
        first + second <= total_left(points),
    ensures
        after_write(after_write(points, first), second) == after_write(points, first + second),
    decreases points.len(),
{
    if points.len() > 0 {
        let left = points[0].left as nat;
        let rest = points.skip(1);
        let once = after_write(points, first);
        if first < left {
            assert(once.skip(1) =~= rest);
            assert(after_write(once, second) =~= after_write(points, first + second));
        } else if first == left {
            lemma_empty_write(rest);
        } else {
            law_writes_add_up(rest, (first - left) as nat, second);
        }
    }
}

/// It makes no difference whether a message is queued before or after others were written.
pub proof fn law_append_and_write_commute(points: Seq<Point>, point: Point, n: nat)
    requires
        all_unsent(points),
        point.left > 0,
        n <= total_left(points),
    ensures
        after_write(points.push(point), n) == after_write(points, n).push(point),
    decreases points.len(),
{
    let more = points.push(point);
    if points.len() > 0 {
        assert(more.skip(1) =~= points.skip(1).push(point));
        if n > points[0].left {
            law_append_and_write_commute(points.skip(1), point, (n - points[0].left) as nat);
        }
    }
    assert(after_write(more, n) =~= after_write(points, n).push(point));
}

/// The point that the byte at a certain position belongs to.
pub open spec fn holder(points: Seq<Point>, position: nat) -> Point
    recommends
        position < total_left(points),
    decreases points.len(),
{
    if points.len() == 0 || position < points[0].left {
        points[0]
    } else {
        holder(points.skip(1), (position - points[0].left) as nat)
    }
}

/// Once some bytes went out, the oldest point is the one that the next byte belongs to.
pub proof fn law_oldest_point_holds_next_byte(points: Seq<Point>, n: nat)
    requires
        all_unsent(points),
        n < total_left(points),
    ensures
        after_write(points, n).len() > 0,
        after_write(points, n)[0].time == holder(points, n).time,
    decreases points.len(),
{
    if n >= points[0].left {
        let rest = points.skip(1);
        assert(total_left(rest) > 0);
        assert(rest.len() > 0);
        if n > points[0].left {
            law_oldest_point_holds_next_byte(rest, (n - points[0].left) as nat);
        } else {
            assert(rest[0].left > 0);
            assert(holder(rest, 0) == rest[0]);
        }
    }
}

/// Queueing a message of some size adds that many bytes to the queue points.
pub proof fn law_append_adds_bytes(points: Seq<Point>, point: Point)
    ensures
        total_left(points.push(point)) == total_left(points) + point.left,
    decreases points.len(),
{
    reveal_with_fuel(total_left, 2);
    if points.len() > 0 {
        law_append_adds_bytes(points.skip(1), point);
        assert(points.push(point).skip(1) =~= points.skip(1).push(point));
    } else {
        assert(points.push(point).skip(1) =~= points);
    }
}

/// A list of queue points, from oldest to newest.
#[derive(Debug)]
pub struct Queue(pub VecDeque<Point>);

impl View for Queue {
    type V = Seq<Point>;

    open spec fn view(&self) -> Seq<Point> {
        self.0@
    }
}

impl Default for Queue {
    fn default() -> (queue: Self)
        ensures
            queue@ == Seq::<Point>::empty(),
    {
        Queue(VecDeque::new())
    }
}

impl Queue {
    /// Handles a write event.
    pub fn mark_write(&mut self, n_written: usize)
        requires
            n_written <= total_left(old(self)@),
        ensures
            final(self)@ == after_write(old(self)@, n_written as nat),
    {
        let mut n_bytes_left: usize = n_written;
        loop
            invariant
                n_bytes_left <= total_left(self@),
                after_write(self@, n_bytes_left as nat) == after_write(
                    old(self)@,
                    n_written as nat,
                ),
            decreases self@.len(),
        {
            match self.0.pop_front() {
                Some(point) => {
                    if n_bytes_left < point.left {
                        let left: usize = point.left - n_bytes_left;
                        self.0.push_front(Point { time: point.time, left });
                        return ;
                    }
                    if n_bytes_left == point.left {
                        return ;
                    }
                    n_bytes_left = n_bytes_left - point.left;
                },
                None => {
                    return ;
                },
            }
        }
    }

    /// Appends a new queue point of a certain size.
    pub fn append(&mut self, size: usize, now: Instant)
        ensures
            final(self)@ == old(self)@.push(Point { time: now, left: size }),
    {
        self.0.push_back(Point { time: now, left: size });
    }

    /// Returns the creation instant of the first queue point, if any.
    pub fn first(&self) -> (time: Option<Instant>)
        ensures
            time == (if self@.len() == 0 {
                None
            } else {
                Some(self@[0].time)
            }),
    {
        if self.0.len() == 0 {
            None
        } else {
            Some(self.0[0].time)
        }
    }

    /// Shrinks the capacity of the queue by 1/4, floored at [`MIN_CAPACITY`]. The points stay as
    /// they are. How much capacity the queue keeps, the allocator decides.
    pub fn shrink(&mut self)
        ensures
            final(self)@ == old(self)@,
    {
        match shrink_target(points_capacity(&self.0), MIN_CAPACITY) {
            Some(target) => points_shrink_to(&mut self.0, target),
            None => {},
        }
    }
}

} // verus!
