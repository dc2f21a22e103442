//! What the buffers ask of the standard library's growable collections beyond their contents.

use std::collections::VecDeque;

use vstd::prelude::*;

use crate::message_stream::queue_points::Point;

verus! {

/// Calls `Vec::capacity`: the number of bytes that the vector can hold without reallocating.
/// It is at least the number of bytes that the vector holds; how much larger it is, the
/// allocator decides, and nothing is said of it.
#[verifier::external_body]
pub(crate) fn bytes_capacity(bytes: &Vec<u8>) -> (capacity: usize)
    ensures
        capacity >= bytes@.len(),
{
    bytes.capacity()
}

/// Calls `Vec::shrink_to`: lowers the capacity with a lower bound. The bytes stay as they are;
/// of the capacity that remains nothing is said.
#[verifier::external_body]
pub(crate) fn bytes_shrink_to(bytes: &mut Vec<u8>, min_capacity: usize)
    ensures
        final(bytes)@ == old(bytes)@,
{
    bytes.shrink_to(min_capacity)
}

/// Calls `VecDeque::capacity`: the number of points that the queue can hold without
/// reallocating. It is at least the number of points in the queue.
#[verifier::external_body]
pub(crate) fn points_capacity(points: &VecDeque<Point>) -> (capacity: usize)
    ensures
        capacity >= points@.len(),
{
    points.capacity()
}

/// Calls `VecDeque::shrink_to`: lowers the capacity with a lower bound. The points stay as they
/// are; of the capacity that remains nothing is said.
#[verifier::external_body]
pub(crate) fn points_shrink_to(points: &mut VecDeque<Point>, min_capacity: usize)
    ensures
        final(points)@ == old(points)@,
{
    points.shrink_to(min_capacity)
}

/// The capacity that a shrinking buffer aims for: three quarters of what it has, but no less
/// than a floor. Nothing if the buffer has no more than the floor.
pub open spec fn shrink_goal(capacity: usize, floor: usize) -> Option<usize> {
    if capacity <= floor {
        None
    } else if 3 * (capacity / 4) >= floor {
        Some((3 * (capacity / 4)) as usize)
    } else {
        Some(floor)
    }
}

/// Computes the capacity that a shrinking buffer aims for.
pub fn shrink_target(capacity: usize, floor: usize) -> (target: Option<usize>)
    ensures
        target == shrink_goal(capacity, floor),
{
    if capacity > floor {
        let three_quarters: usize = 3 * (capacity / 4);
        if three_quarters >= floor {
            Some(three_quarters)
        } else {
            Some(floor)
        }
    } else {
        None
    }
}

/// A shrinking buffer never aims for less than its floor, and always for less than it has.
pub proof fn law_shrink_respects_floor(capacity: usize, floor: usize)
    ensures
        shrink_goal(capacity, floor) matches Some(target) ==> floor <= target < capacity,
        shrink_goal(capacity, floor) is None <==> capacity <= floor,
{
}

/// A shrinking buffer aims for three times a quarter of what it has, the quarter being rounded
/// down, unless that is less than its floor.
pub proof fn law_shrink_gives_up_a_quarter(capacity: usize, floor: usize, quarter: usize)
    requires
        4 * quarter <= capacity < 4 * quarter + 4,
    ensures
        shrink_goal(capacity, floor) matches Some(target) ==> target == vstd::math::max(
            3 * quarter,
            floor as int,
        ),
{
}

} // verus!
