//! The ring buffer that the capture queue is built on.
//!
//! Everything in this file is taken on trust: the ring is `ringbuf`'s
//! `HeapRb`, and the contracts below say what its methods do to a ring that
//! one owner holds whole, with no producer or consumer split off.

use vstd::prelude::*;
use ringbuf::traits::{Consumer, Observer, Producer};
use ringbuf::HeapRb;

verus! {

/// A `ringbuf::HeapRb` of sample bit patterns.
#[verifier::external_body]
pub struct SampleRing {
    ring: HeapRb<u32>,
}

/// The items that a ring holds, oldest first.
pub uninterp spec fn ring_items(ring: SampleRing) -> Seq<u32>;

/// The number of items that a ring was made to hold.
pub uninterp spec fn ring_capacity(ring: SampleRing) -> nat;

/// `HeapRb::new`: an empty ring of the given capacity. The capacity must not
/// be zero, and the storage must not exceed the largest allocation.
#[verifier::external_body]
pub(crate) fn ring_new(capacity: usize) -> (ring: SampleRing)
    requires
        0 < capacity,
        capacity * 4 <= isize::MAX,
    ensures
        ring_items(ring) == Seq::<u32>::empty(),
        ring_capacity(ring) == capacity,
{
    SampleRing { ring: HeapRb::<u32>::new(capacity) }
}

/// `Observer::occupied_len`: the number of items in the ring, which never
/// exceeds its capacity.
#[verifier::external_body]
pub(crate) fn ring_occupied_len(ring: &SampleRing) -> (n: usize)
    ensures
        n == ring_items(*ring).len(),
        n <= ring_capacity(*ring),
{
    ring.ring.occupied_len()
}

/// `Producer::try_push`: appends the item unless the ring is full, in which
/// case the ring is left as it was. Says whether the item went in. Never
/// panics.
#[verifier::external_body]
pub(crate) fn ring_try_push(ring: &mut SampleRing, item: u32) -> (pushed: bool)
    ensures
        ring_capacity(*final(ring)) == ring_capacity(*old(ring)),
        pushed == (ring_items(*old(ring)).len() < ring_capacity(*old(ring))),
        pushed ==> ring_items(*final(ring)) == ring_items(*old(ring)).push(item),
        !pushed ==> ring_items(*final(ring)) == ring_items(*old(ring)),
    no_unwind
{
    ring.ring.try_push(item).is_ok()
}

/// `Consumer::pop_slice`: moves the oldest items of the ring into the front
/// of `out`, as many as the ring holds and `out` has room for, and returns
/// their number. The rest of `out` is left as it was. Never panics.
#[verifier::external_body]
pub(crate) fn ring_pop_slice(ring: &mut SampleRing, out: &mut Vec<u32>) -> (count: usize)
    ensures
        ring_capacity(*final(ring)) == ring_capacity(*old(ring)),
        count <= old(out)@.len(),
        count <= ring_items(*old(ring)).len(),
        count == old(out)@.len() || count == ring_items(*old(ring)).len(),
        ring_items(*final(ring)) == ring_items(*old(ring)).skip(count as int),
        final(out)@ == ring_items(*old(ring)).take(count as int) + old(out)@.skip(count as int),
    no_unwind
{
    ring.ring.pop_slice(out.as_mut_slice())
}

} // verus!
