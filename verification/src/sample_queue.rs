//! The samples between the decoder and the device, first in, first out.

use crate::sample_encoding::{
    clean_block, cleaned_block, holds_marker, marker_position, samples_to_read,
    samples_to_read_spec, EOS_MARKER_BITS,
};
use ringbuf::traits::{Consumer, Observer, Producer};
use ringbuf::HeapRb;
use vstd::prelude::*;

verus! {

/// A `ringbuf::HeapRb` of samples, carried as it is.
#[verifier::external_body]
pub struct SampleRing {
    ring: HeapRb<u64>,
}

/// The items of a ring buffer, the oldest first.
pub uninterp spec fn ring_items(ring: SampleRing) -> Seq<u64>;

/// How many items a ring buffer holds at most.
pub uninterp spec fn ring_capacity(ring: SampleRing) -> nat;

/// Calls `ringbuf::HeapRb::new`: a ring buffer for `capacity` items that holds none.
#[verifier::external_body]
fn ring_new(capacity: usize) -> (r: SampleRing)
    requires
        0 < capacity,
        capacity * 8 <= isize::MAX,
    ensures
        ring_items(r) == Seq::<u64>::empty(),
        ring_capacity(r) == capacity,
{
    SampleRing { ring: HeapRb::new(capacity) }
}

/// Calls `ringbuf::traits::Observer::vacant_len`: the free places.
#[verifier::external_body]
fn ring_vacant(ring: &SampleRing) -> (r: usize)
    ensures
        r + ring_items(*ring).len() == ring_capacity(*ring),
{
    ring.ring.vacant_len()
}

/// Calls `ringbuf::traits::Observer::occupied_len`: the number of items.
#[verifier::external_body]
fn ring_occupied(ring: &SampleRing) -> (r: usize)
    ensures
        r == ring_items(*ring).len(),
{
    ring.ring.occupied_len()
}

/// Calls `ringbuf::traits::Consumer::as_slices`: the items, in two parts.
#[verifier::external_body]
fn ring_slices(ring: &SampleRing) -> (r: (&[u64], &[u64]))
    ensures
        r.0@ + r.1@ == ring_items(*ring),
{
    ring.ring.as_slices()
}

/// Calls `ringbuf::traits::Producer::push_slice`: appends as many items as there is
/// room for, and returns how many.
#[verifier::external_body]
fn ring_push(ring: &mut SampleRing, items: &[u64]) -> (r: usize)
    ensures
        r <= items@.len(),
        ring_items(*final(ring)) == ring_items(*old(ring)) + items@.take(r as int),
        ring_capacity(*final(ring)) == ring_capacity(*old(ring)),
        r < items@.len() ==> ring_items(*final(ring)).len() == ring_capacity(*final(ring)),
        ring_items(*final(ring)).len() <= ring_capacity(*final(ring)),
{
    ring.ring.push_slice(items)
}

/// Calls `ringbuf::traits::Consumer::pop_slice`: moves the oldest items to the start
/// of `out`, as many as there are and as it has room for, and returns how many.
#[verifier::external_body]
fn ring_pop(ring: &mut SampleRing, out: &mut [u64]) -> (r: usize)
    ensures
        r == (if ring_items(*old(ring)).len() <= old(out)@.len() {
            ring_items(*old(ring)).len()
        } else {
            old(out)@.len()
        }),
        final(out)@ == ring_items(*old(ring)).take(r as int) + old(out)@.skip(r as int),
        ring_items(*final(ring)) == ring_items(*old(ring)).skip(r as int),
        ring_capacity(*final(ring)) == ring_capacity(*old(ring)),
{
    ring.ring.pop_slice(out)
}

/// Calls `ringbuf::traits::Consumer::clear`: takes every item out.
#[verifier::external_body]
fn ring_clear(ring: &mut SampleRing)
    ensures
        ring_items(*final(ring)) == Seq::<u64>::empty(),
        ring_capacity(*final(ring)) == ring_capacity(*old(ring)),
{
    ring.ring.clear();
}

/// How many samples wait at most: fifteen seconds of two channels at the highest
/// rate.
pub const RING_BUFFER_CAPACITY: usize = 11_520_000;

/// The samples between the decoder and the device. One thread at a time holds it.
pub struct SampleQueue {
    pub ring: SampleRing,
}

/// The samples of a block that was taken.
#[derive(Clone, Copy, PartialEq, Eq, Structural, Debug)]
pub struct BlockRead {
    /// How many samples left the queue.
    pub read: usize,
    /// How many of them stand before the end of the track.
    pub valid: usize,
    /// Whether the track ends in the block.
    pub ended: bool,
}

impl View for SampleQueue {
    type V = Seq<u64>;

    open spec fn view(&self) -> Seq<u64> {
        ring_items(self.ring)
    }
}

/// How many samples a block takes from those that wait.
pub open spec fn taken_samples(waiting: Seq<u64>, needed: int) -> int {
    samples_to_read_spec(waiting.len() as int, needed, waiting.contains(EOS_MARKER_BITS))
}

impl SampleQueue {
    /// How many samples wait at most.
    pub open spec fn capacity(&self) -> nat {
        ring_capacity(self.ring)
    }

    /// No more samples wait than there is room for.
    pub open spec fn wf(&self) -> bool {
        self@.len() <= self.capacity() <= usize::MAX
    }

    /// A queue for `capacity` samples.
    pub fn new(capacity: usize) -> (r: SampleQueue)
        requires
            0 < capacity,
            capacity * 8 <= isize::MAX,
        ensures
            r.wf(),
            r.capacity() == capacity,
            r@ == Seq::<u64>::empty(),
    {
        SampleQueue { ring: ring_new(capacity) }
    }

    /// The room that is left.
    pub fn vacant(&self) -> (r: usize)
        ensures
            r == self.capacity() - self@.len(),
    {
        ring_vacant(&self.ring)
    }

    /// How many samples wait.
    pub fn occupied(&self) -> (r: usize)
        ensures
            r == self@.len(),
    {
        ring_occupied(&self.ring)
    }

    /// Appends the samples from place `from` on, as many as there is room for, and
    /// returns the place of the first that was left.
    pub fn push_from(&mut self, samples: &Vec<u64>, from: usize) -> (r: usize)
        requires
            old(self).wf(),
            from <= samples@.len(),
        ensures
            final(self).wf(),
            final(self).capacity() == old(self).capacity(),
            from <= r <= samples@.len(),
            final(self)@ == old(self)@ + samples@.subrange(from as int, r as int),
            r < samples@.len() ==> final(self)@.len() == final(self).capacity(),
    {
        let rest = vstd::slice::slice_subrange(samples.as_slice(), from, samples.len());
        let n: usize = ring_push(&mut self.ring, rest);
        assert(rest@.take(n as int) =~= samples@.subrange(from as int, from + n));
        from + n
    }

    /// Appends the mark of the end of a track for one channel, where there is room.
    pub fn push_marker(&mut self) -> (r: bool)
        requires
            old(self).wf(),
        ensures
            final(self).wf(),
            final(self).capacity() == old(self).capacity(),
            r == (old(self)@.len() < old(self).capacity()),
            r ==> final(self)@ == old(self)@.push(EOS_MARKER_BITS),
            !r ==> final(self)@ == old(self)@,
    {
        let mark: [u64; 1] = [EOS_MARKER_BITS];
        let n: usize = ring_push(&mut self.ring, &mark);
        proof {
            if n == 0 {
                assert(mark@.take(0) =~= Seq::<u64>::empty());
                assert(self@ =~= old(self)@);
            } else {
                assert(mark@.take(1) =~= seq![EOS_MARKER_BITS]);
                assert(self@ =~= old(self)@.push(EOS_MARKER_BITS));
            }
        }
        n == 1
    }

    /// Whether the end of the track waits.
    pub fn holds_end(&self) -> (r: bool)
        ensures
            r == self@.contains(EOS_MARKER_BITS),
    {
        let (left, right) = ring_slices(&self.ring);
        let in_left: bool = holds_marker(left);
        let in_right: bool = holds_marker(right);
        proof {
            let all = left@ + right@;
            if in_left {
                let i = choose|i: int| 0 <= i < left@.len() && left@[i] == EOS_MARKER_BITS;
                assert(all[i] == EOS_MARKER_BITS);
            }
            if in_right {
                let i = choose|i: int| 0 <= i < right@.len() && right@[i] == EOS_MARKER_BITS;
                assert(all[left@.len() + i] == EOS_MARKER_BITS);
            }
            if all.contains(EOS_MARKER_BITS) {
                let i = choose|i: int| 0 <= i < all.len() && all[i] == EOS_MARKER_BITS;
                if i < left@.len() {
                    assert(left@[i] == EOS_MARKER_BITS);
                } else {
                    assert(right@[i - left@.len()] == EOS_MARKER_BITS);
                }
            }
        }
        in_left || in_right
    }

    /// Takes a block of `needed` samples. Where fewer wait, none are taken unless the
    /// track ends with them. What stands in `block` behind the end of the track, or
    /// is no number, becomes silence; without samples it stays as it is.
    pub fn read_block(&mut self, block: &mut Vec<u64>, needed: usize) -> (r: BlockRead)
        requires
            old(self).wf(),
            old(block)@.len() == needed,
        ensures
            final(self).wf(),
            final(self).capacity() == old(self).capacity(),
            r.read == taken_samples(old(self)@, needed as int),
            final(self)@ == old(self)@.skip(r.read as int),
            r.valid == marker_position(old(self)@.take(r.read as int)),
            r.ended == old(self)@.take(r.read as int).contains(EOS_MARKER_BITS),
            r.read > 0 ==> final(block)@ == cleaned_block(
                old(self)@.take(r.read as int) + old(block)@.skip(r.read as int),
                r.read as int,
                needed as int,
            ),
            r.read == 0 ==> final(block)@ == old(block)@,
    {
        let available: usize = self.occupied();
        let ended: bool = self.holds_end();
        let read: usize = samples_to_read(available, needed, ended);
        let ghost waiting = self@;
        if read == 0 {
            assert(waiting.skip(0) =~= waiting);
            return BlockRead { read: 0, valid: 0, ended: false };
        }
        let mut taken: Vec<u64> = Vec::new();
        taken.resize(read, 0);
        let _n: usize = ring_pop(&mut self.ring, taken.as_mut_slice());
        assert(taken@ =~= waiting.take(read as int));
        let mut i: usize = 0;
        while i < read
            invariant
                i <= read <= needed,
                block@.len() == needed,
                taken@.len() == read,
                block@ == taken@.take(i as int) + old(block)@.skip(i as int),
                old(block)@.len() == needed,
            decreases read - i,
        {
            block.set(i, taken[i]);
            i += 1;
            assert(block@ =~= taken@.take(i as int) + old(block)@.skip(i as int));
        }
        let ghost filled = block@;
        assert(filled =~= waiting.take(read as int) + old(block)@.skip(read as int));
        let (valid, hit) = clean_block(block, read, needed);
        assert(filled.take(read as int) =~= waiting.take(read as int));
        BlockRead { read, valid, ended: hit }
    }

    /// Takes every sample out.
    pub fn clear(&mut self)
        requires
            old(self).wf(),
        ensures
            final(self).wf(),
            final(self).capacity() == old(self).capacity(),
            final(self)@ == Seq::<u64>::empty(),
    {
        ring_clear(&mut self.ring);
    }
}

/// Samples leave the queue in the order in which they came.
pub proof fn law_samples_keep_their_order(waiting: Seq<u64>, pushed: Seq<u64>, needed: int)
    requires
        0 <= needed <= waiting.len() + pushed.len(),
    ensures
        taken_samples(waiting + pushed, needed) == needed,
        needed <= waiting.len() ==> (waiting + pushed).take(needed) == waiting.take(needed),
        needed >= waiting.len() ==> (waiting + pushed).take(needed) == waiting + pushed.take(
            needed - waiting.len(),
        ),
{
    if needed <= waiting.len() {
        assert((waiting + pushed).take(needed) =~= waiting.take(needed));
    }
    if needed >= waiting.len() {
        assert((waiting + pushed).take(needed) =~= waiting + pushed.take(needed - waiting.len()));
    }
}

/// A block that waits for more samples is not cut short, unless the track ends.
pub proof fn law_block_is_whole_until_the_end(waiting: Seq<u64>, needed: int)
    requires
        0 <= needed,
        !waiting.contains(EOS_MARKER_BITS),
    ensures
        taken_samples(waiting, needed) == 0 || taken_samples(waiting, needed) == needed,
{
}

/// What is left at the end of a track is read, marker and all; before the end nothing is
/// read that does not fill a block.
pub proof fn law_end_of_the_track_is_read(waiting: Seq<u64>, needed: int)
    requires
        0 <= needed,
    ensures
        waiting.len() >= needed ==> taken_samples(waiting, needed) == needed,
        waiting.len() < needed && waiting.contains(EOS_MARKER_BITS) ==> taken_samples(
            waiting,
            needed,
        ) == waiting.len(),
        waiting.len() < needed && !waiting.contains(EOS_MARKER_BITS) ==> taken_samples(
            waiting,
            needed,
        ) == 0,
{
}

} // verus!
