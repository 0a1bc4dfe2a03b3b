//! The bounded sample queue between an audio callback and the thread that feeds or
//! drains it.
//!
//! A sample is held as its 32-bit pattern: the buffers of this library move samples
//! and never compute with them.

use ringbuf::traits::{Consumer, Observer, Producer};
use ringbuf::HeapRb;
use vstd::prelude::*;

verus! {

/// A first-in, first-out queue of samples with a fixed capacity, on a
/// `ringbuf::HeapRb`.
#[verifier::external_body]
pub struct SampleRing {
    ring: HeapRb<u32>,
}

/// The samples that a ring holds, oldest first.
pub uninterp spec fn ring_contents(ring: SampleRing) -> Seq<u32>;

/// The most samples that a ring can hold.
pub uninterp spec fn ring_capacity(ring: SampleRing) -> nat;

/// `ringbuf::HeapRb::new`: an empty ring that holds up to `capacity` samples. It panics
/// for a capacity of zero and for one whose samples exceed the address space.
#[verifier::external_body]
fn ring_new(capacity: usize) -> (ring: SampleRing)
    requires
        0 < capacity <= usize::MAX / 8,
    ensures
        ring_contents(ring) == Seq::<u32>::empty(),
        ring_capacity(ring) == capacity,
{
    SampleRing { ring: HeapRb::new(capacity) }
}

/// `ringbuf::traits::Producer::push_slice`: appends as many of the first samples as
/// there is room for, and returns how many that were.
#[verifier::external_body]
fn ring_push_slice(ring: &mut SampleRing, samples: &[u32]) -> (count: usize)
    requires
        ring_contents(*old(ring)).len() <= ring_capacity(*old(ring)),
    ensures
        count == pushable(ring_contents(*old(ring)).len(), ring_capacity(*old(ring)), samples@.len()),
        ring_contents(*final(ring)) == ring_contents(*old(ring)) + samples@.take(count as int),
        ring_capacity(*final(ring)) == ring_capacity(*old(ring)),
{
    ring.ring.push_slice(samples)
}

/// `ringbuf::traits::Consumer::pop_iter`: takes samples from the front, oldest first, until
/// the ring is empty.
#[verifier::external_body]
fn ring_pop_iter(ring: &mut SampleRing) -> (samples: Vec<u32>)
    ensures
        samples@ == ring_contents(*old(ring)),
        ring_contents(*final(ring)) == Seq::<u32>::empty(),
        ring_capacity(*final(ring)) == ring_capacity(*old(ring)),
{
    ring.ring.pop_iter().collect()
}

/// `ringbuf::traits::Consumer::pop_slice`: moves the oldest samples to the front of a
/// buffer, as many as there are or fit, and returns how many that were.
#[verifier::external_body]
fn ring_pop_slice(ring: &mut SampleRing, buffer: &mut Vec<u32>) -> (count: usize)
    ensures
        count == lesser(old(buffer)@.len(), ring_contents(*old(ring)).len()),
        final(buffer)@ == ring_contents(*old(ring)).take(count as int) + old(buffer)@.skip(
            count as int,
        ),
        ring_contents(*final(ring)) == ring_contents(*old(ring)).skip(count as int),
        ring_capacity(*final(ring)) == ring_capacity(*old(ring)),
{
    ring.ring.pop_slice(buffer.as_mut_slice())
}

/// `ringbuf::traits::Observer::occupied_len`: how many samples the ring holds.
#[verifier::external_body]
fn ring_occupied_len(ring: &SampleRing) -> (len: usize)
    ensures
        len == ring_contents(*ring).len(),
{
    ring.ring.occupied_len()
}

/// The lesser of two lengths.
pub open spec fn lesser(a: nat, b: nat) -> nat {
    if a <= b {
        a
    } else {
        b
    }
}

/// How many of `offered` samples fit into a ring that holds `held` of `capacity`.
pub open spec fn pushable(held: nat, capacity: nat, offered: nat) -> nat {
    if held <= capacity {
        lesser(offered, (capacity - held) as nat)
    } else {
        0
    }
}

impl View for SampleRing {
    type V = Seq<u32>;

    open spec fn view(&self) -> Seq<u32> {
        ring_contents(*self)
    }
}

impl SampleRing {
    /// The most samples that the ring can hold.
    pub open spec fn capacity(self) -> nat {
        ring_capacity(self)
    }

    /// A ring never holds more than its capacity, which is within the address space.
    pub open spec fn wf(self) -> bool {
        &&& self@.len() <= self.capacity()
        &&& self.capacity() <= usize::MAX / 8
    }

    /// Makes an empty ring for up to `capacity` samples.
    pub fn new(capacity: usize) -> (ring: Self)
        requires
            0 < capacity <= usize::MAX / 8,
        ensures
            ring.wf(),
            ring@ == Seq::<u32>::empty(),
            ring.capacity() == capacity,
    {
        ring_new(capacity)
    }

    /// Appends the first samples of the slice, as many as there is room for, and returns
    /// how many that were. The others are dropped by the caller.
    pub fn push_slice(&mut self, samples: &[u32]) -> (count: usize)
        requires
            old(self).wf(),
        ensures
            final(self).wf(),
            final(self).capacity() == old(self).capacity(),
            count == pushable(old(self)@.len(), old(self).capacity(), samples@.len()),
            final(self)@ == old(self)@ + samples@.take(count as int),
    {
        ring_push_slice(self, samples)
    }

    /// Takes the oldest samples, at most `limit` of them.
    pub fn pop_up_to(&mut self, limit: usize) -> (samples: Vec<u32>)
        requires
            old(self).wf(),
        ensures
            final(self).wf(),
            final(self).capacity() == old(self).capacity(),
            samples@ == old(self)@.take(lesser(limit as nat, old(self)@.len()) as int),
            final(self)@ == old(self)@.skip(samples@.len() as int),
    {
        let held: usize = ring_occupied_len(self);
        let len: usize = if limit <= held {
            limit
        } else {
            held
        };
        let mut samples: Vec<u32> = Vec::new();
        samples.resize(len, 0);
        ring_pop_slice(self, &mut samples);
        assert(samples@ =~= old(self)@.take(len as int));
        samples
    }

    /// Takes everything that the ring holds, oldest first.
    pub fn pop_all(&mut self) -> (samples: Vec<u32>)
        requires
            old(self).wf(),
        ensures
            final(self).wf(),
            final(self).capacity() == old(self).capacity(),
            samples@ == old(self)@,
            final(self)@ == Seq::<u32>::empty(),
    {
        ring_pop_iter(self)
    }

    /// Returns how many samples the ring holds.
    pub fn occupied_len(&self) -> (len: usize)
        ensures
            len == self@.len(),
    {
        ring_occupied_len(self)
    }

    /// Whether the ring holds nothing.
    pub fn is_empty(&self) -> (empty: bool)
        ensures
            empty == (self@.len() == 0),
    {
        ring_occupied_len(self) == 0
    }
}

/// A ring takes all that it is offered while there is room, never more than its room, and
/// leaves none of the room unused while something is left.
pub proof fn rings_take_what_fits(held: nat, capacity: nat, offered: nat)
    requires
        held <= capacity,
    ensures
        pushable(held, capacity, offered) <= offered,
        held + pushable(held, capacity, offered) <= capacity,
        pushable(held, capacity, offered) < offered ==> held + pushable(held, capacity, offered)
            == capacity,
        forall|a: nat, b: nat|
            #![trigger lesser(a, b)]
            lesser(a, b) <= a && lesser(a, b) <= b && (lesser(a, b) == a || lesser(a, b) == b),
{
}

} // verus!
