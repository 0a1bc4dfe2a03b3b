//! Hearing oneself: what is recorded goes through the processor and is played back.

use vstd::prelude::*;

use crate::audio::play::passes_through;
use crate::audio::record::{capture_ring, filled, Overrun};
use crate::audio::{opus_params, DURATION_10MS};
use crate::frames::{each_done, framed, joined, process_each, take_frames};
use crate::ring::{lesser, SampleRing};

verus! {

/// Makes the ring between the two devices.
pub fn feedback_ring() -> (ring: SampleRing)
    ensures
        ring.wf(),
        ring@ == Seq::<u32>::empty(),
        ring.capacity() == 15360,
{
    capture_ring(&opus_params())
}

/// The warnings for frames that are pushed into a ring one after the other, where a push is
/// held against the number of samples that came in.
pub open spec fn shortfalls(
    held: nat,
    capacity: nat,
    frames: Seq<Vec<u32>>,
    came_in: nat,
) -> Seq<Overrun>
    decreases frames.len(),
{
    if frames.len() == 0 {
        Seq::empty()
    } else {
        let before = shortfalls(held, capacity, frames.drop_last(), came_in);
        let pushed = filled(held, capacity, frames) - filled(held, capacity, frames.drop_last());
        if pushed < came_in {
            before.push(Overrun { missing: (came_in - pushed) as usize, len: came_in as usize })
        } else {
            before
        }
    }
}

fn push_measured(ring: &mut SampleRing, frames: &Vec<Vec<u32>>, came_in: usize) -> (warnings: Vec<
    Overrun,
>)
    requires
        old(ring).wf(),
    ensures
        final(ring).wf(),
        final(ring).capacity() == old(ring).capacity(),
        final(ring)@ == (old(ring)@ + joined(frames@)).take(
            filled(old(ring)@.len(), old(ring).capacity(), frames@) as int,
        ),
        warnings@ == shortfalls(old(ring)@.len(), old(ring).capacity(), frames@, came_in as nat),
{
    let mut warnings: Vec<Overrun> = Vec::new();
    let mut next: usize = 0;
    let ghost held = ring@;
    let ghost capacity = ring.capacity();
    assert(joined(frames@.take(0)) =~= Seq::<u32>::empty());
    assert(held + Seq::<u32>::empty() =~= held);
    assert(held.take(held.len() as int) =~= held);
    while next < frames.len()
        invariant
            next <= frames@.len(),
            held.len() <= capacity,
            ring.wf(),
            ring.capacity() == capacity,
            ring@ == (held + joined(frames@.take(next as int))).take(
                filled(held.len(), capacity, frames@.take(next as int)) as int,
            ),
            warnings@ == shortfalls(
                held.len(),
                capacity,
                frames@.take(next as int),
                came_in as nat,
            ),
        decreases frames@.len() - next,
    {
        let ghost few = frames@.take(next as int);
        let ghost more = frames@.take(next + 1);
        assert(more.drop_last() =~= few);
        assert(joined(more) == joined(few) + frames@[next as int]@);
        let pushed: usize = ring.push_slice(frames[next].as_slice());
        if pushed < came_in {
            warnings.push(Overrun { missing: came_in - pushed, len: came_in });
        }
        assert(ring@ =~= (held + joined(more)).take(
            filled(held.len(), capacity, more) as int,
        ));
        next = next + 1;
    }
    assert(frames@.take(next as int) =~= frames@);
    warnings
}

/// The recording half.
pub struct FeedbackInput {
    frame_size: usize,
    input_buf: Vec<u32>,
}

impl FeedbackInput {
    /// The samples that are processed at once.
    pub closed spec fn frame_len(self) -> nat {
        self.frame_size as nat
    }

    /// The samples that wait for their frame to fill up.
    pub closed spec fn held_back(self) -> Seq<u32> {
        self.input_buf@
    }

    /// Less than a frame is held back.
    pub open spec fn wf(self) -> bool {
        self.held_back().len() < self.frame_len()
    }

    /// Makes the recording half.
    pub fn new() -> (input: Self)
        ensures
            input.wf(),
            input.frame_len() == 480,
            input.held_back() == Seq::<u32>::empty(),
    {
        FeedbackInput {
            frame_size: opus_params().frame_buffer_size(DURATION_10MS),
            input_buf: Vec::new(),
        }
    }

    /// Answers a callback of the device with recorded samples: each frame that fills up is
    /// processed and pushed into the ring.
    pub fn callback<S, P: Fn(S, Vec<u32>) -> (S, Vec<u32>)>(
        &mut self,
        ring: &mut SampleRing,
        data: &[u32],
        processor: S,
        process: &P,
    ) -> (result: (Vec<Overrun>, S))
        requires
            old(self).wf(),
            old(ring).wf(),
            forall|state: S, frame: Vec<u32>| #[trigger] process.requires((state, frame)),
        ensures
            final(self).wf(),
            final(self).frame_len() == old(self).frame_len(),
            final(ring).wf(),
            final(ring).capacity() == old(ring).capacity(),
            exists|frames: Seq<Vec<u32>>, done: Seq<Vec<u32>>|
                {
                    &&& framed(
                        old(self).held_back() + data@,
                        old(self).frame_len(),
                        frames,
                        final(self).held_back(),
                    )
                    &&& #[trigger] each_done(*process, processor, frames, done, result.1)
                    &&& final(ring)@ == (old(ring)@ + joined(done)).take(
                        filled(old(ring)@.len(), old(ring).capacity(), done) as int,
                    )
                    &&& result.0@ == shortfalls(
                        old(ring)@.len(),
                        old(ring).capacity(),
                        done,
                        data@.len(),
                    )
                },
    {
        let mut more: Vec<u32> = vstd::slice::slice_to_vec(data);
        self.input_buf.append(&mut more);
        let frames: Vec<Vec<u32>> = take_frames(&mut self.input_buf, self.frame_size);
        let ghost taken = frames@;
        let (done, last) = process_each(frames, processor, process);
        let warnings: Vec<Overrun> = push_measured(ring, &done, data.len());
        let result: (Vec<Overrun>, S) = (warnings, last);
        assert(each_done(*process, processor, taken, done@, result.1));
        result
    }
}

/// A warning that the device wanted more samples than there were.
#[derive(Debug, Clone, Copy, PartialEq, Eq, Structural)]
pub struct Underflow {
    /// How many samples were missing.
    pub missing: usize,
    /// How many samples the device wanted.
    pub wanted: usize,
    /// How many samples were held back, or left in the ring.
    pub buffered: usize,
}

/// The playing half.
pub struct FeedbackOutput {
    frame_size: usize,
    unprocessed: Vec<u32>,
    processed: Vec<u32>,
}

impl FeedbackOutput {
    /// The samples that are processed at once.
    pub closed spec fn frame_len(self) -> nat {
        self.frame_size as nat
    }

    /// The samples that wait for their frame to fill up.
    pub closed spec fn held_back(self) -> Seq<u32> {
        self.unprocessed@
    }

    /// The samples that are ready for the device.
    pub closed spec fn ready(self) -> Seq<u32> {
        self.processed@
    }

    /// Less than a frame is held back.
    pub open spec fn wf(self) -> bool {
        &&& self.held_back().len() < self.frame_len()
        &&& self.frame_len() <= usize::MAX / 8
    }

    /// Makes the playing half.
    pub fn new() -> (output: Self)
        ensures
            output.wf(),
            output.frame_len() == 480,
            output.held_back() == Seq::<u32>::empty(),
            output.ready() == Seq::<u32>::empty(),
    {
        FeedbackOutput {
            frame_size: opus_params().frame_buffer_size(DURATION_10MS),
            unprocessed: Vec::new(),
            processed: Vec::new(),
        }
    }

    /// The samples that are taken from a ring: what the next frame still needs.
    pub open spec fn taken(self, ring: Seq<u32>) -> Seq<u32> {
        ring.take(lesser((self.frame_len() - self.held_back().len()) as nat, ring.len()) as int)
    }

    /// Whether one callback of the device has led from this half to `after`: what the next
    /// frame still needs was taken from the ring, a full frame has gone through `process`,
    /// and the device was given `out`.
    pub open spec fn called<P: Fn(Vec<u32>) -> Vec<u32>>(
        self,
        ring: Seq<u32>,
        process: P,
        wanted: usize,
        after: Self,
        out: Seq<u32>,
    ) -> bool {
        let held = self.held_back() + self.taken(ring);
        if held.len() == self.frame_len() {
            exists|frame: Vec<u32>, done: Vec<u32>|
                {
                    &&& frame@ == held
                    &&& #[trigger] process.ensures((frame,), done)
                    &&& after.held_back() == Seq::<u32>::empty()
                    &&& given_out(self.ready() + done@, wanted, after.ready(), out)
                }
        } else {
            &&& after.held_back() == held
            &&& given_out(self.ready(), wanted, after.ready(), out)
        }
    }

    /// Answers a callback of the device, which wants `wanted` samples. At most one frame is
    /// processed for it.
    pub fn callback<P: Fn(Vec<u32>) -> Vec<u32>>(
        &mut self,
        ring: &mut SampleRing,
        process: &P,
        wanted: usize,
    ) -> (given: (Vec<u32>, Option<Underflow>))
        requires
            old(self).wf(),
            old(ring).wf(),
            forall|frame: Vec<u32>| #[trigger] process.requires((frame,)),
        ensures
            final(self).wf(),
            final(self).frame_len() == old(self).frame_len(),
            final(ring).wf(),
            final(ring).capacity() == old(ring).capacity(),
            final(ring)@ == old(ring)@.skip(old(self).taken(old(ring)@).len() as int),
            old(self).called(old(ring)@, *process, wanted, *final(self), given.0@),
            given.1 == if given.0@.len() < wanted {
                Some(
                    (Underflow {
                        missing: (wanted - given.0@.len()) as usize,
                        wanted,
                        buffered: (final(self).held_back().len() + final(ring)@.len()) as usize,
                    }),
                )
            } else {
                None
            },
    {
        let mut popped: Vec<u32> = ring.pop_up_to(self.frame_size - self.unprocessed.len());
        self.unprocessed.append(&mut popped);
        if self.unprocessed.len() == self.frame_size {
            let mut frame: Vec<u32> = Vec::new();
            frame.append(&mut self.unprocessed);
            let ghost handed = frame;
            assert(handed@ =~= old(self).held_back() + old(self).taken(old(ring)@));
            let mut done: Vec<u32> = process(frame);
            let ghost back = done;
            self.processed.append(&mut done);
            assert(process.ensures((handed,), back));
            assert(self.processed@ == old(self).ready() + back@);
        }
        let ghost ready = self.processed@;
        let out_len: usize = if self.processed.len() <= wanted {
            self.processed.len()
        } else {
            wanted
        };
        let rest: Vec<u32> = self.processed.split_off(out_len);
        let mut out: Vec<u32> = Vec::new();
        out.append(&mut self.processed);
        self.processed = rest;
        assert(given_out(ready, wanted, self.processed@, out@));
        let warning: Option<Underflow> = if out_len < wanted {
            Some(
                Underflow {
                    missing: wanted - out_len,
                    wanted,
                    buffered: self.unprocessed.len() + ring.occupied_len(),
                },
            )
        } else {
            None
        };
        (out, warning)
    }
}

/// Whether the device was given as many of the first samples of `ready` as it wants, and
/// `left` is what is left.
pub open spec fn given_out(ready: Seq<u32>, wanted: usize, left: Seq<u32>, out: Seq<u32>) -> bool {
    &&& out == ready.take(lesser(wanted as nat, ready.len()) as int)
    &&& left == ready.skip(out.len() as int)
}

/// Where the processor gives back what it is given, playing back loses, invents and reorders
/// nothing: what the device is given and what is left are what was there and what came from
/// the ring.
pub proof fn feedback_keeps_every_sample<P: Fn(Vec<u32>) -> Vec<u32>>(
    before: FeedbackOutput,
    ring: Seq<u32>,
    process: P,
    wanted: usize,
    after: FeedbackOutput,
    out: Seq<u32>,
)
    requires
        before.wf(),
        before.called(ring, process, wanted, after, out),
        passes_through(process),
    ensures
        out + after.ready() + after.held_back() + ring.skip(before.taken(ring).len() as int)
            == before.ready() + before.held_back() + ring,
{
    let held = before.held_back() + before.taken(ring);
    let left = ring.skip(before.taken(ring).len() as int);
    assert(before.taken(ring) + left =~= ring);
    if held.len() == before.frame_len() {
        let (frame, done) = choose|frame: Vec<u32>, done: Vec<u32>|
            {
                &&& frame@ == held
                &&& #[trigger] process.ensures((frame,), done)
                &&& after.held_back() == Seq::<u32>::empty()
                &&& given_out(before.ready() + done@, wanted, after.ready(), out)
            };
        assert(out + after.ready() =~= before.ready() + held);
        assert(out + after.ready() + after.held_back() + left =~= before.ready()
            + before.held_back() + (before.taken(ring) + left));
    } else {
        assert(out + after.ready() =~= before.ready());
        assert(out + after.ready() + after.held_back() + left =~= before.ready()
            + before.held_back() + (before.taken(ring) + left));
    }
}

/// Pushing one more frame gives a warning exactly if less of it fits than came in, with what came
/// in and how much less that was.
pub proof fn pushes_are_held_against_what_came_in(
    held: nat,
    capacity: nat,
    frames: Seq<Vec<u32>>,
    frame: Vec<u32>,
    came_in: nat,
)
    requires
        held <= capacity,
    ensures
        shortfalls(held, capacity, Seq::<Vec<u32>>::empty(), came_in).len() == 0,
        ({
            let pushed = filled(held, capacity, frames.push(frame)) - filled(
                held,
                capacity,
                frames,
            );
            let warned = shortfalls(held, capacity, frames, came_in);
            let all = shortfalls(held, capacity, frames.push(frame), came_in);
            &&& pushed >= came_in ==> all == warned
            &&& pushed < came_in ==> {
                &&& all.len() == warned.len() + 1
                &&& all.drop_last() == warned
                &&& all.last().len == came_in as usize
                &&& all.last().missing == (came_in - pushed) as usize
            }
        }),
{
    let more = frames.push(frame);
    assert(more.drop_last() =~= frames);
    assert(more.last() == frame);
    let warned = shortfalls(held, capacity, frames, came_in);
    let all = shortfalls(held, capacity, more, came_in);
    if all.len() == warned.len() + 1 {
        assert(all.drop_last() =~= warned);
    }
}

/// Playing back takes from the ring what the next frame lacks, or all there is. A full frame is
/// processed, and what is made of it comes after what was ready; a frame that is not full is held
/// back. The device gets as much as it wants, or all there is.
pub proof fn playing_back_goes_through_its_stages<P: Fn(Vec<u32>) -> Vec<u32>>(
    before: FeedbackOutput,
    ring: Seq<u32>,
    process: P,
    wanted: usize,
    after: FeedbackOutput,
    out: Seq<u32>,
)
    requires
        before.wf(),
        before.called(ring, process, wanted, after, out),
    ensures
        ({
            let held = before.held_back() + before.taken(ring);
            &&& before.taken(ring) == ring.take(before.taken(ring).len() as int)
            &&& before.taken(ring).len() <= ring.len()
            &&& held.len() <= before.frame_len()
            &&& held.len() < before.frame_len() ==> {
                &&& before.taken(ring).len() == ring.len()
                &&& after.held_back() == held
                &&& out + after.ready() == before.ready()
            }
            &&& held.len() == before.frame_len() ==> {
                &&& after.held_back().len() == 0
                &&& exists|frame: Vec<u32>, done: Vec<u32>|
                    {
                        &&& frame@ == held
                        &&& #[trigger] process.ensures((frame,), done)
                        &&& out + after.ready() == before.ready() + done@
                    }
            }
            &&& out.len() <= wanted
            &&& out.len() < wanted ==> after.ready().len() == 0
        }),
{
    let held = before.held_back() + before.taken(ring);
    if held.len() == before.frame_len() {
        let (frame, done) = choose|frame: Vec<u32>, done: Vec<u32>|
            {
                &&& frame@ == held
                &&& #[trigger] process.ensures((frame,), done)
                &&& after.held_back() == Seq::<u32>::empty()
                &&& given_out(before.ready() + done@, wanted, after.ready(), out)
            };
        assert(out + after.ready() =~= before.ready() + done@);
        assert(process.ensures((frame,), done));
    } else {
        assert(out + after.ready() =~= before.ready());
    }
}

} // verus!
