//! Recording: the stages that lead from the buffers of the device to the ring, and from
//! there to encoded frames.

use bytes::Bytes;
use vstd::prelude::*;

use crate::audio::play::{all_samples_in_20ms, passes_through, twice_as_long};
use crate::audio::{opus_params, OutboundAudio, StreamParams, DURATION_10MS, DURATION_20MS};
use crate::codec::opus::{all_encoded, can_encode, encoded_nothing, encoded_push, Flow};
use crate::frames::{framed_draw, framed_nothing, frames_are_joined_in_order};
use crate::frames::{drawn_len, each_done, frame_drawn, framed, framing_keeps_every_sample};
use crate::frames::{joined, passed_frames_join, passes_frames, process_each, take_frames};
use crate::payload::bytes_contents;
use crate::ring::{lesser, SampleRing};

pub use crate::codec::opus::OpusEncoder;

verus! {

/// The sending end of a queue, `async_channel::Sender`.
#[verifier::external_type_specification]
#[verifier::external_body]
#[verifier::reject_recursive_types(T)]
pub struct ExQueueSender<T>(async_channel::Sender<T>);

/// The receiving end of a queue, `async_channel::Receiver`.
#[verifier::external_type_specification]
#[verifier::external_body]
#[verifier::reject_recursive_types(T)]
pub struct ExQueueReceiver<T>(async_channel::Receiver<T>);

/// Whether a receiver and a sender are ends of the same queue, so that the receiver is handed
/// what the sender puts into it. Both keep their queue for as long as they live.
pub uninterp spec fn joins(
    receiver: async_channel::Receiver<OutboundAudio>,
    sender: async_channel::Sender<OutboundAudio>,
) -> bool;

/// How many frames the queue of a sender has room for.
pub uninterp spec fn queue_capacity(sender: async_channel::Sender<OutboundAudio>) -> nat;

/// How many encoded frames the ring between the device and the encoder has room for.
pub const RING_FRAMES: usize = 16;

/// The encoded frames that can wait for their receiver.
pub const QUEUE_FRAMES: usize = 128;

/// Whether a device's streams can be recorded from: its processor has frames to work on,
/// and its ring is within the address space.
pub open spec fn recordable(params: StreamParams) -> bool {
    &&& params.samples_per_channel(DURATION_20MS) <= usize::MAX
    &&& 0 < params.samples_in_all(DURATION_10MS)
    &&& params.samples_in_all(DURATION_20MS) * RING_FRAMES <= usize::MAX / 8
}

/// Decides whether a device's streams can be recorded from.
pub fn is_recordable(params: &StreamParams) -> (result: bool)
    ensures
        result == recordable(*params),
{
    let all: u128 = all_samples_in_20ms(params);
    let per_channel: u128 = (params.sample_rate.0 / 1000) as u128 * 20;
    assert(RING_FRAMES == 16);
    assert(all * RING_FRAMES <= u128::MAX) by (nonlinear_arith)
        requires
            all <= 0x1_0000_0000 * 20 * 0x1_0000,
            RING_FRAMES == 16,
    ;
    per_channel <= usize::MAX as u128 && 0 < all && all * RING_FRAMES as u128 <= (usize::MAX / 8)
        as u128
}

/// Makes the ring between the device and the encoder.
pub fn capture_ring(params: &StreamParams) -> (ring: SampleRing)
    requires
        recordable(*params),
    ensures
        ring.wf(),
        ring@ == Seq::<u32>::empty(),
        ring.capacity() == params.samples_in_all(DURATION_20MS) * RING_FRAMES,
{
    proof {
        twice_as_long(*params);
    }
    SampleRing::new(params.frame_buffer_size(DURATION_20MS) * RING_FRAMES)
}

/// A warning that a frame did not find enough room in the ring.
#[derive(Debug, Clone, Copy, PartialEq, Eq, Structural)]
pub struct Overrun {
    /// How many samples found no room.
    pub missing: usize,
    /// How many samples the frame has.
    pub len: usize,
}

/// How many samples a ring holds after frames were pushed into it.
pub open spec fn filled(held: nat, capacity: nat, frames: Seq<Vec<u32>>) -> nat {
    lesser(capacity, held + joined(frames).len())
}

/// The warnings for frames that are pushed into a ring one after the other.
pub open spec fn overruns(held: nat, capacity: nat, frames: Seq<Vec<u32>>) -> Seq<Overrun>
    decreases frames.len(),
{
    if frames.len() == 0 {
        Seq::empty()
    } else {
        let before = overruns(held, capacity, frames.drop_last());
        let len = frames.last()@.len();
        let pushed = filled(held, capacity, frames) - filled(held, capacity, frames.drop_last());
        if pushed < len {
            before.push(Overrun { missing: (len - pushed) as usize, len: len as usize })
        } else {
            before
        }
    }
}

/// Pushes frames into a ring one after the other. What finds no room is dropped, with a
/// warning for each frame that it happens to.
pub fn push_frames(ring: &mut SampleRing, frames: &Vec<Vec<u32>>) -> (warnings: Vec<Overrun>)
    requires
        old(ring).wf(),
    ensures
        final(ring).wf(),
        final(ring).capacity() == old(ring).capacity(),
        final(ring)@ == (old(ring)@ + joined(frames@)).take(
            filled(old(ring)@.len(), old(ring).capacity(), frames@) as int,
        ),
        warnings@ == overruns(old(ring)@.len(), old(ring).capacity(), frames@),
{
    let mut warnings: Vec<Overrun> = Vec::new();
    let mut next: usize = 0;
    let ghost held = ring@;
    let ghost capacity = ring.capacity();
    assert(joined(frames@.take(0)) =~= Seq::<u32>::empty());
    assert(held + Seq::<u32>::empty() =~= held);
    assert(held.take(held.len() as int) =~= held);
    while next < frames.len()
        invariant
            next <= frames@.len(),
            held.len() <= capacity,
            ring.wf(),
            ring.capacity() == capacity,
            ring@ == (held + joined(frames@.take(next as int))).take(
                filled(held.len(), capacity, frames@.take(next as int)) as int,
            ),
            warnings@ == overruns(held.len(), capacity, frames@.take(next as int)),
        decreases frames@.len() - next,
    {
        let ghost few = frames@.take(next as int);
        let ghost more = frames@.take(next + 1);
        let ghost before = ring@;
        assert(more.drop_last() =~= few);
        assert(joined(more) == joined(few) + frames@[next as int]@);
        let len: usize = frames[next].len();
        let pushed: usize = ring.push_slice(frames[next].as_slice());
        if pushed < len {
            warnings.push(Overrun { missing: len - pushed, len });
        }
        assert(ring@ =~= (held + joined(more)).take(
            filled(held.len(), capacity, more) as int,
        ));
        next = next + 1;
    }
    assert(frames@.take(next as int) =~= frames@);
    warnings
}

/// The stages between the device and the ring.
pub struct CaptureState {
    frame_size: usize,
    resampled_buf: Vec<u32>,
}

impl CaptureState {
    /// The samples that are processed at once.
    pub closed spec fn frame_len(self) -> nat {
        self.frame_size as nat
    }

    /// The samples that wait for their frame to fill up.
    pub closed spec fn held_back(self) -> Seq<u32> {
        self.resampled_buf@
    }

    /// Less than a frame is held back.
    pub open spec fn wf(self) -> bool {
        self.held_back().len() < self.frame_len()
    }

    /// Makes the stages for a device.
    pub fn new(params: &StreamParams) -> (state: Self)
        requires
            recordable(*params),
        ensures
            state.wf(),
            state.frame_len() == params.samples_in_all(DURATION_10MS),
            state.held_back() == Seq::<u32>::empty(),
    {
        proof {
            twice_as_long(*params);
        }
        CaptureState {
            frame_size: params.frame_buffer_size(DURATION_10MS),
            resampled_buf: Vec::new(),
        }
    }

    /// Takes resampled samples in, and returns the frames to be processed, in order.
    pub fn take_in(&mut self, resampled: &[u32]) -> (frames: Vec<Vec<u32>>)
        requires
            old(self).wf(),
        ensures
            final(self).wf(),
            final(self).frame_len() == old(self).frame_len(),
            framed(
                old(self).held_back() + resampled@,
                old(self).frame_len(),
                frames@,
                final(self).held_back(),
            ),
    {
        let mut more: Vec<u32> = vstd::slice::slice_to_vec(resampled);
        self.resampled_buf.append(&mut more);
        take_frames(&mut self.resampled_buf, self.frame_size)
    }

    /// Whether one callback of the device has led from these stages to `after`: what was
    /// recorded has gone through `resample`, then through `process` by frames, and the
    /// frames in `done` were pushed into the ring.
    pub open spec fn called<
        R: Fn(Vec<u32>) -> Vec<u32>,
        S,
        P: Fn(S, Vec<u32>) -> (S, Vec<u32>),
    >(
        self,
        recorded: Vec<u32>,
        resample: R,
        first: S,
        process: P,
        last: S,
        after: Self,
        done: Seq<Vec<u32>>,
    ) -> bool {
        exists|back: Vec<u32>, frames: Seq<Vec<u32>>|
            {
                &&& #[trigger] resample.ensures((recorded,), back)
                &&& framed(
                    self.held_back() + back@,
                    self.frame_len(),
                    frames,
                    after.held_back(),
                )
                &&& #[trigger] each_done(process, first, frames, done, last)
            }
    }

    /// Answers a callback of the device with recorded samples. `resample` changes the rate
    /// to the one that audio is encoded at, and `process` is the audio processor on the
    /// capture side, which goes from one state to the next.
    pub fn callback<
        R: Fn(Vec<u32>) -> Vec<u32>,
        S,
        P: Fn(S, Vec<u32>) -> (S, Vec<u32>),
    >(
        &mut self,
        ring: &mut SampleRing,
        recorded: Vec<u32>,
        resample: &R,
        processor: S,
        process: &P,
    ) -> (result: (Vec<Overrun>, S))
        requires
            old(self).wf(),
            old(ring).wf(),
            forall|samples: Vec<u32>| #[trigger] resample.requires((samples,)),
            forall|state: S, frame: Vec<u32>| #[trigger] process.requires((state, frame)),
        ensures
            final(self).wf(),
            final(self).frame_len() == old(self).frame_len(),
            final(ring).wf(),
            final(ring).capacity() == old(ring).capacity(),
            exists|done: Seq<Vec<u32>>|
                {
                    &&& #[trigger] old(self).called(
                        recorded,
                        *resample,
                        processor,
                        *process,
                        result.1,
                        *final(self),
                        done,
                    )
                    &&& final(ring)@ == (old(ring)@ + joined(done)).take(
                        filled(old(ring)@.len(), old(ring).capacity(), done) as int,
                    )
                    &&& result.0@ == overruns(old(ring)@.len(), old(ring).capacity(), done)
                },
    {
        let resampled: Vec<u32> = resample(recorded);
        let frames: Vec<Vec<u32>> = self.take_in(resampled.as_slice());
        let ghost taken = frames@;
        let (done, last) = process_each(frames, processor, process);
        let warnings: Vec<Overrun> = push_frames(ring, &done);
        let result: (Vec<Overrun>, S) = (warnings, last);
        assert(each_done(*process, processor, taken, done@, result.1));
        assert(old(self).called(recorded, *resample, processor, *process, result.1, *self, done@));
        result
    }
}

/// Where the resampler and the processor give back what they are given, recording loses,
/// invents and reorders nothing before the ring: what is pushed and what is left are what
/// was there and what was recorded.
pub proof fn recording_keeps_every_sample<
    R: Fn(Vec<u32>) -> Vec<u32>,
    S,
    P: Fn(S, Vec<u32>) -> (S, Vec<u32>),
>(
    before: CaptureState,
    recorded: Vec<u32>,
    resample: R,
    first: S,
    process: P,
    last: S,
    after: CaptureState,
    done: Seq<Vec<u32>>,
)
    requires
        before.called(recorded, resample, first, process, last, after, done),
        passes_through(resample),
        passes_frames::<S, P>(process),
    ensures
        joined(done) + after.held_back() == before.held_back() + recorded@,
{
    let (back, frames) = choose|back: Vec<u32>, frames: Seq<Vec<u32>>|
        {
            &&& #[trigger] resample.ensures((recorded,), back)
            &&& framed(before.held_back() + back@, before.frame_len(), frames, after.held_back())
            &&& #[trigger] each_done(process, first, frames, done, last)
        };
    framing_keeps_every_sample(
        before.held_back() + back@,
        before.frame_len(),
        frames,
        after.held_back(),
    );
    passed_frames_join(process, first, frames, done, last);
}

/// As long as the ring has room for all of them, frames that are pushed all stay in it, and
/// there are no warnings.
pub proof fn no_overrun_with_room(held: nat, capacity: nat, frames: Seq<Vec<u32>>)
    requires
        held + joined(frames).len() <= capacity,
    ensures
        overruns(held, capacity, frames) == Seq::<Overrun>::empty(),
        filled(held, capacity, frames) == held + joined(frames).len(),
    decreases frames.len(),
{
    if frames.len() > 0 {
        no_overrun_with_room(held, capacity, frames.drop_last());
    }
}

/// What came of handing a frame to the queue.
#[derive(Debug)]
pub enum Queued {
    /// The frame is in the queue.
    Sent,
    /// The frame is in the queue, in place of the one that this holds.
    Replaced(OutboundAudio),
    /// The queue is closed. Holds the frame.
    Closed(OutboundAudio),
}

/// `async_channel::bounded`: a queue for up to `capacity` messages. It panics for a capacity
/// of zero and for one that exceeds the address space. Its two ends belong together.
#[verifier::external_body]
fn audio_queue(capacity: usize) -> (ends: (
    async_channel::Sender<OutboundAudio>,
    async_channel::Receiver<OutboundAudio>,
))
    requires
        0 < capacity <= usize::MAX / 1024,
    ensures
        joins(ends.1, ends.0),
        queue_capacity(ends.0) == capacity,
{
    async_channel::bounded(capacity)
}

/// `async_channel::Sender::force_send`: puts a frame into the queue. From a full queue it
/// takes another frame out and returns that. Where the queue is closed it gives the frame
/// back.
#[verifier::external_body]
pub(crate) fn force_send(sender: &async_channel::Sender<OutboundAudio>, frame: OutboundAudio) -> (outcome:
    Queued)
    ensures
        outcome matches Queued::Closed(returned) ==> returned == frame,
{
    match sender.force_send(frame) {
        Ok(None) => Queued::Sent,
        Ok(Some(replaced)) => Queued::Replaced(replaced),
        Err(error) => Queued::Closed(error.0),
    }
}

/// Whether audio was put to the queue of a sender, and the queue has answered so: this is
/// what came of handing it over.
pub closed spec fn handed_over(
    sender: async_channel::Sender<OutboundAudio>,
    audio: OutboundAudio,
    outcome: Queued,
) -> bool {
    call_ensures(force_send, (&sender, audio), outcome)
}

/// What is handed over is put to the queue itself, by a call on the sender with that audio.
/// A queue that is closed gives back what was put to it.
pub(crate) proof fn handed_over_is_answered(
    sender: async_channel::Sender<OutboundAudio>,
    audio: OutboundAudio,
    outcome: Queued,
)
    ensures
        handed_over(sender, audio, outcome) <==> call_ensures(
            force_send,
            (&sender, audio),
            outcome,
        ),
        handed_over(sender, audio, outcome) ==> (outcome matches Queued::Closed(returned)
            ==> returned == audio),
{
}

/// Decides whether the encoder goes on after a frame was handed to the queue, and whether a
/// warning is given that an older frame was dropped.
pub fn after_force_send(outcome: &Queued) -> (decision: (Flow, bool))
    ensures
        decision.0 == if outcome is Closed {
            Flow::Break
        } else {
            Flow::Continue
        },
        decision.1 == (outcome is Replaced),
{
    match outcome {
        Queued::Sent => (Flow::Continue, false),
        Queued::Replaced(_) => (Flow::Continue, true),
        Queued::Closed(_) => (Flow::Break, false),
    }
}

impl<E> OpusEncoder<E> {
    /// Takes samples from a ring, up to the one that fills a frame up, and returns the frame
    /// and its sample count, if there is one. An empty ring gives none.
    pub fn push_from_consumer(&mut self, consumer: &mut SampleRing) -> (frame: Option<
        (Vec<u32>, u32),
    >)
        requires
            old(self).wf(),
            old(consumer).wf(),
        ensures
            final(self).wf(),
            final(self).codec() == old(self).codec(),
            final(self).nominal_len() == old(self).nominal_len(),
            final(self).output() == old(self).output(),
            frame_drawn(
                old(self).pending(),
                old(consumer)@,
                old(self).frame_len(),
                frame,
                final(self).pending(),
            ),
            final(consumer).wf(),
            final(consumer).capacity() == old(consumer).capacity(),
            final(consumer)@ == old(consumer)@.skip(
                drawn_len(old(self).pending(), old(consumer)@, old(self).frame_len()) as int,
            ),
    {
        if consumer.is_empty() {
            assert(self.pending() + consumer@ =~= self.pending());
            assert(consumer@.skip(0) =~= consumer@);
            return None;
        }
        self.pop_from_consumer(consumer)
    }
}

/// Encodes what is recorded, and hands it to a queue.
pub struct OpusEncoderLoop<E> {
    pub sender: async_channel::Sender<OutboundAudio>,
    pub opus_encoder: OpusEncoder<E>,
}

impl<E> OpusEncoderLoop<E> {
    /// Makes the loop for a codec, and the end at which its frames arrive.
    pub fn new(encoder: E) -> (ends: (Self, async_channel::Receiver<OutboundAudio>))
        ensures
            joins(ends.1, ends.0.sender),
            queue_capacity(ends.0.sender) == QUEUE_FRAMES,
            ends.0.opus_encoder.wf(),
            ends.0.opus_encoder.codec() == encoder,
            ends.0.opus_encoder.pending() == Seq::<u32>::empty(),
            ends.0.opus_encoder.nominal_len() == 960,
    {
        let (sender, receiver) = audio_queue(QUEUE_FRAMES);
        (
            OpusEncoderLoop { sender, opus_encoder: OpusEncoder::new(opus_params(), encoder) },
            receiver,
        )
    }

    /// Takes samples from the ring, up to the one that fills a frame up, and returns the frame
    /// and its sample count, to be encoded and published. Once there is none, the turn is over.
    pub fn next_frame(&mut self, ring: &mut SampleRing) -> (frame: Option<(Vec<u32>, u32)>)
        requires
            old(self).opus_encoder.wf(),
            old(ring).wf(),
        ensures
            final(self).sender == old(self).sender,
            final(self).opus_encoder.wf(),
            final(self).opus_encoder.codec() == old(self).opus_encoder.codec(),
            final(self).opus_encoder.nominal_len() == old(self).opus_encoder.nominal_len(),
            final(self).opus_encoder.output() == old(self).opus_encoder.output(),
            frame_drawn(
                old(self).opus_encoder.pending(),
                old(ring)@,
                old(self).opus_encoder.frame_len(),
                frame,
                final(self).opus_encoder.pending(),
            ),
            final(ring).wf(),
            final(ring).capacity() == old(ring).capacity(),
            final(ring)@ == old(ring)@.skip(
                drawn_len(
                    old(self).opus_encoder.pending(),
                    old(ring)@,
                    old(self).opus_encoder.frame_len(),
                ) as int,
            ),
    {
        self.opus_encoder.push_from_consumer(ring)
    }

    /// Has the codec encode a frame of `sample_count` samples, and makes what is sent of it.
    pub fn finish_audio<F: Fn(E, Vec<u32>) -> (E, Vec<u8>)>(
        &mut self,
        frame: Vec<u32>,
        sample_count: u32,
        encode: &F,
    ) -> (audio: OutboundAudio)
        requires
            old(self).opus_encoder.wf(),
            can_encode(*encode, old(self).opus_encoder.nominal_len()),
        ensures
            final(self).sender == old(self).sender,
            exists|code: Vec<u8>|
                {
                    &&& #[trigger] old(self).opus_encoder.coded(
                        *encode,
                        frame,
                        final(self).opus_encoder,
                        code,
                    )
                    &&& holds_code(audio, code@, sample_count)
                },
    {
        let payload: Bytes = self.opus_encoder.encode_frame(frame, encode);
        let ghost code = choose|code: Vec<u8>|
            {
                &&& #[trigger] old(self).opus_encoder.coded(*encode, frame, self.opus_encoder, code)
                &&& bytes_contents(payload) == code@
            };
        let audio: OutboundAudio = OutboundAudio::Opus { payload, sample_count };
        assert(holds_code(audio, code@, sample_count));
        audio
    }

    /// Has the codec encode a frame of `sample_count` samples, and hands it to the queue. Where
    /// the queue is closed, what was to be sent comes back.
    pub fn publish<F: Fn(E, Vec<u32>) -> (E, Vec<u8>)>(
        &mut self,
        frame: Vec<u32>,
        sample_count: u32,
        encode: &F,
    ) -> (outcome: Queued)
        requires
            old(self).opus_encoder.wf(),
            can_encode(*encode, old(self).opus_encoder.nominal_len()),
        ensures
            final(self).sender == old(self).sender,
            exists|code: Vec<u8>|
                {
                    &&& #[trigger] old(self).opus_encoder.coded(
                        *encode,
                        frame,
                        final(self).opus_encoder,
                        code,
                    )
                    &&& hands_code(old(self).sender, code@, sample_count, outcome)
                    &&& outcome matches Queued::Closed(audio) ==> holds_code(
                        audio,
                        code@,
                        sample_count,
                    )
                },
    {
        let audio: OutboundAudio = self.finish_audio(frame, sample_count, encode);
        let ghost handed = audio;
        let outcome: Queued = force_send(&self.sender, audio);
        assert(handed_over(old(self).sender, handed, outcome));
        outcome
    }

    /// Whether a turn has led to `after`: the first `used` samples of the ring were taken, the
    /// codec has encoded the frames that they fill up, and handing these to the queue has come
    /// to the outcomes. The ring is emptied unless the queue is closed: then the turn ends
    /// there, and the loop with it.
    pub open spec fn turns<F: Fn(E, Vec<u32>) -> (E, Vec<u8>)>(
        self,
        encode: F,
        ring: Seq<u32>,
        used: int,
        frames: Seq<Vec<u32>>,
        codes: Seq<Vec<u8>>,
        outcomes: Seq<Queued>,
        after: Self,
        flow: Flow,
    ) -> bool {
        &&& 0 <= used <= ring.len()
        &&& framed(
            self.opus_encoder.pending() + ring.take(used),
            self.opus_encoder.frame_len(),
            frames,
            after.opus_encoder.pending(),
        )
        &&& all_encoded(
            encode,
            self.opus_encoder.codec(),
            frames,
            codes,
            after.opus_encoder.codec(),
        )
        &&& outcomes.len() == frames.len()
        &&& codes.len() == frames.len()
        &&& forall|i: int|
            0 <= i < outcomes.len() ==> hands_code(
                self.sender,
                codes[i]@,
                self.opus_encoder.frame_len() as u32,
                #[trigger] outcomes[i],
            )
        &&& forall|i: int|
            0 <= i < outcomes.len() ==> (#[trigger] outcomes[i] matches Queued::Closed(audio)
                ==> holds_code(audio, codes[i]@, self.opus_encoder.frame_len() as u32))
        &&& forall|i: int| 0 <= i < outcomes.len() - 1 ==> !(#[trigger] outcomes[i] is Closed)
        &&& match flow {
            Flow::Continue => {
                &&& used == ring.len()
                &&& outcomes.len() > 0 ==> !(outcomes.last() is Closed)
            },
            Flow::Break => {
                &&& outcomes.len() > 0 && outcomes.last() is Closed
                &&& after.opus_encoder.pending() == Seq::<u32>::empty()
            },
        }
    }

    /// Runs a turn: has the codec encode each frame that the samples of the ring fill up, and
    /// hands it to the queue. Returns whether the loop goes on, and what came of each frame.
    pub fn turn<F: Fn(E, Vec<u32>) -> (E, Vec<u8>)>(
        &mut self,
        ring: &mut SampleRing,
        encode: &F,
    ) -> (result: (Flow, Vec<Queued>))
        requires
            old(self).opus_encoder.wf(),
            old(ring).wf(),
            can_encode(*encode, old(self).opus_encoder.nominal_len()),
        ensures
            final(self).sender == old(self).sender,
            final(self).opus_encoder.wf(),
            final(self).opus_encoder.nominal_len() == old(self).opus_encoder.nominal_len(),
            final(ring).wf(),
            final(ring).capacity() == old(ring).capacity(),
            exists|used: int, frames: Seq<Vec<u32>>, codes: Seq<Vec<u8>>|
                {
                    &&& #[trigger] old(self).turns(
                        *encode,
                        old(ring)@,
                        used,
                        frames,
                        codes,
                        result.1@,
                        *final(self),
                        result.0,
                    )
                    &&& final(ring)@ == old(ring)@.skip(used)
                },
    {
        let ghost len = self.opus_encoder.frame_len();
        let ghost mut frames: Seq<Vec<u32>> = Seq::empty();
        let ghost mut codes: Seq<Vec<u8>> = Seq::empty();
        let ghost mut used: int = 0;
        let ghost pending = self.opus_encoder.pending();
        let mut outcomes: Vec<Queued> = Vec::new();
        proof {
            encoded_nothing(*encode, self.opus_encoder.codec());
            framed_nothing(pending, len);
            assert(pending + ring@.take(0) =~= pending);
            assert(ring@.skip(0) =~= ring@);
        }
        while !ring.is_empty()
            invariant
                0 <= used <= old(ring)@.len(),
                self.sender == old(self).sender,
                self.opus_encoder.wf(),
                self.opus_encoder.nominal_len() == old(self).opus_encoder.nominal_len(),
                len == old(self).opus_encoder.frame_len(),
                pending == old(self).opus_encoder.pending(),
                can_encode(*encode, old(self).opus_encoder.nominal_len()),
                ring.wf(),
                ring.capacity() == old(ring).capacity(),
                ring@ == old(ring)@.skip(used),
                framed(
                    pending + old(ring)@.take(used),
                    len,
                    frames,
                    self.opus_encoder.pending(),
                ),
                all_encoded(
                    *encode,
                    old(self).opus_encoder.codec(),
                    frames,
                    codes,
                    self.opus_encoder.codec(),
                ),
                outcomes@.len() == frames.len(),
                codes.len() == frames.len(),
                forall|i: int|
                    0 <= i < outcomes@.len() ==> hands_code(
                        old(self).sender,
                        codes[i]@,
                        len as u32,
                        #[trigger] outcomes@[i],
                    ),
                forall|i: int|
                    0 <= i < outcomes@.len() ==> !(#[trigger] outcomes@[i] is Closed),
            decreases ring@.len(),
        {
            let ghost before = self.opus_encoder;
            let ghost done = pending + old(ring)@.take(used);
            let ghost left = ring@;
            let drawn: Option<(Vec<u32>, u32)> = self.next_frame(ring);
            let ghost after = self.opus_encoder;
            proof {
                framed_draw(done, len, frames, before.pending(), left, drawn, after.pending());
                let taken = drawn_len(before.pending(), left, len) as int;
                assert(done + left.take(taken) =~= pending + old(ring)@.take(used + taken));
                assert(done + left =~= pending + old(ring)@.take(used + left.len()));
                assert(old(ring)@.skip(used).skip(taken) =~= old(ring)@.skip(used + taken));
                used = used + taken;
            }
            match drawn {
                Some((frame, sample_count)) => {
                    let ghost given = frame;
                    let outcome: Queued = self.publish(frame, sample_count, encode);
                    let (flow, _) = after_force_send(&outcome);
                    proof {
                        let code = choose|code: Vec<u8>|
                            {
                                &&& #[trigger] after.coded(*encode, given, self.opus_encoder, code)
                                &&& hands_code(old(self).sender, code@, sample_count, outcome)
                                &&& outcome matches Queued::Closed(audio) ==> holds_code(
                                    audio,
                                    code@,
                                    sample_count,
                                )
                            };
                        encoded_push(
                            *encode,
                            old(self).opus_encoder.codec(),
                            frames,
                            codes,
                            after.codec(),
                            given,
                            code,
                            self.opus_encoder.codec(),
                        );
                        frames = frames.push(given);
                        codes = codes.push(code);
                    }
                    outcomes.push(outcome);
                    if flow == Flow::Break {
                        let result: (Flow, Vec<Queued>) = (flow, outcomes);
                        assert(old(self).turns(
                            *encode,
                            old(ring)@,
                            used,
                            frames,
                            codes,
                            result.1@,
                            *self,
                            result.0,
                        ));
                        return result;
                    }
                },
                None => {},
            }
        }
        let result: (Flow, Vec<Queued>) = (Flow::Continue, outcomes);
        assert(old(self).turns(
            *encode,
            old(ring)@,
            used,
            frames,
            codes,
            result.1@,
            *self,
            result.0,
        ));
        result
    }
}

/// Whether audio that holds what the codec has written, and the count of its samples, was
/// handed over to the queue of a sender with the outcome.
pub open spec fn hands_code(
    sender: async_channel::Sender<OutboundAudio>,
    code: Seq<u8>,
    sample_count: u32,
    outcome: Queued,
) -> bool {
    exists|audio: OutboundAudio|
        {
            &&& #[trigger] handed_over(sender, audio, outcome)
            &&& holds_code(audio, code, sample_count)
        }
}

/// Whether audio holds what the codec has written, and the count of its samples.
pub open spec fn holds_code(audio: OutboundAudio, code: Seq<u8>, count: u32) -> bool {
    match audio {
        OutboundAudio::Opus { payload, sample_count } => {
            &&& bytes_contents(payload) == code
            &&& sample_count == count
        },
    }
}

/// Pushing one more frame fills the ring by what fits of it. A frame that fits as a whole gives
/// no warning, and any other gives one, with its length and what found no room.
pub proof fn frames_are_pushed_as_far_as_they_fit(
    held: nat,
    capacity: nat,
    frames: Seq<Vec<u32>>,
    frame: Vec<u32>,
)
    requires
        held <= capacity,
    ensures
        filled(held, capacity, Seq::<Vec<u32>>::empty()) == held,
        overruns(held, capacity, Seq::<Vec<u32>>::empty()).len() == 0,
        ({
            let before = filled(held, capacity, frames);
            let after = filled(held, capacity, frames.push(frame));
            let warned = overruns(held, capacity, frames);
            let all = overruns(held, capacity, frames.push(frame));
            &&& before <= after <= capacity
            &&& before + frame@.len() <= capacity ==> after == before + frame@.len() && all
                == warned
            &&& before + frame@.len() > capacity ==> {
                &&& after == capacity
                &&& all.len() == warned.len() + 1
                &&& all.drop_last() == warned
                &&& all.last().len == frame@.len() as usize
                &&& all.last().missing == (frame@.len() - (capacity - before)) as usize
            }
        }),
{
    assert(joined(Seq::<Vec<u32>>::empty()) =~= Seq::<u32>::empty());
    frames_are_joined_in_order(frames, frame);
    let more = frames.push(frame);
    assert(more.drop_last() =~= frames);
    assert(more.last() == frame);
    let warned = overruns(held, capacity, frames);
    let before = filled(held, capacity, frames);
    if before + frame@.len() > capacity {
        let all = overruns(held, capacity, more);
        assert(all.drop_last() =~= warned);
    }
}

/// Recording hands what was recorded to the resampler, what that makes of it, after what was
/// held back, to the processor by whole frames, in order, and holds the rest back.
pub proof fn recording_goes_through_its_stages<
    R: Fn(Vec<u32>) -> Vec<u32>,
    S,
    P: Fn(S, Vec<u32>) -> (S, Vec<u32>),
>(
    before: CaptureState,
    recorded: Vec<u32>,
    resample: R,
    first: S,
    process: P,
    last: S,
    after: CaptureState,
    done: Seq<Vec<u32>>,
)
    requires
        before.called(recorded, resample, first, process, last, after, done),
    ensures
        exists|back: Vec<u32>, frames: Seq<Vec<u32>>|
            {
                &&& #[trigger] resample.ensures((recorded,), back)
                &&& #[trigger] each_done(process, first, frames, done, last)
                &&& joined(frames) + after.held_back() == before.held_back() + back@
                &&& forall|j: int|
                    0 <= j < frames.len() ==> (#[trigger] frames[j])@.len() == before.frame_len()
                &&& after.held_back().len() < before.frame_len()
            },
{
    let (back, frames) = choose|back: Vec<u32>, frames: Seq<Vec<u32>>|
        {
            &&& #[trigger] resample.ensures((recorded,), back)
            &&& framed(before.held_back() + back@, before.frame_len(), frames, after.held_back())
            &&& #[trigger] each_done(process, first, frames, done, last)
        };
    framing_keeps_every_sample(
        before.held_back() + back@,
        before.frame_len(),
        frames,
        after.held_back(),
    );
    assert(resample.ensures((recorded,), back));
    assert(each_done(process, first, frames, done, last));
}

/// What is handed over of a frame has the bytes that the codec has written and the count of the
/// frame's samples, and is put to the queue of the sender: whatever the outcome is, it is the
/// queue's answer to that.
pub proof fn codes_are_handed_over(
    sender: async_channel::Sender<OutboundAudio>,
    code: Seq<u8>,
    sample_count: u32,
    outcome: Queued,
)
    requires
        hands_code(sender, code, sample_count, outcome),
    ensures
        exists|payload: Bytes|
            {
                &&& #[trigger] handed_over(
                    sender,
                    OutboundAudio::Opus { payload, sample_count },
                    outcome,
                )
                &&& bytes_contents(payload) == code
            },
{
    let audio = choose|audio: OutboundAudio|
        {
            &&& #[trigger] handed_over(sender, audio, outcome)
            &&& holds_code(audio, code, sample_count)
        };
    match audio {
        OutboundAudio::Opus { payload, sample_count: count } => {
            assert(handed_over(sender, OutboundAudio::Opus { payload, sample_count }, outcome));
        },
    }
}

/// A turn hands every frame that the ring fills up to the queue, each as the codec has encoded
/// it, in order: until the queue is closed, which ends the loop at that frame. The ring is
/// emptied exactly unless that happens before.
pub proof fn turns_hand_over_every_frame<E, F: Fn(E, Vec<u32>) -> (E, Vec<u8>)>(
    before: OpusEncoderLoop<E>,
    encode: F,
    ring: Seq<u32>,
    used: int,
    frames: Seq<Vec<u32>>,
    codes: Seq<Vec<u8>>,
    outcomes: Seq<Queued>,
    after: OpusEncoderLoop<E>,
    flow: Flow,
)
    requires
        before.turns(encode, ring, used, frames, codes, outcomes, after, flow),
    ensures
        0 <= used <= ring.len(),
        joined(frames) + after.opus_encoder.pending() == before.opus_encoder.pending() + ring.take(
            used,
        ),
        forall|j: int|
            0 <= j < frames.len() ==> (#[trigger] frames[j])@.len()
                == before.opus_encoder.frame_len(),
        after.opus_encoder.pending().len() < before.opus_encoder.frame_len(),
        all_encoded(
            encode,
            before.opus_encoder.codec(),
            frames,
            codes,
            after.opus_encoder.codec(),
        ),
        outcomes.len() == frames.len(),
        codes.len() == frames.len(),
        forall|i: int|
            0 <= i < outcomes.len() ==> hands_code(
                before.sender,
                codes[i]@,
                before.opus_encoder.frame_len() as u32,
                #[trigger] outcomes[i],
            ),
        forall|i: int| 0 <= i < outcomes.len() - 1 ==> !(#[trigger] outcomes[i] is Closed),
        flow == Flow::Break <==> outcomes.len() > 0 && outcomes.last() is Closed,
        flow == Flow::Continue ==> used == ring.len(),
        flow == Flow::Break ==> after.opus_encoder.pending().len() == 0,
{
    framing_keeps_every_sample(
        before.opus_encoder.pending() + ring.take(used),
        before.opus_encoder.frame_len(),
        frames,
        after.opus_encoder.pending(),
    );
}

/// A stream can be recorded from exactly if it has samples in 10 ms and sixteen frames of 20 ms
/// of it are within an eighth of the address space.
pub proof fn recordable_streams_have_frames(params: StreamParams)
    ensures
        recordable(params) <==> params.samples_per_channel(20) <= usize::MAX
            && params.samples_in_all(10) > 0 && params.samples_in_all(20) * 16 <= usize::MAX / 8,
{
}

/// Audio holds one payload and one count.
pub proof fn audio_holds_one_code(payload: Bytes, sample_count: u32, code: Seq<u8>, count: u32)
    ensures
        holds_code(OutboundAudio::Opus { payload, sample_count }, code, count) <==> bytes_contents(
            payload,
        ) == code && sample_count == count,
{
}

/// The encoder goes on until the queue is closed, and warns exactly if an older frame was dropped.
pub proof fn encoders_go_on_until_closed(outcome: &Queued, decision: (Flow, bool))
    requires
        call_ensures(after_force_send, (outcome,), decision),
    ensures
        decision.0 is Break <==> outcome is Closed,
        decision.1 <==> outcome is Replaced,
{
}

} // verus!
