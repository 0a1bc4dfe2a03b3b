//! Playing tracks: the mixing of what their decoders give, and the stages that lead from
//! the mixer's ring to the buffers of the device.

use bytes::Bytes;
use vstd::prelude::*;

use crate::audio::{StreamParams, DURATION_10MS, DURATION_20MS};
use crate::frames::{each_done, framed, framing_keeps_every_sample, join_frames, joined};
use crate::frames::{passed_frames_join, passes_frames, process_each, take_frames};
use crate::ring::{lesser, pushable, SampleRing};
use crate::rtc::{Codec, MediaTrack, OpusChannels};

pub use crate::codec::opus::MediaTrackOpusDecoder;

verus! {

/// How many encoded frames the ring between the mixer and the device has room for.
pub const RING_FRAMES: usize = 4;

/// The least time between two warnings, in nanoseconds.
pub const WARNING_INTERVAL_NANOS: u128 = 1_000_000_000;

/// Whether a device's streams can be played on: its processor has frames to work on, and
/// its ring is within the address space.
pub open spec fn playable(params: StreamParams) -> bool {
    &&& params.samples_per_channel(DURATION_20MS) <= usize::MAX
    &&& 0 < params.samples_in_all(DURATION_10MS)
    &&& params.samples_in_all(DURATION_20MS) * RING_FRAMES <= usize::MAX / 8
}

/// Decides whether a device's streams can be played on.
pub fn is_playable(params: &StreamParams) -> (result: bool)
    ensures
        result == playable(*params),
{
    let all: u128 = all_samples_in_20ms(params);
    let per_channel: u128 = (params.sample_rate.0 / 1000) as u128 * 20;
    assert(RING_FRAMES == 4);
    assert(all * RING_FRAMES <= u128::MAX) by (nonlinear_arith)
        requires
            all <= 0x1_0000_0000 * 20 * 0x1_0000,
            RING_FRAMES == 4,
    ;
    per_channel <= usize::MAX as u128 && 0 < all && all * RING_FRAMES as u128 <= (usize::MAX / 8)
        as u128
}

/// Returns the samples of all channels in 20 ms. They may exceed the address space.
pub(crate) fn all_samples_in_20ms(params: &StreamParams) -> (samples: u128)
    ensures
        samples == params.samples_in_all(DURATION_20MS),
        samples <= 0x1_0000_0000 * 20 * 0x1_0000,
        params.samples_per_channel(DURATION_20MS) == (params.sample_rate.0 / 1000) * 20,
        params.samples_in_all(DURATION_20MS) == 2 * params.samples_in_all(DURATION_10MS),
{
    proof {
        twice_as_long(*params);
        assert(DURATION_20MS as usize == 20);
        let rate = (params.sample_rate.0 / 1000) as int;
        let channels = params.channel_count as int;
        assert(rate * 20 * channels <= 0x1_0000_0000 * 20 * 0x1_0000) by (nonlinear_arith)
            requires
                0 <= rate <= 0x1_0000_0000,
                0 <= channels <= 0x1_0000,
        ;
    }
    (params.sample_rate.0 / 1000) as u128 * 20 * params.channel_count as u128
}

/// Makes the ring between the mixer and the device.
pub fn playback_ring(params: &StreamParams) -> (ring: SampleRing)
    requires
        playable(*params),
    ensures
        ring.wf(),
        ring@ == Seq::<u32>::empty(),
        ring.capacity() == params.samples_in_all(DURATION_20MS) * RING_FRAMES,
{
    proof {
        twice_as_long(*params);
    }
    SampleRing::new(params.frame_buffer_size(DURATION_20MS) * RING_FRAMES)
}

/// Twice the time holds twice the samples.
pub(crate) proof fn twice_as_long(params: StreamParams)
    ensures
        params.samples_per_channel(DURATION_20MS) == 2 * params.samples_per_channel(DURATION_10MS),
        params.samples_in_all(DURATION_20MS) == 2 * params.samples_in_all(DURATION_10MS),
{
    assert(DURATION_10MS as usize == 10 && DURATION_20MS as usize == 20);
    assert(params.samples_in_all(DURATION_20MS) == 2 * params.samples_in_all(DURATION_10MS))
        by (nonlinear_arith)
        requires
            params.samples_in_all(DURATION_20MS) == params.samples_per_channel(DURATION_20MS)
                * params.channel_count as nat,
            params.samples_in_all(DURATION_10MS) == params.samples_per_channel(DURATION_10MS)
                * params.channel_count as nat,
            params.samples_per_channel(DURATION_20MS) == 2 * params.samples_per_channel(
                DURATION_10MS,
            ),
    ;
}

/// A warning that the device wanted more samples than there were.
#[derive(Debug, Clone, Copy, PartialEq, Eq, Structural)]
pub struct Xrun {
    /// How often the device has asked before.
    pub tick: u64,
    /// How many samples were missing.
    pub missing: usize,
    /// How many samples the device wanted.
    pub wanted: usize,
    /// How many samples were held back, too few for a frame.
    pub buffered: usize,
    /// How many warnings there were before.
    pub previous: u64,
}

/// The count after one more. A count that cannot grow starts again.
pub open spec fn following_count(count: u64) -> u64 {
    if count == u64::MAX {
        0
    } else {
        (count + 1) as u64
    }
}

/// The stages between the ring and the device.
pub struct PlaybackState {
    frame_size: usize,
    unprocessed: Vec<u32>,
    resampled: Vec<u32>,
    tick: u64,
    last_warning: u128,
    underflows: u64,
}

impl PlaybackState {
    /// The samples that are processed at once.
    pub closed spec fn frame_len(self) -> nat {
        self.frame_size as nat
    }

    /// The samples that wait for their frame to fill up.
    pub closed spec fn held_back(self) -> Seq<u32> {
        self.unprocessed@
    }

    /// The samples that are ready for the device.
    pub closed spec fn ready(self) -> Seq<u32> {
        self.resampled@
    }

    /// How often the device has asked for samples.
    pub closed spec fn ticks(self) -> u64 {
        self.tick
    }

    /// When the last warning was given, or the stages were made.
    pub closed spec fn warned_at(self) -> u128 {
        self.last_warning
    }

    /// How many warnings were given.
    pub closed spec fn warnings(self) -> u64 {
        self.underflows
    }

    /// Less than a frame is held back.
    pub open spec fn wf(self) -> bool {
        &&& self.held_back().len() < self.frame_len()
        &&& self.frame_len() <= usize::MAX / 8
    }

    /// Makes the stages for a device, at a time given in nanoseconds.
    pub fn new(params: &StreamParams, now: u128) -> (state: Self)
        requires
            playable(*params),
        ensures
            state.wf(),
            state.frame_len() == params.samples_in_all(DURATION_10MS),
            state.held_back() == Seq::<u32>::empty(),
            state.ready() == Seq::<u32>::empty(),
            state.ticks() == 0,
            state.warned_at() == now,
            state.warnings() == 0,
    {
        proof {
            twice_as_long(*params);
        }
        PlaybackState {
            frame_size: params.frame_buffer_size(DURATION_10MS),
            unprocessed: Vec::new(),
            resampled: Vec::new(),
            tick: 0,
            last_warning: now,
            underflows: 0,
        }
    }

    /// What no stage but the first and the last changes.
    pub open spec fn same_counts(self, other: Self) -> bool {
        &&& self.frame_len() == other.frame_len()
        &&& self.ticks() == other.ticks()
        &&& self.warned_at() == other.warned_at()
        &&& self.warnings() == other.warnings()
    }

    /// Takes everything from the ring, and returns the frames to be processed, in order.
    pub fn take_in(&mut self, ring: &mut SampleRing) -> (frames: Vec<Vec<u32>>)
        requires
            old(self).wf(),
            old(ring).wf(),
        ensures
            final(self).wf(),
            final(self).same_counts(*old(self)),
            final(self).ready() == old(self).ready(),
            framed(
                old(self).held_back() + old(ring)@,
                old(self).frame_len(),
                frames@,
                final(self).held_back(),
            ),
            final(ring).wf(),
            final(ring).capacity() == old(ring).capacity(),
            final(ring)@ == Seq::<u32>::empty(),
    {
        let mut popped: Vec<u32> = ring.pop_all();
        self.unprocessed.append(&mut popped);
        take_frames(&mut self.unprocessed, self.frame_size)
    }

    /// Adds samples that have been resampled to the rate of the device.
    pub fn push_resampled(&mut self, samples: &[u32])
        requires
            old(self).wf(),
        ensures
            final(self).wf(),
            final(self).same_counts(*old(self)),
            final(self).held_back() == old(self).held_back(),
            final(self).ready() == old(self).ready() + samples@,
    {
        let mut more: Vec<u32> = vstd::slice::slice_to_vec(samples);
        self.resampled.append(&mut more);
    }

    /// Whether a warning is due at a time: more than the least time has passed since the
    /// last one.
    pub open spec fn warning_due(self, now: u128) -> bool {
        now - self.warned_at() > WARNING_INTERVAL_NANOS
    }

    /// Gives samples out to the device, which wants `wanted` of them, at a time given in
    /// nanoseconds. Where there are too few, gives a warning if one is due.
    pub fn give_out(&mut self, ring: &SampleRing, wanted: usize, now: u128) -> (given: (
        Vec<u32>,
        Option<Xrun>,
    ))
        requires
            old(self).wf(),
            ring.wf(),
        ensures
            final(self).wf(),
            final(self).frame_len() == old(self).frame_len(),
            final(self).held_back() == old(self).held_back(),
            given.0@ == old(self).ready().take(lesser(wanted as nat, old(self).ready().len()) as int),
            final(self).ready() == old(self).ready().skip(given.0@.len() as int),
            final(self).ticks() == following_count(old(self).ticks()),
            if given.0@.len() < wanted && old(self).warning_due(now) {
                &&& given.1 == Some(
                    (Xrun {
                        tick: old(self).ticks(),
                        missing: (wanted - given.0@.len()) as usize,
                        wanted,
                        buffered: (old(self).held_back().len() + ring@.len()) as usize,
                        previous: old(self).warnings(),
                    }),
                )
                &&& final(self).warnings() == following_count(old(self).warnings())
                &&& final(self).warned_at() == now
            } else {
                &&& given.1 is None
                &&& final(self).warnings() == old(self).warnings()
                &&& final(self).warned_at() == old(self).warned_at()
            },
    {
        let out_len: usize = if self.resampled.len() <= wanted {
            self.resampled.len()
        } else {
            wanted
        };
        let rest: Vec<u32> = self.resampled.split_off(out_len);
        let mut out: Vec<u32> = Vec::new();
        out.append(&mut self.resampled);
        self.resampled = rest;
        let mut warning: Option<Xrun> = None;
        if out_len < wanted {
            if now > self.last_warning && now - self.last_warning > WARNING_INTERVAL_NANOS {
                warning = Some(
                    Xrun {
                        tick: self.tick,
                        missing: wanted - out_len,
                        wanted,
                        buffered: self.unprocessed.len() + ring.occupied_len(),
                        previous: self.underflows,
                    },
                );
                self.underflows = self.underflows.wrapping_add(1);
                self.last_warning = now;
            }
        }
        self.tick = self.tick.wrapping_add(1);
        (out, warning)
    }

    /// Whether one callback of the device has led from these stages to `after`: the samples
    /// of the ring have gone through `process` by frames, then through `resample`, and the
    /// device was given `out`.
    pub open spec fn called<
        S,
        P: Fn(S, Vec<u32>) -> (S, Vec<u32>),
        R: Fn(Vec<u32>) -> Vec<u32>,
    >(
        self,
        ring: Seq<u32>,
        first: S,
        process: P,
        last: S,
        resample: R,
        wanted: usize,
        after: Self,
        out: Seq<u32>,
    ) -> bool {
        exists|frames: Seq<Vec<u32>>, done: Seq<Vec<u32>>, given: Vec<u32>, back: Vec<u32>|
            {
                &&& #[trigger] framed(
                    self.held_back() + ring,
                    self.frame_len(),
                    frames,
                    after.held_back(),
                )
                &&& #[trigger] each_done(process, first, frames, done, last)
                &&& given@ == joined(done)
                &&& #[trigger] resample.ensures((given,), back)
                &&& out == (self.ready() + back@).take(
                    lesser(wanted as nat, (self.ready() + back@).len()) as int,
                )
                &&& after.ready() == (self.ready() + back@).skip(out.len() as int)
            }
    }

    /// Answers a callback of the device, which wants `wanted` samples, at a time given in
    /// nanoseconds. `process` is the audio processor on the render side, which goes from one
    /// state to the next, and `resample` changes the rate to that of the device.
    pub fn callback<
        S,
        P: Fn(S, Vec<u32>) -> (S, Vec<u32>),
        R: Fn(Vec<u32>) -> Vec<u32>,
    >(
        &mut self,
        ring: &mut SampleRing,
        processor: S,
        process: &P,
        resample: &R,
        wanted: usize,
        now: u128,
    ) -> (given: (Vec<u32>, Option<Xrun>, S))
        requires
            old(self).wf(),
            old(ring).wf(),
            forall|state: S, frame: Vec<u32>| #[trigger] process.requires((state, frame)),
            forall|samples: Vec<u32>| #[trigger] resample.requires((samples,)),
        ensures
            final(self).wf(),
            final(self).frame_len() == old(self).frame_len(),
            old(self).called(
                old(ring)@,
                processor,
                *process,
                given.2,
                *resample,
                wanted,
                *final(self),
                given.0@,
            ),
            final(ring).wf(),
            final(ring).capacity() == old(ring).capacity(),
            final(ring)@ == Seq::<u32>::empty(),
            final(self).ticks() == following_count(old(self).ticks()),
            if given.0@.len() < wanted && old(self).warning_due(now) {
                &&& given.1 == Some(
                    (Xrun {
                        tick: old(self).ticks(),
                        missing: (wanted - given.0@.len()) as usize,
                        wanted,
                        buffered: final(self).held_back().len() as usize,
                        previous: old(self).warnings(),
                    }),
                )
                &&& final(self).warnings() == following_count(old(self).warnings())
                &&& final(self).warned_at() == now
            } else {
                &&& given.1 is None
                &&& final(self).warnings() == old(self).warnings()
                &&& final(self).warned_at() == old(self).warned_at()
            },
    {
        let frames: Vec<Vec<u32>> = self.take_in(ring);
        let ghost frames_taken = frames@;
        let (done, last) = process_each(frames, processor, process);
        let processed: Vec<u32> = join_frames(&done);
        let ghost handed = processed;
        let resampled: Vec<u32> = resample(processed);
        self.push_resampled(resampled.as_slice());
        let (out, warning) = self.give_out(ring, wanted, now);
        assert(each_done(*process, processor, frames_taken, done@, last));
        assert(resample.ensures((handed,), resampled));
        (out, warning, last)
    }
}

/// Whether `work` gives back what it is given.
pub open spec fn passes_through<F: Fn(Vec<u32>) -> Vec<u32>>(work: F) -> bool {
    forall|given: Vec<u32>, back: Vec<u32>| #[trigger] work.ensures((given,), back) ==> back@ == given@
}

/// Where the processor and the resampler give back what they are given, playing loses,
/// invents and reorders nothing: what the device is given and what is left are what was
/// there and what came from the ring.
pub proof fn playing_keeps_every_sample<
    S,
    P: Fn(S, Vec<u32>) -> (S, Vec<u32>),
    R: Fn(Vec<u32>) -> Vec<u32>,
>(
    before: PlaybackState,
    ring: Seq<u32>,
    first: S,
    process: P,
    last: S,
    resample: R,
    wanted: usize,
    after: PlaybackState,
    out: Seq<u32>,
)
    requires
        before.called(ring, first, process, last, resample, wanted, after, out),
        passes_frames::<S, P>(process),
        passes_through(resample),
    ensures
        out + after.ready() + after.held_back() == before.ready() + before.held_back() + ring,
{
    let (frames, done, given, back) = choose|
        frames: Seq<Vec<u32>>,
        done: Seq<Vec<u32>>,
        given: Vec<u32>,
        back: Vec<u32>,
    |
        {
            &&& #[trigger] framed(
                before.held_back() + ring,
                before.frame_len(),
                frames,
                after.held_back(),
            )
            &&& #[trigger] each_done(process, first, frames, done, last)
            &&& given@ == joined(done)
            &&& #[trigger] resample.ensures((given,), back)
            &&& out == (before.ready() + back@).take(
                lesser(wanted as nat, (before.ready() + back@).len()) as int,
            )
            &&& after.ready() == (before.ready() + back@).skip(out.len() as int)
        };
    framing_keeps_every_sample(
        before.held_back() + ring,
        before.frame_len(),
        frames,
        after.held_back(),
    );
    passed_frames_join(process, first, frames, done, last);
    assert(out + after.ready() =~= before.ready() + back@);
    assert(out + after.ready() + after.held_back() =~= before.ready() + (joined(frames)
        + after.held_back()));
    assert(before.ready() + (before.held_back() + ring) =~= before.ready() + before.held_back()
        + ring);
}

/// The samples that are mixed in one turn.
pub const MIX_LEN: usize = 960;

/// The tracks that can wait for the mixer to take them.
pub const WAITING_TRACKS: usize = 16;

/// What the mixer finds when it looks for new tracks.
pub enum TrackOffer<D> {
    /// A track, and the codec that decodes it.
    Track(MediaTrack, D),
    /// There is none now.
    Empty,
    /// There will be none any more.
    Disconnected,
}

/// What the mixer does after it has looked for new tracks.
#[derive(Debug, Clone, Copy, PartialEq, Eq, Structural)]
pub enum MixerStep {
    /// Look again.
    Again,
    /// Mix what the tracks give.
    Mix,
    /// Stop.
    Stop,
}

/// Whether samples were added to the front of a buffer, one by one.
pub open spec fn mixed_in<F: Fn(u32, u32) -> u32>(
    plus: F,
    before: Seq<u32>,
    samples: Seq<u32>,
    after: Seq<u32>,
) -> bool {
    &&& after.len() == before.len()
    &&& forall|i: int|
        0 <= i < after.len() ==> if i < samples.len() {
            plus.ensures((before[i], samples[i]), #[trigger] after[i])
        } else {
            after[i] == before[i]
        }
}

/// Whether a buffer is silence to which the samples of each part were added, in order.
pub open spec fn mixed<F: Fn(u32, u32) -> u32>(plus: F, parts: Seq<Seq<u32>>, out: Seq<u32>) -> bool
    decreases parts.len(),
{
    if parts.len() == 0 {
        out == Seq::new(MIX_LEN as nat, |i: int| 0u32)
    } else {
        exists|before: Seq<u32>|
            {
                &&& mixed(plus, parts.drop_last(), before)
                &&& #[trigger] mixed_in(plus, before, parts.last(), out)
            }
    }
}

fn mix_in<F: Fn(u32, u32) -> u32>(buf: &mut Vec<u32>, samples: &[u32], plus: &F)
    requires
        samples@.len() <= old(buf)@.len(),
        forall|a: u32, b: u32| #[trigger] plus.requires((a, b)),
    ensures
        mixed_in(*plus, old(buf)@, samples@, final(buf)@),
{
    let mut next: usize = 0;
    while next < samples.len()
        invariant
            next <= samples@.len() <= buf@.len(),
            buf@.len() == old(buf)@.len(),
            forall|a: u32, b: u32| #[trigger] plus.requires((a, b)),
            forall|i: int|
                0 <= i < next ==> plus.ensures((old(buf)@[i], samples@[i]), #[trigger] buf@[i]),
            forall|i: int| next <= i < buf@.len() ==> #[trigger] buf@[i] == old(buf)@[i],
        decreases samples@.len() - next,
    {
        let sum: u32 = plus(buf[next], samples[next]);
        buf[next] = sum;
        next = next + 1;
    }
}

/// The decoders that are kept: those whose track has not ended and whose codec has not
/// failed in their tick.
pub open spec fn kept<D, X>(
    decoders: Seq<MediaTrackOpusDecoder<D>>,
    results: Seq<Result<Option<usize>, X>>,
) -> Seq<MediaTrackOpusDecoder<D>>
    decreases decoders.len(),
{
    if decoders.len() == 0 {
        Seq::empty()
    } else {
        let before = kept(decoders.drop_last(), results.drop_last());
        if results.last() matches Ok(Some(_)) {
            before.push(decoders.last())
        } else {
            before
        }
    }
}

/// Whether the tick of each decoder has led to `after` and has come to its result.
pub open spec fn all_collect<D, X, F: Fn(D, Option<Bytes>) -> (D, Result<Vec<u32>, X>)>(
    decode: F,
    before: Seq<MediaTrackOpusDecoder<D>>,
    after: Seq<MediaTrackOpusDecoder<D>>,
    results: Seq<Result<Option<usize>, X>>,
) -> bool {
    &&& after.len() == before.len()
    &&& results.len() == before.len()
    &&& forall|i: int|
        0 <= i < before.len() ==> before[i].collects(decode, #[trigger] after[i], results[i])
}

/// Mixes the tracks that are played.
pub struct Mixer<D> {
    pub decoders: Vec<MediaTrackOpusDecoder<D>>,
}

impl<D> Mixer<D> {
    /// Makes a mixer without tracks.
    pub fn new() -> (mixer: Self)
        ensures
            mixer.decoders@ == Seq::<MediaTrackOpusDecoder<D>>::empty(),
    {
        Mixer { decoders: Vec::new() }
    }

    /// All decoders are in order.
    pub open spec fn wf(self) -> bool {
        forall|i: int| 0 <= i < self.decoders@.len() ==> (#[trigger] self.decoders@[i]).wf()
    }

    /// What each decoder adds to the mix: the first samples of this tick.
    pub open spec fn parts(self) -> Seq<Seq<u32>> {
        Seq::new(
            self.decoders@.len(),
            |i: int|
                self.decoders@[i].decoded().take(
                    lesser(MIX_LEN as nat, self.decoders@[i].decoded().len()) as int,
                ),
        )
    }

    /// Takes a new track, if there is one.
    pub fn look_for_tracks(&mut self, offer: TrackOffer<D>) -> (step: MixerStep)
        requires
            old(self).wf(),
        ensures
            final(self).wf(),
            match offer {
                TrackOffer::Track(track, codec) => {
                    &&& step == MixerStep::Again
                    &&& final(self).decoders@.len() == old(self).decoders@.len() + 1
                    &&& final(self).decoders@.drop_last() == old(self).decoders@
                    &&& final(self).decoders@.last().codec() == codec
                    &&& final(self).decoders@.last().source() == track.receiver
                    &&& final(self).decoders@.last().decoded() == Seq::<u32>::empty()
                    &&& final(self).decoders@.last().layout() == layout_of_codec(track.track_codec)
                },
                TrackOffer::Empty => {
                    &&& step == MixerStep::Mix
                    &&& final(self).decoders@ == old(self).decoders@
                },
                TrackOffer::Disconnected => {
                    &&& step == MixerStep::Stop
                    &&& final(self).decoders@ == old(self).decoders@
                },
            },
    {
        match offer {
            TrackOffer::Track(track, codec) => {
                self.decoders.push(MediaTrackOpusDecoder::new(track, codec));
                assert(self.decoders@.drop_last() =~= old(self).decoders@);
                MixerStep::Again
            },
            TrackOffer::Empty => MixerStep::Mix,
            TrackOffer::Disconnected => MixerStep::Stop,
        }
    }

    /// Runs the tick of each decoder, in order. Those whose track has ended or whose codec has
    /// failed are dropped.
    pub fn tick<X, F: Fn(D, Option<Bytes>) -> (D, Result<Vec<u32>, X>)>(&mut self, decode: &F)
        requires
            old(self).wf(),
            forall|codec: D, payload: Option<Bytes>| #[trigger] decode.requires((codec, payload)),
        ensures
            final(self).wf(),
            exists|
                after: Seq<MediaTrackOpusDecoder<D>>,
                results: Seq<Result<Option<usize>, X>>,
            |
                {
                    &&& #[trigger] all_collect(*decode, old(self).decoders@, after, results)
                    &&& final(self).decoders@ == kept(after, results)
                },
    {
        let ghost all = self.decoders@;
        let ghost mut after: Seq<MediaTrackOpusDecoder<D>> = Seq::empty();
        let ghost mut results: Seq<Result<Option<usize>, X>> = Seq::empty();
        let mut stay: Vec<MediaTrackOpusDecoder<D>> = Vec::new();
        while self.decoders.len() > 0
            invariant
                after.len() + self.decoders@.len() == all.len(),
                results.len() == after.len(),
                self.decoders@ == all.skip(after.len() as int),
                forall|i: int| 0 <= i < all.len() ==> (#[trigger] all[i]).wf(),
                forall|i: int| 0 <= i < stay@.len() ==> (#[trigger] stay@[i]).wf(),
                forall|i: int|
                    0 <= i < after.len() ==> all[i].collects(
                        *decode,
                        #[trigger] after[i],
                        results[i],
                    ),
                stay@ == kept(after, results),
                forall|codec: D, payload: Option<Bytes>| #[trigger]
                    decode.requires((codec, payload)),
            decreases self.decoders@.len(),
        {
            let mut decoder: MediaTrackOpusDecoder<D> = self.decoders.remove(0);
            assert(decoder == all[after.len() as int]);
            let result: Result<Option<usize>, X> = decoder.collect(decode);
            proof {
                assert(after.push(decoder).drop_last() =~= after);
                assert(results.push(result).drop_last() =~= results);
                after = after.push(decoder);
                results = results.push(result);
            }
            match result {
                Ok(Some(_)) => {
                    stay.push(decoder);
                },
                _ => {},
            }
            assert(self.decoders@ =~= all.skip(after.len() as int));
        }
        assert(all_collect(*decode, all, after, results));
        self.decoders = stay;
    }

    /// Mixes the first samples of this tick of all decoders, `plus` adding two samples.
    pub fn mix<F: Fn(u32, u32) -> u32>(&self, plus: &F) -> (buf: Vec<u32>)
        requires
            forall|a: u32, b: u32| #[trigger] plus.requires((a, b)),
        ensures
            buf@.len() == MIX_LEN,
            mixed(*plus, self.parts(), buf@),
    {
        let mut buf: Vec<u32> = Vec::new();
        buf.resize(MIX_LEN, 0);
        assert(buf@ =~= Seq::new(MIX_LEN as nat, |i: int| 0u32));
        let mut next: usize = 0;
        while next < self.decoders.len()
            invariant
                next <= self.decoders@.len(),
                buf@.len() == MIX_LEN,
                forall|a: u32, b: u32| #[trigger] plus.requires((a, b)),
                mixed(*plus, self.parts().take(next as int), buf@),
            decreases self.decoders@.len() - next,
        {
            let ghost before = buf@;
            let samples: &[u32] = self.decoders[next].samples(MIX_LEN);
            assert(self.parts().take(next + 1).drop_last() =~= self.parts().take(next as int));
            assert(self.parts().take(next + 1).last() == samples@);
            mix_in(&mut buf, samples, plus);
            assert(mixed_in(*plus, before, self.parts().take(next + 1).last(), buf@));
            next = next + 1;
        }
        assert(self.parts().take(next as int) =~= self.parts());
        buf
    }

    /// Mixes one turn into the ring, and returns how many samples found no room in it.
    pub fn mix_into<F: Fn(u32, u32) -> u32>(&self, ring: &mut SampleRing, plus: &F) -> (missing:
        usize)
        requires
            old(ring).wf(),
            forall|a: u32, b: u32| #[trigger] plus.requires((a, b)),
        ensures
            final(ring).wf(),
            final(ring).capacity() == old(ring).capacity(),
            missing == MIX_LEN - pushable(old(ring)@.len(), old(ring).capacity(), MIX_LEN as nat),
            exists|buf: Seq<u32>|
                {
                    &&& #[trigger] mixed(*plus, self.parts(), buf)
                    &&& final(ring)@ == old(ring)@ + buf.take(MIX_LEN - missing)
                },
    {
        let buf: Vec<u32> = self.mix(plus);
        let len: usize = ring.push_slice(buf.as_slice());
        buf.len() - len
    }

    /// Runs a turn: has each decoder run its tick, mixes what they give into the ring, and
    /// returns how many samples found no room in it.
    pub fn turn<
        X,
        F: Fn(D, Option<Bytes>) -> (D, Result<Vec<u32>, X>),
        P: Fn(u32, u32) -> u32,
    >(&mut self, ring: &mut SampleRing, decode: &F, plus: &P) -> (missing: usize)
        requires
            old(self).wf(),
            old(ring).wf(),
            forall|codec: D, payload: Option<Bytes>| #[trigger] decode.requires((codec, payload)),
            forall|a: u32, b: u32| #[trigger] plus.requires((a, b)),
        ensures
            final(self).wf(),
            exists|
                after: Seq<MediaTrackOpusDecoder<D>>,
                results: Seq<Result<Option<usize>, X>>,
            |
                {
                    &&& #[trigger] all_collect(*decode, old(self).decoders@, after, results)
                    &&& final(self).decoders@ == kept(after, results)
                },
            final(ring).wf(),
            final(ring).capacity() == old(ring).capacity(),
            missing == MIX_LEN - pushable(old(ring)@.len(), old(ring).capacity(), MIX_LEN as nat),
            exists|buf: Seq<u32>|
                {
                    &&& #[trigger] mixed(*plus, final(self).parts(), buf)
                    &&& final(ring)@ == old(ring)@ + buf.take(MIX_LEN - missing)
                },
    {
        self.tick(decode);
        self.mix_into(ring, plus)
    }
}

/// The layout that a codec's streams have.
pub open spec fn layout_of_codec(codec: Codec) -> OpusChannels {
    match codec {
        Codec::Opus { channels } => channels,
    }
}

/// A mixer without tracks plays silence.
pub proof fn silence_without_tracks<D, F: Fn(u32, u32) -> u32>(
    mixer: Mixer<D>,
    plus: F,
    out: Seq<u32>,
)
    requires
        mixer.decoders@.len() == 0,
        mixed(plus, mixer.parts(), out),
    ensures
        out == Seq::new(MIX_LEN as nat, |i: int| 0u32),
{
}

/// Beyond the samples that the decoders have, the mix is silent.
pub proof fn silence_beyond_samples<F: Fn(u32, u32) -> u32>(
    plus: F,
    parts: Seq<Seq<u32>>,
    out: Seq<u32>,
    at: int,
)
    requires
        mixed(plus, parts, out),
        0 <= at < MIX_LEN,
        forall|p: int| 0 <= p < parts.len() ==> (#[trigger] parts[p]).len() <= at,
    ensures
        out.len() == MIX_LEN,
        out[at] == 0,
    decreases parts.len(),
{
    if parts.len() > 0 {
        let before = choose|before: Seq<u32>|
            {
                &&& mixed(plus, parts.drop_last(), before)
                &&& #[trigger] mixed_in(plus, before, parts.last(), out)
            };
        silence_beyond_samples(plus, parts.drop_last(), before, at);
    }
}

/// A turn keeps every decoder whose tick came to samples, however many, even none, in the same
/// order, and only those: `positions` are where they were.
pub proof fn ticks_decide_who_stays<D, X>(
    decoders: Seq<MediaTrackOpusDecoder<D>>,
    results: Seq<Result<Option<usize>, X>>,
) -> (positions: Seq<int>)
    requires
        results.len() == decoders.len(),
    ensures
        kept(decoders, results).len() == positions.len(),
        forall|k: int|
            0 <= k < positions.len() ==> {
                &&& 0 <= #[trigger] positions[k] < decoders.len()
                &&& results[positions[k]] is Ok
                &&& results[positions[k]]->Ok_0 is Some
                &&& kept(decoders, results)[k] == decoders[positions[k]]
            },
        forall|j: int, k: int| 0 <= j < k < positions.len() ==> positions[j] < positions[k],
        forall|i: int|
            0 <= i < decoders.len() && (#[trigger] results[i]) is Ok && results[i]->Ok_0 is Some
                ==> positions.contains(i),
    decreases decoders.len(),
{
    if decoders.len() == 0 {
        Seq::empty()
    } else {
        let n = decoders.len() - 1;
        let before = ticks_decide_who_stays(decoders.drop_last(), results.drop_last());
        let stays = results.last() is Ok && results.last()->Ok_0 is Some;
        let positions = if stays {
            before.push(n)
        } else {
            before
        };
        assert forall|i: int|
            0 <= i < decoders.len() && (#[trigger] results[i]) is Ok && results[i]->Ok_0
                is Some implies positions.contains(i) by {
            if i < n {
                assert(results.drop_last()[i] == results[i]);
                let k = choose|k: int| 0 <= k < before.len() && before[k] == i;
                assert(positions[k] == i);
            } else {
                assert(positions[before.len() as int] == i);
            }
        }
        positions
    }
}

/// Where no track has ended and no codec has failed, a turn keeps all decoders.
pub proof fn running_tracks_stay<D, X>(
    decoders: Seq<MediaTrackOpusDecoder<D>>,
    results: Seq<Result<Option<usize>, X>>,
)
    requires
        results.len() == decoders.len(),
        forall|i: int|
            0 <= i < results.len() ==> (#[trigger] results[i]) is Ok && results[i]->Ok_0 is Some,
    ensures
        kept(decoders, results) == decoders,
    decreases decoders.len(),
{
    if decoders.len() > 0 {
        assert forall|i: int| 0 <= i < results.drop_last().len() implies (
        #[trigger] results.drop_last()[i]) is Ok && results.drop_last()[i]->Ok_0 is Some by {
            assert(results.drop_last()[i] == results[i]);
        }
        running_tracks_stay(decoders.drop_last(), results.drop_last());
        assert(results[results.len() - 1] is Ok);
        assert(decoders.drop_last().push(decoders.last()) =~= decoders);
    }
    assert(kept(decoders, results) =~= decoders);
}

/// Each decoder runs its own tick, and none is left out.
pub proof fn every_decoder_ticks<D, X, F: Fn(D, Option<Bytes>) -> (D, Result<Vec<u32>, X>)>(
    decode: F,
    before: Seq<MediaTrackOpusDecoder<D>>,
    after: Seq<MediaTrackOpusDecoder<D>>,
    results: Seq<Result<Option<usize>, X>>,
    at: int,
)
    requires
        all_collect(decode, before, after, results),
        0 <= at < before.len(),
    ensures
        after.len() == before.len(),
        results.len() == before.len(),
        before[at].collects(decode, after[at], results[at]),
{
    let ticked = after[at];
}

/// A decoder adds the first samples of its tick to the mix: all of them, or as many as are mixed
/// in one turn.
pub proof fn decoders_add_their_first_samples<D>(mixer: Mixer<D>, at: int)
    requires
        0 <= at < mixer.decoders@.len(),
    ensures
        mixer.parts().len() == mixer.decoders@.len(),
        mixer.decoders@[at].decoded().len() <= 960 ==> mixer.parts()[at]
            == mixer.decoders@[at].decoded(),
        mixer.decoders@[at].decoded().len() > 960 ==> mixer.parts()[at]
            == mixer.decoders@[at].decoded().take(960),
{
    let decoded = mixer.decoders@[at].decoded();
    assert(decoded.take(decoded.len() as int) =~= decoded);
}

/// A mix starts from silence, and each part is added to what those before it have made, sample
/// by sample from the front. Where a part has no sample, what was there stays.
pub proof fn parts_are_added_one_by_one<F: Fn(u32, u32) -> u32>(
    plus: F,
    parts: Seq<Seq<u32>>,
    part: Seq<u32>,
    out: Seq<u32>,
)
    ensures
        mixed(plus, Seq::empty(), out) <==> out.len() == 960 && (forall|i: int|
            0 <= i < out.len() ==> #[trigger] out[i] == 0),
        mixed(plus, parts.push(part), out) ==> exists|before: Seq<u32>|
            {
                &&& #[trigger] mixed(plus, parts, before)
                &&& out.len() == before.len()
                &&& forall|i: int|
                    0 <= i < out.len() && i < part.len() ==> plus.ensures(
                        (before[i], part[i]),
                        #[trigger] out[i],
                    )
                &&& forall|i: int|
                    part.len() <= i < out.len() ==> #[trigger] out[i] == before[i]
            },
{
    let silence = Seq::new(MIX_LEN as nat, |i: int| 0u32);
    if out.len() == 960 && (forall|i: int| 0 <= i < out.len() ==> #[trigger] out[i] == 0) {
        assert(out =~= silence);
    }
    let more = parts.push(part);
    assert(more.drop_last() =~= parts);
    assert(more.last() == part);
    if mixed(plus, more, out) {
        let before = choose|before: Seq<u32>|
            {
                &&& mixed(plus, more.drop_last(), before)
                &&& #[trigger] mixed_in(plus, before, more.last(), out)
            };
        assert(mixed(plus, parts, before));
    }
}

/// Playing hands the samples of the ring to the processor by whole frames, in order, what it
/// makes of them to the resampler, all at once, and what that makes of it to the device, after
/// what was ready before. The device gets as much as it wants, or all there is.
pub proof fn playing_goes_through_its_stages<
    S,
    P: Fn(S, Vec<u32>) -> (S, Vec<u32>),
    R: Fn(Vec<u32>) -> Vec<u32>,
>(
    before: PlaybackState,
    ring: Seq<u32>,
    first: S,
    process: P,
    last: S,
    resample: R,
    wanted: usize,
    after: PlaybackState,
    out: Seq<u32>,
)
    requires
        before.called(ring, first, process, last, resample, wanted, after, out),
    ensures
        exists|frames: Seq<Vec<u32>>, done: Seq<Vec<u32>>, given: Vec<u32>, back: Vec<u32>|
            {
                &&& #[trigger] each_done(process, first, frames, done, last)
                &&& joined(frames) + after.held_back() == before.held_back() + ring
                &&& forall|j: int|
                    0 <= j < frames.len() ==> (#[trigger] frames[j])@.len() == before.frame_len()
                &&& after.held_back().len() < before.frame_len()
                &&& given@ == joined(done)
                &&& #[trigger] resample.ensures((given,), back)
                &&& out + after.ready() == before.ready() + back@
                &&& out.len() <= wanted
                &&& out.len() < wanted ==> after.ready().len() == 0
            },
{
    let (frames, done, given, back) = choose|
        frames: Seq<Vec<u32>>,
        done: Seq<Vec<u32>>,
        given: Vec<u32>,
        back: Vec<u32>,
    |
        {
            &&& #[trigger] framed(
                before.held_back() + ring,
                before.frame_len(),
                frames,
                after.held_back(),
            )
            &&& #[trigger] each_done(process, first, frames, done, last)
            &&& given@ == joined(done)
            &&& #[trigger] resample.ensures((given,), back)
            &&& out == (before.ready() + back@).take(
                lesser(wanted as nat, (before.ready() + back@).len()) as int,
            )
            &&& after.ready() == (before.ready() + back@).skip(out.len() as int)
        };
    framing_keeps_every_sample(
        before.held_back() + ring,
        before.frame_len(),
        frames,
        after.held_back(),
    );
    assert(out + after.ready() =~= before.ready() + back@);
    assert(each_done(process, first, frames, done, last));
}

/// A count grows by one, and starts again where it cannot.
pub proof fn counts_grow_by_one(count: u64)
    ensures
        count < 0xffff_ffff_ffff_ffff ==> following_count(count) == count + 1,
        count == 0xffff_ffff_ffff_ffff ==> following_count(count) == 0,
{
}

/// A stream can be played on exactly if it has samples in 10 ms and four frames of 20 ms of it
/// are within an eighth of the address space.
pub proof fn playable_streams_have_frames(params: StreamParams)
    ensures
        playable(params) <==> params.samples_per_channel(20) <= usize::MAX
            && params.samples_in_all(10) > 0 && params.samples_in_all(20) * 4 <= usize::MAX / 8,
{
}

/// A warning is due once more than a second has passed since the last one.
pub proof fn warnings_are_due_after_a_second(state: PlaybackState, now: u128)
    ensures
        state.warning_due(now) <==> now > state.warned_at() + 1_000_000_000,
{
}

/// Work passes frames, or samples, through exactly if it gives back what it is given.
pub proof fn passing_gives_back<
    S,
    P: Fn(S, Vec<u32>) -> (S, Vec<u32>),
    R: Fn(Vec<u32>) -> Vec<u32>,
>(process: P, resample: R)
    ensures
        (forall|state: S, given: Vec<u32>, next: S, back: Vec<u32>| #[trigger]
            process.ensures((state, given), (next, back)) ==> back@ == given@) ==> passes_frames::<
            S,
            P,
        >(process),
        (forall|given: Vec<u32>, back: Vec<u32>| #[trigger]
            resample.ensures((given,), back) ==> back@ == given@) ==> passes_through(resample),
{
}

/// A track's layout is that of its codec.
pub proof fn codecs_have_their_layout(channels: OpusChannels)
    ensures
        layout_of_codec(Codec::Opus { channels }) == channels,
{
}

/// The stages between the first and the last one change neither the frames nor what is counted.
pub proof fn stages_between_count_nothing(before: PlaybackState, after: PlaybackState)
    requires
        after.same_counts(before),
    ensures
        after.frame_len() == before.frame_len(),
        after.ticks() == before.ticks(),
        after.warned_at() == before.warned_at(),
        after.warnings() == before.warnings(),
{
}

} // verus!
