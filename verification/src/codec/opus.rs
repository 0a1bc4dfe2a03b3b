//! The stages before and after Opus: the framing of samples for the encoder, and the
//! collecting of what the decoder makes of a track.
//!
//! The codec itself works on floating-point samples and is a type parameter here. It is
//! carried along, and what it does is handed in: a function from the codec and what it is
//! given to the codec and what it gives.

use bytes::{Bytes, BytesMut};
use tokio::sync::broadcast;
use vstd::prelude::*;

use crate::audio::{opus_params, StreamParams, DURATION_20MS};
use crate::frames::{drawn_len, frame_drawn, framed, framed_push, joined, joined_append};
use crate::frames::{framed_draw, framed_nothing, framing_keeps_every_sample, joined_push};
use crate::payload::{buffer_contents, buffer_slice, bytes_contents, resized};
use crate::ring::{lesser, SampleRing};
use crate::rtc::{can_happen, gives, gives_all, gives_nothing, gives_one_more, hears};
use crate::rtc::{kept_frames, same_channel};
use crate::rtc::{Codec, MediaFrame, MediaTrack, RecvOutcome, TrackKind};

pub use crate::rtc::OpusChannels;

verus! {

/// Whether a loop goes on.
#[derive(Debug, Clone, Copy, PartialEq, Eq, Structural)]
pub enum Flow {
    Continue,
    Break,
}

/// Collects samples into frames for an Opus encoder, and cuts the encoded frames from a
/// buffer that the encoder writes into.
pub struct OpusEncoder<E> {
    encoder: Option<E>,
    samples: Vec<u32>,
    out_buf: BytesMut,
    samples_per_frame: usize,
}

impl<E> OpusEncoder<E> {
    /// Whether the codec is there. It is away only while it works.
    pub closed spec fn has_codec(self) -> bool {
        self.encoder is Some
    }

    /// The codec that is carried along.
    pub closed spec fn codec(self) -> E {
        self.encoder->0
    }

    /// The samples that wait for their frame to fill up.
    pub closed spec fn pending(self) -> Seq<u32> {
        self.samples@
    }

    /// The bytes of the buffer that the encoder writes into.
    pub closed spec fn output(self) -> Seq<u8> {
        buffer_contents(self.out_buf)
    }

    /// The samples that make up a frame, by the stream's parameters.
    pub closed spec fn nominal_len(self) -> usize {
        self.samples_per_frame
    }

    /// The length of the frames. Where the parameters give none, each sample is a frame.
    pub open spec fn frame_len(self) -> nat {
        if self.nominal_len() == 0 {
            1
        } else {
            self.nominal_len() as nat
        }
    }

    /// A frame is handed on as soon as it is full, and the encoder always has a buffer of
    /// one byte for each sample of a frame.
    pub open spec fn wf(self) -> bool {
        &&& self.has_codec()
        &&& self.pending().len() < self.frame_len()
        &&& self.output().len() == self.nominal_len()
        &&& self.nominal_len() <= usize::MAX / 2
    }

    /// Makes the framing for frames of 20 ms of a stream.
    pub fn new(params: StreamParams, encoder: E) -> (framer: Self)
        requires
            params.samples_per_channel(DURATION_20MS) <= usize::MAX,
            params.samples_in_all(DURATION_20MS) <= usize::MAX / 2,
        ensures
            framer.wf(),
            framer.codec() == encoder,
            framer.pending() == Seq::<u32>::empty(),
            framer.nominal_len() == params.samples_in_all(DURATION_20MS),
            framer.output() == Seq::new(framer.nominal_len() as nat, |i: int| 0u8),
    {
        let samples_per_frame: usize = params.frame_buffer_size(DURATION_20MS);
        let mut out_buf: BytesMut = BytesMut::new();
        out_buf.resize(samples_per_frame, 0);
        OpusEncoder { encoder: Some(encoder), samples: Vec::new(), out_buf, samples_per_frame }
    }

    /// Adds a sample. If it fills the frame up, returns the frame and its sample count.
    pub fn push_sample(&mut self, sample: u32) -> (frame: Option<(Vec<u32>, u32)>)
        requires
            old(self).wf(),
        ensures
            final(self).wf(),
            final(self).codec() == old(self).codec(),
            final(self).nominal_len() == old(self).nominal_len(),
            final(self).output() == old(self).output(),
            match frame {
                Some((samples, sample_count)) => {
                    &&& old(self).pending().len() + 1 == old(self).frame_len()
                    &&& samples@ == old(self).pending().push(sample)
                    &&& sample_count == samples@.len() as u32
                    &&& final(self).pending() == Seq::<u32>::empty()
                },
                None => {
                    &&& old(self).pending().len() + 1 < old(self).frame_len()
                    &&& final(self).pending() == old(self).pending().push(sample)
                },
            },
    {
        self.samples.push(sample);
        if self.samples.len() >= self.samples_per_frame {
            let sample_count: u32 = #[verifier::truncate] (self.samples.len() as u32);
            let mut frame: Vec<u32> = Vec::new();
            frame.append(&mut self.samples);
            Some((frame, sample_count))
        } else {
            None
        }
    }

    /// Adds the samples from position `from` on, up to the one that fills a frame up. Returns
    /// the frame and its sample count, if there is one, and the position of the first sample
    /// that was not added.
    pub fn push_slice(&mut self, samples: &[u32], from: usize) -> (pushed: (
        Option<(Vec<u32>, u32)>,
        usize,
    ))
        requires
            old(self).wf(),
            from <= samples@.len(),
        ensures
            final(self).wf(),
            final(self).codec() == old(self).codec(),
            final(self).nominal_len() == old(self).nominal_len(),
            final(self).output() == old(self).output(),
            frame_drawn(
                old(self).pending(),
                samples@.skip(from as int),
                old(self).frame_len(),
                pushed.0,
                final(self).pending(),
            ),
            pushed.1 == from + drawn_len(
                old(self).pending(),
                samples@.skip(from as int),
                old(self).frame_len(),
            ),
    {
        let ghost left = samples@.skip(from as int);
        let mut next: usize = from;
        assert(old(self).pending() + left.take(0) =~= old(self).pending());
        while next < samples.len()
            invariant
                from <= next <= samples@.len(),
                left == samples@.skip(from as int),
                self.wf(),
                self.codec() == old(self).codec(),
                self.nominal_len() == old(self).nominal_len(),
                self.output() == old(self).output(),
                self.pending() == old(self).pending() + left.take(next - from),
            decreases samples@.len() - next,
        {
            let sample: u32 = samples[next];
            assert((old(self).pending() + left.take(next - from)).push(sample) =~= old(
                self,
            ).pending() + left.take(next - from + 1));
            let frame: Option<(Vec<u32>, u32)> = self.push_sample(sample);
            next = next + 1;
            if frame.is_some() {
                return (frame, next);
            }
        }
        assert(left.take(next - from) =~= left);
        (None, next)
    }

    /// Adds samples and returns all frames that they fill up, in order.
    pub fn push_all(&mut self, samples: &[u32]) -> (frames: Vec<Vec<u32>>)
        requires
            old(self).wf(),
        ensures
            final(self).wf(),
            final(self).codec() == old(self).codec(),
            final(self).nominal_len() == old(self).nominal_len(),
            final(self).output() == old(self).output(),
            framed(
                old(self).pending() + samples@,
                old(self).frame_len(),
                frames@,
                final(self).pending(),
            ),
    {
        let mut frames: Vec<Vec<u32>> = Vec::new();
        let ghost len = self.frame_len();
        assert(old(self).pending() + samples@.take(0) == old(self).pending());
        assert(framed(old(self).pending(), len, frames@, old(self).pending())) by {
            assert(0 * len == 0) by (nonlinear_arith);
            assert(old(self).pending().skip(0) == old(self).pending());
        }
        let mut next: usize = 0;
        while next < samples.len()
            invariant
                next <= samples@.len(),
                self.wf(),
                self.codec() == old(self).codec(),
                self.nominal_len() == old(self).nominal_len(),
                self.output() == old(self).output(),
                len == old(self).frame_len(),
                framed(
                    old(self).pending() + samples@.take(next as int),
                    len,
                    frames@,
                    self.pending(),
                ),
            decreases samples@.len() - next,
        {
            let ghost before = old(self).pending() + samples@.take(next as int);
            let ghost rest = self.pending();
            let sample: u32 = samples[next];
            assert(old(self).pending() + samples@.take(next + 1) == before.push(sample));
            match self.push_sample(sample) {
                Some((frame, _)) => {
                    proof {
                        framed_push(before, len, frames@, rest, sample, frame);
                    }
                    frames.push(frame);
                },
                None => {
                    let ghost v: Vec<u32> = self.samples;
                    proof {
                        framed_push(before, len, frames@, rest, sample, v);
                    }
                },
            }
            next = next + 1;
        }
        assert(samples@.take(next as int) == samples@);
        frames
    }

    /// Takes samples from a ring, up to the one that fills a frame up, and returns the frame
    /// and its sample count. There is none where the ring holds too few samples: then it is
    /// emptied.
    pub fn pop_from_consumer(&mut self, ring: &mut SampleRing) -> (frame: Option<(Vec<u32>, u32)>)
        requires
            old(self).wf(),
            old(ring).wf(),
        ensures
            final(self).wf(),
            final(self).codec() == old(self).codec(),
            final(self).nominal_len() == old(self).nominal_len(),
            final(self).output() == old(self).output(),
            frame_drawn(
                old(self).pending(),
                old(ring)@,
                old(self).frame_len(),
                frame,
                final(self).pending(),
            ),
            final(ring).wf(),
            final(ring).capacity() == old(ring).capacity(),
            final(ring)@ == old(ring)@.skip(
                drawn_len(old(self).pending(), old(ring)@, old(self).frame_len()) as int,
            ),
    {
        let len: usize = if self.samples_per_frame == 0 {
            1
        } else {
            self.samples_per_frame
        };
        let samples: Vec<u32> = ring.pop_up_to(len - self.samples.len());
        assert(samples@.skip(0) =~= samples@);
        proof {
            let lacking = old(self).frame_len() - old(self).pending().len();
            if old(ring)@.len() >= lacking {
                assert(samples@.take(lacking) =~= old(ring)@.take(lacking));
            } else {
                assert(samples@ =~= old(ring)@);
            }
        }
        let (frame, _) = self.push_slice(samples.as_slice(), 0);
        frame
    }

    /// Whether the codec has encoded a frame as `code`, which was cut from the front of the
    /// buffer. The buffer is filled up again.
    pub open spec fn coded<F: Fn(E, Vec<u32>) -> (E, Vec<u8>)>(
        self,
        encode: F,
        frame: Vec<u32>,
        after: Self,
        code: Vec<u8>,
    ) -> bool {
        &&& encode.ensures((self.codec(), frame), (after.codec(), code))
        &&& after.wf()
        &&& after.pending() == self.pending()
        &&& after.nominal_len() == self.nominal_len()
        &&& after.output() == resized(
            self.output().skip(code@.len() as int),
            self.nominal_len() as nat,
            0,
        )
    }

    /// Has the codec encode a frame, and returns what it has written to the buffer.
    pub fn encode_frame<F: Fn(E, Vec<u32>) -> (E, Vec<u8>)>(
        &mut self,
        frame: Vec<u32>,
        encode: &F,
    ) -> (payload: Bytes)
        requires
            old(self).wf(),
            can_encode(*encode, old(self).nominal_len()),
        ensures
            exists|code: Vec<u8>|
                {
                    &&& #[trigger] old(self).coded(*encode, frame, *final(self), code)
                    &&& bytes_contents(payload) == code@
                },
    {
        let codec: E = match self.encoder.take() {
            Some(codec) => codec,
            None => vstd::pervasive::unreached(),
        };
        let ghost given = frame;
        let (next, code) = encode(codec, frame);
        assert(encode.ensures((codec, given), (next, code)));
        self.encoder = Some(next);
        let size: usize = code.len();
        write_front(buffer_slice(&mut self.out_buf), &code);
        let ghost written = self.output();
        assert(written.take(size as int) =~= code@);
        assert(written.skip(size as int) =~= old(self).output().skip(size as int));
        let payload: Bytes = self.out_buf.split_to(size).freeze();
        self.out_buf.resize(self.samples_per_frame, 0);
        assert(old(self).coded(*encode, given, *self, code));
        payload
    }
}

/// Writes bytes to the front of a buffer.
fn write_front(buffer: &mut [u8], code: &Vec<u8>)
    requires
        code@.len() <= old(buffer)@.len(),
    ensures
        final(buffer)@ == code@ + old(buffer)@.skip(code@.len() as int),
{
    let mut next: usize = 0;
    while next < code.len()
        invariant
            next <= code@.len() <= buffer@.len(),
            buffer@.len() == old(buffer)@.len(),
            buffer@ == code@.take(next as int) + old(buffer)@.skip(next as int),
        decreases code@.len() - next,
    {
        buffer[next] = code[next];
        next = next + 1;
        assert(buffer@ =~= code@.take(next as int) + old(buffer)@.skip(next as int));
    }
    assert(code@.take(next as int) =~= code@);
}

/// Whether the codec takes every frame and never writes more than it has room for.
pub open spec fn can_encode<E, F: Fn(E, Vec<u32>) -> (E, Vec<u8>)>(encode: F, room: usize) -> bool {
    &&& forall|codec: E, frame: Vec<u32>| #[trigger] encode.requires((codec, frame))
    &&& forall|codec: E, frame: Vec<u32>, next: E, code: Vec<u8>| #[trigger]
        encode.ensures((codec, frame), (next, code)) ==> code@.len() <= room
}

/// Whether the codec has encoded the frames, one after the other: it goes from each of the
/// states to the next.
pub open spec fn encoded_as<E, F: Fn(E, Vec<u32>) -> (E, Vec<u8>)>(
    encode: F,
    states: Seq<E>,
    frames: Seq<Vec<u32>>,
    codes: Seq<Vec<u8>>,
) -> bool {
    &&& states.len() == frames.len() + 1
    &&& codes.len() == frames.len()
    &&& forall|i: int|
        0 <= i < codes.len() ==> encode.ensures(
            (states[i], frames[i]),
            (states[i + 1], #[trigger] codes[i]),
        )
}

/// Whether the codec, going from the first state to the last, has encoded the frames in order.
pub open spec fn all_encoded<E, F: Fn(E, Vec<u32>) -> (E, Vec<u8>)>(
    encode: F,
    first: E,
    frames: Seq<Vec<u32>>,
    codes: Seq<Vec<u8>>,
    last: E,
) -> bool {
    exists|states: Seq<E>|
        {
            &&& #[trigger] encoded_as(encode, states, frames, codes)
            &&& states[0] == first
            &&& states.last() == last
        }
}

/// Without frames the codec stays as it is.
pub(crate) proof fn encoded_nothing<E, F: Fn(E, Vec<u32>) -> (E, Vec<u8>)>(encode: F, codec: E)
    ensures
        all_encoded(encode, codec, Seq::empty(), Seq::empty(), codec),
{
    assert(encoded_as(encode, seq![codec], Seq::empty(), Seq::empty()));
}

/// One more frame goes on from where the others have led.
pub(crate) proof fn encoded_push<E, F: Fn(E, Vec<u32>) -> (E, Vec<u8>)>(
    encode: F,
    first: E,
    frames: Seq<Vec<u32>>,
    codes: Seq<Vec<u8>>,
    middle: E,
    frame: Vec<u32>,
    code: Vec<u8>,
    last: E,
)
    requires
        all_encoded(encode, first, frames, codes, middle),
        encode.ensures((middle, frame), (last, code)),
    ensures
        codes.len() == frames.len(),
        all_encoded(encode, first, frames.push(frame), codes.push(code), last),
{
    let states = choose|states: Seq<E>|
        {
            &&& #[trigger] encoded_as(encode, states, frames, codes)
            &&& states[0] == first
            &&& states.last() == middle
        };
    let more = codes.push(code);
    assert forall|i: int| 0 <= i < more.len() implies encode.ensures(
        (states.push(last)[i], frames.push(frame)[i]),
        (states.push(last)[i + 1], #[trigger] more[i]),
    ) by {
        if i < codes.len() {
            assert(more[i] == codes[i]);
        }
    }
    assert(encoded_as(encode, states.push(last), frames.push(frame), more));
}

/// What a decoder does next in a tick.
pub enum DecodeStep {
    /// Have the codec make up `conceal` frames that are missing, then decode the payload.
    Decode { conceal: u32, payload: Option<Bytes> },
    /// All that was there is decoded.
    Done,
    /// The track has ended.
    Stop,
}

/// The step that follows from asking the track for its next frame.
pub open spec fn step_after(outcome: RecvOutcome) -> DecodeStep {
    match outcome {
        RecvOutcome::Frame(frame) => DecodeStep::Decode {
            conceal: match frame.skipped_frames {
                Some(count) => count,
                None => 0,
            },
            payload: Some(frame.payload),
        },
        RecvOutcome::Empty => DecodeStep::Done,
        RecvOutcome::Lagged(count) => DecodeStep::Decode { conceal: count as u32, payload: None },
        RecvOutcome::Closed => DecodeStep::Stop,
    }
}

/// Decides the step that follows from asking the track for its next frame: frames that
/// were skipped or overwritten are made up for one by one.
pub fn decode_step(outcome: RecvOutcome) -> (step: DecodeStep)
    ensures
        step == step_after(outcome),
{
    match outcome {
        RecvOutcome::Frame(frame) => {
            let conceal: u32 = match frame.skipped_frames {
                Some(count) => count,
                None => 0,
            };
            DecodeStep::Decode { conceal, payload: Some(frame.payload) }
        },
        RecvOutcome::Empty => DecodeStep::Done,
        RecvOutcome::Lagged(count) => DecodeStep::Decode {
            conceal: #[verifier::truncate] (count as u32),
            payload: None,
        },
        RecvOutcome::Closed => DecodeStep::Stop,
    }
}

/// The payloads that the codec decodes in a step, in order: nothing for each frame that is
/// made up, then the payload if there is one.
pub open spec fn payloads_of(step: DecodeStep) -> Seq<Option<Bytes>> {
    match step {
        DecodeStep::Decode { conceal, payload } => {
            let made_up = Seq::new(conceal as nat, |i: int| None::<Bytes>);
            if payload is Some {
                made_up.push(payload)
            } else {
                made_up
            }
        },
        _ => Seq::empty(),
    }
}

/// What a receiver has missed is made up for, frame by frame, before it goes on: a frame
/// that tells how many were skipped before it leads to as many made-up frames and then its
/// own, and overwritten frames, as far as they can be counted, to as many made-up ones.
pub proof fn missing_frames_are_made_up(frame: MediaFrame, overwritten: u64)
    ensures
        payloads_of(step_after(RecvOutcome::Frame(frame))).len() == (match frame.skipped_frames {
            Some(count) => count as nat,
            None => 0,
        }) + 1,
        payloads_of(step_after(RecvOutcome::Frame(frame))).last() == Some(frame.payload),
        forall|i: int|
            0 <= i < payloads_of(step_after(RecvOutcome::Frame(frame))).len() - 1
                ==> #[trigger] payloads_of(step_after(RecvOutcome::Frame(frame)))[i] is None,
        overwritten <= u32::MAX ==> payloads_of(
            step_after(RecvOutcome::Lagged(overwritten)),
        ).len() == overwritten,
        payloads_of(step_after(RecvOutcome::Lagged(overwritten))).len() == overwritten as u32,
        forall|i: int|
            0 <= i < payloads_of(step_after(RecvOutcome::Lagged(overwritten))).len()
                ==> #[trigger] payloads_of(step_after(RecvOutcome::Lagged(overwritten)))[i] is None,
        payloads_of(step_after(RecvOutcome::Empty)).len() == 0,
        payloads_of(step_after(RecvOutcome::Closed)).len() == 0,
        step_after(RecvOutcome::Empty) is Done,
        step_after(RecvOutcome::Closed) is Stop,
        step_after(RecvOutcome::Frame(frame)) is Decode,
        step_after(RecvOutcome::Lagged(overwritten)) is Decode,
{
}

/// Whether the codec has made `pieces` of the first payloads, one after the other: it goes
/// from each of the states to the next.
pub open spec fn decoded_as<D, X, F: Fn(D, Option<Bytes>) -> (D, Result<Vec<u32>, X>)>(
    decode: F,
    states: Seq<D>,
    payloads: Seq<Option<Bytes>>,
    pieces: Seq<Vec<u32>>,
) -> bool {
    &&& states.len() == pieces.len() + 1
    &&& pieces.len() <= payloads.len()
    &&& forall|i: int|
        0 <= i < pieces.len() ==> decode.ensures(
            (states[i], payloads[i]),
            (states[i + 1], Ok(#[trigger] pieces[i])),
        )
}

/// Whether the codec, going from the first state to the last, has made `pieces` of the
/// payloads, in order: of all of them, or of those before the one that it has failed on.
pub open spec fn decodes<D, X, F: Fn(D, Option<Bytes>) -> (D, Result<Vec<u32>, X>)>(
    decode: F,
    first: D,
    payloads: Seq<Option<Bytes>>,
    pieces: Seq<Vec<u32>>,
    last: D,
    error: Option<X>,
) -> bool {
    exists|states: Seq<D>|
        {
            &&& #[trigger] decoded_as(decode, states, payloads, pieces)
            &&& states[0] == first
            &&& match error {
                None => pieces.len() == payloads.len() && states.last() == last,
                Some(error) => {
                    &&& pieces.len() < payloads.len()
                    &&& decode.ensures(
                        (states.last(), payloads[pieces.len() as int]),
                        (last, Err(error)),
                    )
                },
            }
        }
}

/// The error of a result, if it is one.
pub open spec fn error_of<T, X>(result: Result<T, X>) -> Option<X> {
    match result {
        Ok(_) => None,
        Err(error) => Some(error),
    }
}

/// Without payloads the codec stays as it is.
pub(crate) proof fn decodes_nothing<D, X, F: Fn(D, Option<Bytes>) -> (D, Result<Vec<u32>, X>)>(
    decode: F,
    codec: D,
)
    ensures
        decodes(decode, codec, Seq::empty(), Seq::empty(), codec, None::<X>),
{
    assert(decoded_as(decode, seq![codec], Seq::empty(), Seq::empty()));
}

/// One payload leads from one state to the next.
pub(crate) proof fn decodes_one<D, X, F: Fn(D, Option<Bytes>) -> (D, Result<Vec<u32>, X>)>(
    decode: F,
    first: D,
    payload: Option<Bytes>,
    last: D,
    result: Result<Vec<u32>, X>,
)
    requires
        decode.ensures((first, payload), (last, result)),
    ensures
        match result {
            Ok(piece) => decodes(
                decode,
                first,
                seq![payload],
                seq![piece],
                last,
                None::<X>,
            ),
            Err(error) => decodes(
                decode,
                first,
                seq![payload],
                Seq::empty(),
                last,
                Some(error),
            ),
        },
{
    match result {
        Ok(piece) => {
            assert(decoded_as(decode, seq![first, last], seq![payload], seq![piece]));
        },
        Err(_) => {
            assert(decoded_as(decode, seq![first], seq![payload], Seq::empty()));
        },
    }
}

/// More payloads go on from where the first ones have led.
pub(crate) proof fn decodes_more<D, X, F: Fn(D, Option<Bytes>) -> (D, Result<Vec<u32>, X>)>(
    decode: F,
    first: D,
    payloads: Seq<Option<Bytes>>,
    pieces: Seq<Vec<u32>>,
    middle: D,
    more: Seq<Option<Bytes>>,
    more_pieces: Seq<Vec<u32>>,
    last: D,
    error: Option<X>,
)
    requires
        decodes(decode, first, payloads, pieces, middle, None::<X>),
        decodes(decode, middle, more, more_pieces, last, error),
    ensures
        decodes(decode, first, payloads + more, pieces + more_pieces, last, error),
{
    let a = choose|states: Seq<D>|
        {
            &&& #[trigger] decoded_as(decode, states, payloads, pieces)
            &&& states[0] == first
            &&& pieces.len() == payloads.len() && states.last() == middle
        };
    let b = choose|states: Seq<D>|
        {
            &&& #[trigger] decoded_as(decode, states, more, more_pieces)
            &&& states[0] == middle
            &&& match error {
                None => more_pieces.len() == more.len() && states.last() == last,
                Some(error) => {
                    &&& more_pieces.len() < more.len()
                    &&& decode.ensures(
                        (states.last(), more[more_pieces.len() as int]),
                        (last, Err(error)),
                    )
                },
            }
        };
    let states = a + b.skip(1);
    let all = payloads + more;
    let made = pieces + more_pieces;
    let n = pieces.len() as int;
    assert forall|i: int| 0 <= i < made.len() implies decode.ensures(
        (states[i], all[i]),
        (states[i + 1], Ok(#[trigger] made[i])),
    ) by {
        if i < n {
            assert(made[i] == pieces[i]);
        } else {
            assert(made[i] == more_pieces[i - n]);
            assert(states[i] == b[i - n]);
            assert(states[i + 1] == b[i - n + 1]);
        }
    }
    assert(decoded_as(decode, states, all, made));
    assert(states.last() == b.last());
}

/// Once the codec has failed, it makes no difference what would have followed.
pub(crate) proof fn decodes_no_more<D, X, F: Fn(D, Option<Bytes>) -> (D, Result<Vec<u32>, X>)>(
    decode: F,
    first: D,
    payloads: Seq<Option<Bytes>>,
    pieces: Seq<Vec<u32>>,
    last: D,
    error: X,
    more: Seq<Option<Bytes>>,
)
    requires
        decodes(decode, first, payloads, pieces, last, Some(error)),
    ensures
        decodes(decode, first, payloads + more, pieces, last, Some(error)),
{
    let states = choose|states: Seq<D>|
        {
            &&& #[trigger] decoded_as(decode, states, payloads, pieces)
            &&& states[0] == first
            &&& pieces.len() < payloads.len()
            &&& decode.ensures(
                (states.last(), payloads[pieces.len() as int]),
                (last, Err(error)),
            )
        };
    assert(decoded_as(decode, states, payloads + more, pieces));
}

/// The most often that a track is asked in one tick. No tick comes near it.
pub const MAX_POLLS: u64 = 0xffff_ffff_ffff_ffff;

/// Whether a tick goes on after an outcome.
pub open spec fn goes_on(outcome: RecvOutcome) -> bool {
    outcome is Frame || outcome is Lagged
}

/// Whether a track was asked until it has ended, had nothing more, or what it gave was of no
/// use: `ended` tells whether it has ended, and `failed` whether the last frame could not be
/// decoded.
pub open spec fn asked(outcomes: Seq<RecvOutcome>, ended: bool, failed: bool) -> bool {
    &&& 0 < outcomes.len() <= MAX_POLLS
    &&& forall|i: int| 0 <= i < outcomes.len() ==> can_happen(#[trigger] outcomes[i])
    &&& forall|i: int| 0 <= i < outcomes.len() - 1 ==> goes_on(#[trigger] outcomes[i])
    &&& if ended {
        outcomes.last() is Closed
    } else if failed {
        goes_on(outcomes.last())
    } else {
        outcomes.last() is Empty || outcomes.len() == MAX_POLLS && goes_on(outcomes.last())
    }
}

/// The payloads that the codec decodes in a tick, in order.
pub open spec fn payloads_of_all(outcomes: Seq<RecvOutcome>) -> Seq<Option<Bytes>>
    decreases outcomes.len(),
{
    if outcomes.len() == 0 {
        Seq::empty()
    } else {
        payloads_of_all(outcomes.drop_last()) + payloads_of(step_after(outcomes.last()))
    }
}

/// Whether a tick, in which the track gave the outcomes, has led the codec from the first
/// state to the last and has come to the result: nothing where the track has ended, an
/// error where the codec has failed on what came last, else all that was there is decoded.
pub open spec fn ticked<D, X, F: Fn(D, Option<Bytes>) -> (D, Result<Vec<u32>, X>)>(
    decode: F,
    first: D,
    outcomes: Seq<RecvOutcome>,
    pieces: Seq<Vec<u32>>,
    last: D,
    result: Result<Option<usize>, X>,
) -> bool {
    &&& asked(outcomes, result matches Ok(None), result is Err)
    &&& decodes(decode, first, payloads_of_all(outcomes), pieces, last, error_of(result))
    &&& result is Err ==> payloads_of_all(outcomes.drop_last()).len() <= pieces.len()
}

/// Collects the samples that an Opus decoder makes of a track, tick by tick.
pub struct MediaTrackOpusDecoder<D> {
    decoder: Option<D>,
    track: Option<MediaTrack>,
    channels: OpusChannels,
    audio_buf: Vec<u32>,
    decode_len: usize,
}

impl<D> MediaTrackOpusDecoder<D> {
    /// Whether the codec and the track are there. They are away only while they work.
    pub closed spec fn has_codec(self) -> bool {
        self.decoder is Some && self.track is Some
    }

    /// The codec that is carried along.
    pub closed spec fn codec(self) -> D {
        self.decoder->0
    }

    /// The layout of the track's stream.
    pub closed spec fn layout(self) -> OpusChannels {
        self.channels
    }

    /// The receiving end of the track.
    pub closed spec fn source(self) -> broadcast::Receiver<MediaFrame> {
        self.track->0.receiver
    }

    /// The samples that were decoded in this tick.
    pub closed spec fn decoded(self) -> Seq<u32> {
        self.audio_buf@
    }

    /// The samples that the codec has room for in one call.
    pub closed spec fn room(self) -> usize {
        self.decode_len
    }

    /// The codec has room for one frame, which has 960 samples for each channel.
    pub open spec fn wf(self) -> bool {
        &&& self.has_codec()
        &&& self.room() == 960 * self.layout().channel_count()
    }

    /// Makes the collecting side for a track and the codec that decodes it.
    pub fn new(track: MediaTrack, decoder: D) -> (collector: Self)
        ensures
            collector.wf(),
            collector.codec() == decoder,
            collector.source() == track.receiver,
            track.track_codec == (Codec::Opus { channels: collector.layout() }),
            collector.decoded() == Seq::<u32>::empty(),
    {
        let samples: usize = opus_params().frame_duration_in_samples(DURATION_20MS);
        let channels: OpusChannels = match track.codec() {
            Codec::Opus { channels } => channels,
        };
        let decode_len: usize = samples * channels.count();
        MediaTrackOpusDecoder {
            decoder: Some(decoder),
            track: Some(track),
            channels,
            audio_buf: Vec::new(),
            decode_len,
        }
    }

    /// Returns the layout that the codec is set up for.
    pub fn channels(&self) -> (channels: OpusChannels)
        ensures
            channels == self.layout(),
    {
        self.channels
    }

    /// Returns how many samples the codec has room for in one call.
    pub fn decode_room(&self) -> (samples: usize)
        requires
            self.wf(),
        ensures
            samples == self.room(),
            samples == 960 * self.layout().channel_count(),
    {
        self.decode_len
    }

    /// Returns the codec that is carried along.
    pub fn decoder(&self) -> (decoder: &D)
        requires
            self.wf(),
        ensures
            *decoder == self.codec(),
    {
        match &self.decoder {
            Some(decoder) => decoder,
            None => vstd::pervasive::unreached(),
        }
    }

    /// Starts a tick. What is left from the previous one is dropped.
    pub fn begin_tick(&mut self)
        requires
            old(self).wf(),
        ensures
            final(self).wf(),
            final(self).codec() == old(self).codec(),
            final(self).layout() == old(self).layout(),
            final(self).source() == old(self).source(),
            final(self).decoded() == Seq::<u32>::empty(),
    {
        self.audio_buf.clear();
    }

    /// Asks the track for its next frame and decides the next step.
    pub fn poll(&mut self) -> (step: DecodeStep)
        requires
            old(self).wf(),
        ensures
            final(self).wf(),
            final(self).codec() == old(self).codec(),
            final(self).layout() == old(self).layout(),
            same_channel(final(self).source(), old(self).source()),
            final(self).decoded() == old(self).decoded(),
            exists|outcome: RecvOutcome|
                {
                    &&& #[trigger] gives(old(self).source(), outcome, final(self).source())
                    &&& can_happen(outcome)
                    &&& step == step_after(outcome)
                },
    {
        let track: MediaTrack = match self.track.take() {
            Some(track) => track,
            None => vstd::pervasive::unreached(),
        };
        let (track, outcome) = track.received();
        self.track = Some(track);
        assert(gives(old(self).source(), outcome, self.source()));
        decode_step(outcome)
    }

    /// Has the codec decode one payload, and adds what it makes of it.
    fn add_decoded<X, F: Fn(D, Option<Bytes>) -> (D, Result<Vec<u32>, X>)>(
        &mut self,
        payload: Option<Bytes>,
        decode: &F,
    ) -> (result: Result<(), X>)
        requires
            old(self).wf(),
            decode.requires((old(self).codec(), payload)),
        ensures
            final(self).wf(),
            final(self).layout() == old(self).layout(),
            final(self).source() == old(self).source(),
            exists|pieces: Seq<Vec<u32>>|
                {
                    &&& #[trigger] decodes(
                        *decode,
                        old(self).codec(),
                        seq![payload],
                        pieces,
                        final(self).codec(),
                        error_of(result),
                    )
                    &&& final(self).decoded() == old(self).decoded() + joined(pieces)
                },
    {
        let codec: D = match self.decoder.take() {
            Some(codec) => codec,
            None => vstd::pervasive::unreached(),
        };
        let (next, result) = decode(codec, payload);
        self.decoder = Some(next);
        proof {
            decodes_one(*decode, codec, payload, next, result);
        }
        let ghost mut pieces: Seq<Vec<u32>> = Seq::empty();
        let added: Result<(), X> = match result {
            Ok(mut piece) => {
                proof {
                    joined_push(pieces, piece);
                    assert(joined(pieces) + piece@ =~= piece@);
                    assert(pieces.push(piece) =~= seq![piece]);
                    pieces = seq![piece];
                }
                self.audio_buf.append(&mut piece);
                Ok(())
            },
            Err(error) => {
                assert(self.decoded() + joined(pieces) =~= self.decoded());
                Err(error)
            },
        };
        assert(decodes(
            *decode,
            old(self).codec(),
            seq![payload],
            pieces,
            self.codec(),
            error_of(added),
        ));
        added
    }

    /// Performs a step: has the codec make up for what is missing and then decode the payload,
    /// and adds what it makes of it. Stops with the first error.
    pub fn perform<X, F: Fn(D, Option<Bytes>) -> (D, Result<Vec<u32>, X>)>(
        &mut self,
        step: DecodeStep,
        decode: &F,
    ) -> (result: Result<(), X>)
        requires
            old(self).wf(),
            forall|codec: D, payload: Option<Bytes>| #[trigger] decode.requires((codec, payload)),
        ensures
            final(self).wf(),
            final(self).layout() == old(self).layout(),
            final(self).source() == old(self).source(),
            exists|pieces: Seq<Vec<u32>>|
                {
                    &&& #[trigger] decodes(
                        *decode,
                        old(self).codec(),
                        payloads_of(step),
                        pieces,
                        final(self).codec(),
                        error_of(result),
                    )
                    &&& final(self).decoded() == old(self).decoded() + joined(pieces)
                },
    {
        let ghost payloads = payloads_of(step);
        let ghost mut pieces: Seq<Vec<u32>> = Seq::empty();
        assert(self.decoded() =~= old(self).decoded() + joined(pieces));
        proof {
            decodes_nothing::<D, X, F>(*decode, self.codec());
            assert(payloads.take(0) =~= Seq::empty());
        }
        match step {
            DecodeStep::Decode { conceal, payload } => {
                let mut made_up: u32 = 0;
                while made_up < conceal
                    invariant
                        made_up <= conceal,
                        self.wf(),
                        self.layout() == old(self).layout(),
                        self.source() == old(self).source(),
                        payloads == payloads_of(step),
                        step == (DecodeStep::Decode { conceal, payload }),
                        decodes(
                            *decode,
                            old(self).codec(),
                            payloads.take(made_up as int),
                            pieces,
                            self.codec(),
                            None::<X>,
                        ),
                        self.decoded() == old(self).decoded() + joined(pieces),
                        forall|codec: D, payload: Option<Bytes>| #[trigger]
                            decode.requires((codec, payload)),
                    decreases conceal - made_up,
                {
                    let ghost before = *self;
                    assert(payloads[made_up as int] == None::<Bytes>);
                    let result: Result<(), X> = self.add_decoded(None, decode);
                    proof {
                        pieces = after_one(
                            *decode,
                            *old(self),
                            payloads,
                            made_up as int,
                            pieces,
                            before,
                            *self,
                            result,
                        );
                    }
                    if result.is_err() {
                        return result;
                    }
                    made_up = made_up + 1;
                }
                if payload.is_some() {
                    let ghost before = *self;
                    assert(payloads[conceal as int] == payload);
                    let result: Result<(), X> = self.add_decoded(payload, decode);
                    proof {
                        pieces = after_one(
                            *decode,
                            *old(self),
                            payloads,
                            conceal as int,
                            pieces,
                            before,
                            *self,
                            result,
                        );
                    }
                    if result.is_err() {
                        return result;
                    }
                    assert(payloads.take(conceal + 1) =~= payloads);
                } else {
                    assert(payloads.take(conceal as int) =~= payloads);
                }
            },
            _ => {
                assert(payloads.take(0) =~= payloads);
            },
        }
        Ok(())
    }

    /// Returns how many samples were decoded in this tick.
    pub fn decoded_len(&self) -> (len: usize)
        ensures
            len == self.decoded().len(),
    {
        self.audio_buf.len()
    }

    /// Returns the first samples of this tick, at most `count` of them.
    pub fn samples(&self, count: usize) -> (samples: &[u32])
        ensures
            samples@ == self.decoded().take(lesser(count as nat, self.decoded().len()) as int),
    {
        let len: usize = if count <= self.audio_buf.len() {
            count
        } else {
            self.audio_buf.len()
        };
        vstd::slice::slice_subrange(self.audio_buf.as_slice(), 0, len)
    }

    /// Ends a tick: fills the front of `out` with the first samples of this tick and
    /// returns how many there were. What does not fit is dropped.
    pub fn finish_tick(&mut self, out: &mut Vec<u32>) -> (len: usize)
        requires
            old(self).wf(),
        ensures
            final(self).wf(),
            final(self).codec() == old(self).codec(),
            final(self).layout() == old(self).layout(),
            final(self).source() == old(self).source(),
            final(self).decoded() == Seq::<u32>::empty(),
            len == lesser(old(out)@.len(), old(self).decoded().len()),
            final(out)@ == old(self).decoded().take(len as int) + old(out)@.skip(len as int),
    {
        let len: usize = if out.len() <= self.audio_buf.len() {
            out.len()
        } else {
            self.audio_buf.len()
        };
        let mut next: usize = 0;
        while next < len
            invariant
                next <= len <= out@.len(),
                len <= self.audio_buf@.len(),
                *self == *old(self),
                out@.len() == old(out)@.len(),
                out@ == self.audio_buf@.take(next as int) + old(out)@.skip(next as int),
            decreases len - next,
        {
            out[next] = self.audio_buf[next];
            next = next + 1;
            assert(out@ =~= self.audio_buf@.take(next as int) + old(out)@.skip(next as int));
        }
        self.audio_buf.clear();
        len
    }
}

impl<D> MediaTrackOpusDecoder<D> {
    /// Whether a tick has led from this decoder to `after` and has come to the result. What
    /// was decoded in it is kept until the next one.
    pub open spec fn collects<X, F: Fn(D, Option<Bytes>) -> (D, Result<Vec<u32>, X>)>(
        self,
        decode: F,
        after: Self,
        result: Result<Option<usize>, X>,
    ) -> bool {
        &&& after.wf()
        &&& after.layout() == self.layout()
        &&& same_channel(after.source(), self.source())
        &&& result matches Ok(Some(len)) ==> len == after.decoded().len()
        &&& exists|outcomes: Seq<RecvOutcome>, pieces: Seq<Vec<u32>>|
            {
                &&& #[trigger] ticked(
                    decode,
                    self.codec(),
                    outcomes,
                    pieces,
                    after.codec(),
                    result,
                )
                &&& gives_all(self.source(), outcomes, after.source())
                &&& after.decoded() == joined(pieces)
            }
    }

    /// Runs a tick: has the codec decode all that is there, and make up for what is missing.
    /// Returns how many samples that were, or nothing where the track has ended.
    pub fn collect<X, F: Fn(D, Option<Bytes>) -> (D, Result<Vec<u32>, X>)>(
        &mut self,
        decode: &F,
    ) -> (result: Result<Option<usize>, X>)
        requires
            old(self).wf(),
            forall|codec: D, payload: Option<Bytes>| #[trigger] decode.requires((codec, payload)),
        ensures
            old(self).collects(*decode, *final(self), result),
    {
        self.begin_tick();
        let ghost mut outcomes: Seq<RecvOutcome> = Seq::empty();
        let ghost mut pieces: Seq<Vec<u32>> = Seq::empty();
        proof {
            decodes_nothing::<D, X, F>(*decode, self.codec());
            gives_nothing(self.source());
            assert(joined(pieces) =~= Seq::empty());
        }
        let mut left: u64 = MAX_POLLS;
        while left > 0
            invariant
                self.wf(),
                self.layout() == old(self).layout(),
                same_channel(self.source(), old(self).source()),
                gives_all(old(self).source(), outcomes, self.source()),
                outcomes.len() + left == MAX_POLLS,
                forall|i: int| 0 <= i < outcomes.len() ==> can_happen(#[trigger] outcomes[i]),
                forall|i: int| 0 <= i < outcomes.len() ==> goes_on(#[trigger] outcomes[i]),
                decodes(
                    *decode,
                    old(self).codec(),
                    payloads_of_all(outcomes),
                    pieces,
                    self.codec(),
                    None::<X>,
                ),
                self.decoded() == joined(pieces),
                forall|codec: D, payload: Option<Bytes>| #[trigger]
                    decode.requires((codec, payload)),
            decreases left,
        {
            left = left - 1;
            let ghost before = payloads_of_all(outcomes);
            let ghost asked_now = self.source();
            let step: DecodeStep = self.poll();
            proof {
                let outcome = choose|outcome: RecvOutcome|
                    {
                        &&& #[trigger] gives(asked_now, outcome, self.source())
                        &&& can_happen(outcome)
                        &&& step == step_after(outcome)
                    };
                gives_one_more(
                    old(self).source(),
                    outcomes,
                    asked_now,
                    outcome,
                    self.source(),
                );
                assert(outcomes.push(outcome).drop_last() =~= outcomes);
                outcomes = outcomes.push(outcome);
                assert(payloads_of_all(outcomes) == before + payloads_of(step));
            }
            match step {
                DecodeStep::Done => {
                    assert(before + payloads_of(step) =~= before);
                    let len: usize = self.audio_buf.len();
                    let result: Result<Option<usize>, X> = Ok(Some(len));
                    assert(ticked(
                        *decode,
                        old(self).codec(),
                        outcomes,
                        pieces,
                        self.codec(),
                        result,
                    ));
                    return result;
                },
                DecodeStep::Stop => {
                    assert(before + payloads_of(step) =~= before);
                    let result: Result<Option<usize>, X> = Ok(None);
                    assert(ticked(
                        *decode,
                        old(self).codec(),
                        outcomes,
                        pieces,
                        self.codec(),
                        result,
                    ));
                    return result;
                },
                DecodeStep::Decode { .. } => {
                    let ghost middle = *self;
                    let performed: Result<(), X> = self.perform(step, decode);
                    let ghost more = choose|more: Seq<Vec<u32>>|
                        {
                            &&& #[trigger] decodes(
                                *decode,
                                middle.codec(),
                                payloads_of(step),
                                more,
                                self.codec(),
                                error_of(performed),
                            )
                            &&& self.decoded() == middle.decoded() + joined(more)
                        };
                    proof {
                        decodes_more(
                            *decode,
                            old(self).codec(),
                            before,
                            pieces,
                            middle.codec(),
                            payloads_of(step),
                            more,
                            self.codec(),
                            error_of(performed),
                        );
                        joined_append(pieces, more);
                        pieces = pieces + more;
                    }
                    match performed {
                        Ok(_) => {},
                        Err(error) => {
                            let result: Result<Option<usize>, X> = Err(error);
                            assert(outcomes.drop_last().len() + 1 == outcomes.len());
                            assert(ticked(
                                *decode,
                                old(self).codec(),
                                outcomes,
                                pieces,
                                self.codec(),
                                result,
                            ));
                            return result;
                        },
                    }
                },
            }
        }
        let result: Result<Option<usize>, X> = Ok(Some(self.audio_buf.len()));
        assert(goes_on(outcomes[outcomes.len() - 1]));
        assert(ticked(*decode, old(self).codec(), outcomes, pieces, self.codec(), result));
        result
    }

    /// Runs a tick and fills the front of `out` with the first samples that it gives. What
    /// does not fit is dropped. Returns how many samples that were, or nothing where the
    /// track has ended: then, as after an error of the codec, `out` stays as it was.
    pub fn tick<X, F: Fn(D, Option<Bytes>) -> (D, Result<Vec<u32>, X>)>(
        &mut self,
        decode: &F,
        out: &mut Vec<u32>,
    ) -> (result: Result<Option<usize>, X>)
        requires
            old(self).wf(),
            forall|codec: D, payload: Option<Bytes>| #[trigger] decode.requires((codec, payload)),
        ensures
            final(self).wf(),
            final(self).layout() == old(self).layout(),
            same_channel(final(self).source(), old(self).source()),
            exists|outcomes: Seq<RecvOutcome>, pieces: Seq<Vec<u32>>|
                {
                    &&& #[trigger] ticked(
                        *decode,
                        old(self).codec(),
                        outcomes,
                        pieces,
                        final(self).codec(),
                        result,
                    )
                    &&& gives_all(old(self).source(), outcomes, final(self).source())
                    &&& match result {
                        Ok(Some(len)) => {
                            &&& len == lesser(old(out)@.len(), joined(pieces).len())
                            &&& final(out)@ == joined(pieces).take(len as int) + old(out)@.skip(
                                len as int,
                            )
                        },
                        _ => final(out)@ == old(out)@,
                    }
                },
    {
        let collected: Result<Option<usize>, X> = self.collect(decode);
        let ghost (outcomes, pieces) = choose|outcomes: Seq<RecvOutcome>, pieces: Seq<Vec<u32>>|
            {
                &&& #[trigger] ticked(
                    *decode,
                    old(self).codec(),
                    outcomes,
                    pieces,
                    self.codec(),
                    collected,
                )
                &&& gives_all(old(self).source(), outcomes, self.source())
                &&& self.decoded() == joined(pieces)
            };
        match collected {
            Ok(Some(_)) => {
                let len: usize = self.finish_tick(out);
                let result: Result<Option<usize>, X> = Ok(Some(len));
                assert(ticked(*decode, old(self).codec(), outcomes, pieces, self.codec(), result));
                result
            },
            other => other,
        }
    }
}

/// The pieces after one more payload, and that the codec has made them.
proof fn after_one<D, X, F: Fn(D, Option<Bytes>) -> (D, Result<Vec<u32>, X>)>(
    decode: F,
    start: MediaTrackOpusDecoder<D>,
    payloads: Seq<Option<Bytes>>,
    at: int,
    pieces: Seq<Vec<u32>>,
    before: MediaTrackOpusDecoder<D>,
    after: MediaTrackOpusDecoder<D>,
    result: Result<(), X>,
) -> (more: Seq<Vec<u32>>)
    requires
        0 <= at < payloads.len(),
        decodes(decode, start.codec(), payloads.take(at), pieces, before.codec(), None::<X>),
        before.decoded() == start.decoded() + joined(pieces),
        exists|one: Seq<Vec<u32>>|
            {
                &&& #[trigger] decodes(
                    decode,
                    before.codec(),
                    seq![payloads[at]],
                    one,
                    after.codec(),
                    error_of(result),
                )
                &&& after.decoded() == before.decoded() + joined(one)
            },
    ensures
        after.decoded() == start.decoded() + joined(more),
        match result {
            Ok(_) => decodes(
                decode,
                start.codec(),
                payloads.take(at + 1),
                more,
                after.codec(),
                None::<X>,
            ),
            Err(error) => decodes(
                decode,
                start.codec(),
                payloads,
                more,
                after.codec(),
                Some(error),
            ),
        },
{
    let one = choose|one: Seq<Vec<u32>>|
        {
            &&& #[trigger] decodes(
                decode,
                before.codec(),
                seq![payloads[at]],
                one,
                after.codec(),
                error_of(result),
            )
            &&& after.decoded() == before.decoded() + joined(one)
        };
    let taken = payloads.take(at);
    decodes_more(
        decode,
        start.codec(),
        taken,
        pieces,
        before.codec(),
        seq![payloads[at]],
        one,
        after.codec(),
        error_of(result),
    );
    joined_append(pieces, one);
    assert(after.decoded() =~= start.decoded() + (joined(pieces) + joined(one)));
    assert(taken + seq![payloads[at]] =~= payloads.take(at + 1));
    if let Err(error) = result {
        decodes_no_more(
            decode,
            start.codec(),
            payloads.take(at + 1),
            pieces + one,
            after.codec(),
            error,
            payloads.skip(at + 1),
        );
        assert(payloads.take(at + 1) + payloads.skip(at + 1) =~= payloads);
    }
    pieces + one
}

/// A decoder of a track hears the encoder that the track comes from, from the start and
/// after every step: `sources` are the receiving ends that the decoder has had.
pub proof fn decoders_hear_their_encoder(
    track: MediaTrack,
    sender: broadcast::Sender<MediaFrame>,
    sources: Seq<broadcast::Receiver<MediaFrame>>,
    at: int,
)
    requires
        hears(track.receiver, sender),
        sources.len() > 0,
        sources[0] == track.receiver,
        forall|k: int|
            0 < k < sources.len() ==> same_channel(#[trigger] sources[k], sources[k - 1]),
        0 <= at < sources.len(),
    ensures
        hears(sources[at], sender),
    decreases at,
{
    if at > 0 {
        decoders_hear_their_encoder(track, sender, sources, at - 1);
    }
}

/// `tokio::sync::broadcast::channel`: a channel that keeps the last messages for receivers
/// that fall behind, `capacity` of them, rounded up to a power of two. It panics for a
/// capacity of zero and for one that exceeds the address space. Its two ends belong
/// together.
#[verifier::external_body]
pub(crate) fn frame_channel(capacity: usize) -> (ends: (
    broadcast::Sender<MediaFrame>,
    broadcast::Receiver<MediaFrame>,
))
    requires
        0 < capacity <= usize::MAX / 1024,
    ensures
        hears(ends.1, ends.0),
        capacity <= kept_frames(ends.0) < 2 * capacity,
{
    broadcast::channel(capacity)
}

/// `tokio::sync::broadcast::Sender::send`: hands a frame to the receivers there are, and
/// returns how many. Where there is none it gives the frame back.
#[verifier::external_body]
pub(crate) fn send_frame(sender: &broadcast::Sender<MediaFrame>, frame: MediaFrame) -> (result: Result<
    usize,
    MediaFrame,
>)
    ensures
        result matches Ok(receivers) ==> receivers > 0,
        result matches Err(returned) ==> returned == frame,
{
    match sender.send(frame) {
        Ok(receivers) => Ok(receivers),
        Err(error) => Err(error.0),
    }
}

/// Whether a frame was sent to the channel of a sender with the result: this is what the
/// channel has answered.
pub closed spec fn sent_to(
    sender: broadcast::Sender<MediaFrame>,
    frame: MediaFrame,
    result: Result<usize, MediaFrame>,
) -> bool {
    call_ensures(send_frame, (&sender, frame), result)
}

/// What is sent is put to the channel itself, by a call on the sender with that frame. Where
/// nobody receives it, it comes back.
pub(crate) proof fn sent_is_answered(
    sender: broadcast::Sender<MediaFrame>,
    frame: MediaFrame,
    result: Result<usize, MediaFrame>,
)
    ensures
        sent_to(sender, frame, result) <==> call_ensures(send_frame, (&sender, frame), result),
        sent_to(sender, frame, result) ==> match result {
            Ok(receivers) => receivers > 0,
            Err(returned) => returned == frame,
        },
{
}

/// Whether a frame that carries what the codec has written was sent to the channel of a
/// sender with the result.
pub open spec fn sends_code(
    sender: broadcast::Sender<MediaFrame>,
    code: Seq<u8>,
    sample_count: u32,
    result: Result<usize, MediaFrame>,
) -> bool {
    exists|media: MediaFrame|
        {
            &&& #[trigger] sent_to(sender, media, result)
            &&& carries_code(media, code, sample_count)
        }
}

/// The layout for a number of channels, where Opus has one.
pub open spec fn layout_of(channel_count: u16) -> Option<OpusChannels> {
    if channel_count == 1 {
        Some(OpusChannels::Mono)
    } else if channel_count == 2 {
        Some(OpusChannels::Stereo)
    } else {
        None
    }
}

/// The stream has a number of channels that Opus has no layout for.
#[derive(Debug, Clone, Copy, PartialEq, Eq, Structural)]
pub struct UnsupportedChannelCount;

/// Decides whether an encoder goes on after a frame was handed to its track.
pub fn after_send(result: Result<usize, MediaFrame>) -> (flow: Flow)
    ensures
        flow == (match result {
            Ok(_) => Flow::Continue,
            Err(_) => Flow::Break,
        }),
{
    match result {
        Ok(_) => Flow::Continue,
        Err(_) => Flow::Break,
    }
}

/// Frames samples for an Opus encoder and sends the encoded frames to a track.
pub struct MediaTrackOpusEncoder<E> {
    pub encoder: OpusEncoder<E>,
    pub sender: broadcast::Sender<MediaFrame>,
}

impl<E> MediaTrackOpusEncoder<E> {
    /// Makes the encoding side for a stream, and the track that it sends to.
    pub fn new(
        channel_frame_cap: usize,
        params: StreamParams,
        encoder: E,
    ) -> (result: Result<(Self, MediaTrack), UnsupportedChannelCount>)
        requires
            0 < channel_frame_cap <= usize::MAX / 1024,
            params.samples_per_channel(DURATION_20MS) <= usize::MAX,
            params.samples_in_all(DURATION_20MS) <= usize::MAX / 2,
        ensures
            result is Ok <==> layout_of(params.channel_count) is Some,
            result matches Ok((source, track)) ==> {
                &&& source.encoder.wf()
                &&& source.encoder.codec() == encoder
                &&& source.encoder.pending() == Seq::<u32>::empty()
                &&& source.encoder.nominal_len() == params.samples_in_all(DURATION_20MS)
                &&& hears(track.receiver, source.sender)
                &&& channel_frame_cap <= kept_frames(source.sender) < 2 * channel_frame_cap
                &&& track.track_kind == TrackKind::Audio
                &&& layout_of(params.channel_count) == Some(
                    match track.track_codec {
                        Codec::Opus { channels } => channels,
                    },
                )
            },
    {
        let (sender, receiver) = frame_channel(channel_frame_cap);
        let channels: OpusChannels = match params.channel_count {
            1 => OpusChannels::Mono,
            2 => OpusChannels::Stereo,
            _ => {
                return Err(UnsupportedChannelCount);
            },
        };
        let track: MediaTrack = MediaTrack::new(
            receiver,
            Codec::Opus { channels },
            TrackKind::Audio,
        );
        Ok((MediaTrackOpusEncoder { encoder: OpusEncoder::new(params, encoder), sender }, track))
    }

    /// Has the codec encode a frame of `sample_count` samples, and makes the frame that is sent.
    pub fn finish_media<F: Fn(E, Vec<u32>) -> (E, Vec<u8>)>(
        &mut self,
        frame: Vec<u32>,
        sample_count: u32,
        encode: &F,
    ) -> (media: MediaFrame)
        requires
            old(self).encoder.wf(),
            can_encode(*encode, old(self).encoder.nominal_len()),
        ensures
            final(self).sender == old(self).sender,
            exists|code: Vec<u8>|
                {
                    &&& #[trigger] old(self).encoder.coded(
                        *encode,
                        frame,
                        final(self).encoder,
                        code,
                    )
                    &&& carries_code(media, code@, sample_count)
                },
    {
        let payload: Bytes = self.encoder.encode_frame(frame, encode);
        MediaFrame::encoded(payload, sample_count)
    }

    /// Has the codec encode a frame of `sample_count` samples, and sends it to the track.
    /// Returns what came of it, with the frame where nobody received it.
    pub fn publish<F: Fn(E, Vec<u32>) -> (E, Vec<u8>)>(
        &mut self,
        frame: Vec<u32>,
        sample_count: u32,
        encode: &F,
    ) -> (result: Result<usize, MediaFrame>)
        requires
            old(self).encoder.wf(),
            can_encode(*encode, old(self).encoder.nominal_len()),
        ensures
            final(self).sender == old(self).sender,
            result matches Ok(receivers) ==> receivers > 0,
            exists|code: Vec<u8>|
                {
                    &&& #[trigger] old(self).encoder.coded(
                        *encode,
                        frame,
                        final(self).encoder,
                        code,
                    )
                    &&& sends_code(old(self).sender, code@, sample_count, result)
                    &&& result matches Err(media) ==> carries_code(media, code@, sample_count)
                },
    {
        let media: MediaFrame = self.finish_media(frame, sample_count, encode);
        let ghost handed = media;
        let result: Result<usize, MediaFrame> = send_frame(&self.sender, media);
        assert(sent_to(old(self).sender, handed, result));
        result
    }

    /// Whether a tick on samples has led to `after`: the first `used` of them were added, the
    /// codec has encoded the frames that they fill up, and sending these has come to the
    /// results. All samples are used unless nobody has received a frame: then the tick ends
    /// there, and the encoder stops.
    pub open spec fn sends<F: Fn(E, Vec<u32>) -> (E, Vec<u8>)>(
        self,
        encode: F,
        samples: Seq<u32>,
        used: int,
        frames: Seq<Vec<u32>>,
        codes: Seq<Vec<u8>>,
        results: Seq<Result<usize, MediaFrame>>,
        after: Self,
        flow: Flow,
    ) -> bool {
        &&& 0 <= used <= samples.len()
        &&& framed(
            self.encoder.pending() + samples.take(used),
            self.encoder.frame_len(),
            frames,
            after.encoder.pending(),
        )
        &&& all_encoded(encode, self.encoder.codec(), frames, codes, after.encoder.codec())
        &&& results.len() == frames.len()
        &&& codes.len() == frames.len()
        &&& forall|i: int|
            0 <= i < results.len() ==> sends_code(
                self.sender,
                codes[i]@,
                self.encoder.frame_len() as u32,
                #[trigger] results[i],
            )
        &&& forall|i: int|
            0 <= i < results.len() ==> (#[trigger] results[i] matches Err(media) ==> carries_code(
                media,
                codes[i]@,
                self.encoder.frame_len() as u32,
            ))
        &&& forall|i: int| 0 <= i < results.len() - 1 ==> #[trigger] results[i] is Ok
        &&& match flow {
            Flow::Continue => {
                &&& used == samples.len()
                &&& results.len() > 0 ==> results.last() is Ok
            },
            Flow::Break => {
                &&& results.len() > 0 && results.last() is Err
                &&& after.encoder.pending() == Seq::<u32>::empty()
            },
        }
    }

    /// Adds samples, has the codec encode each frame that they fill up, and sends it to the
    /// track. Where nobody has received a frame, the tick ends at once, and the encoder stops.
    pub fn tick<F: Fn(E, Vec<u32>) -> (E, Vec<u8>)>(&mut self, samples: &[u32], encode: &F) -> (flow:
        Flow)
        requires
            old(self).encoder.wf(),
            can_encode(*encode, old(self).encoder.nominal_len()),
        ensures
            final(self).sender == old(self).sender,
            final(self).encoder.wf(),
            final(self).encoder.nominal_len() == old(self).encoder.nominal_len(),
            exists|
                used: int,
                frames: Seq<Vec<u32>>,
                codes: Seq<Vec<u8>>,
                results: Seq<Result<usize, MediaFrame>>,
            | #[trigger]
                old(self).sends(
                    *encode,
                    samples@,
                    used,
                    frames,
                    codes,
                    results,
                    *final(self),
                    flow,
                ),
    {
        let ghost len = self.encoder.frame_len();
        let ghost mut frames: Seq<Vec<u32>> = Seq::empty();
        let ghost mut codes: Seq<Vec<u8>> = Seq::empty();
        let ghost mut results: Seq<Result<usize, MediaFrame>> = Seq::empty();
        let mut next: usize = 0;
        proof {
            encoded_nothing(*encode, self.encoder.codec());
            framed_nothing(self.encoder.pending(), len);
            assert(self.encoder.pending() + samples@.take(0) =~= self.encoder.pending());
        }
        while next < samples.len()
            invariant
                next <= samples@.len(),
                self.sender == old(self).sender,
                self.encoder.wf(),
                self.encoder.nominal_len() == old(self).encoder.nominal_len(),
                len == old(self).encoder.frame_len(),
                can_encode(*encode, old(self).encoder.nominal_len()),
                framed(
                    old(self).encoder.pending() + samples@.take(next as int),
                    len,
                    frames,
                    self.encoder.pending(),
                ),
                all_encoded(
                    *encode,
                    old(self).encoder.codec(),
                    frames,
                    codes,
                    self.encoder.codec(),
                ),
                results.len() == frames.len(),
                codes.len() == frames.len(),
                forall|i: int|
                    0 <= i < results.len() ==> sends_code(
                        old(self).sender,
                        codes[i]@,
                        len as u32,
                        #[trigger] results[i],
                    ),
                forall|i: int| 0 <= i < results.len() ==> #[trigger] results[i] is Ok,
            decreases samples@.len() - next,
        {
            let ghost before = self.encoder;
            let ghost done = old(self).encoder.pending() + samples@.take(next as int);
            let ghost left = samples@.skip(next as int);
            let (drawn, position) = self.encoder.push_slice(samples, next);
            let ghost after = self.encoder;
            proof {
                framed_draw(done, len, frames, before.pending(), left, drawn, after.pending());
                let taken = drawn_len(before.pending(), left, len) as int;
                assert(done + left.take(taken) =~= old(self).encoder.pending() + samples@.take(
                    position as int,
                ));
                assert(done + left =~= old(self).encoder.pending() + samples@.take(
                    samples@.len() as int,
                ));
            }
            next = position;
            match drawn {
                Some((frame, sample_count)) => {
                    let ghost given = frame;
                    let result: Result<usize, MediaFrame> = self.publish(
                        frame,
                        sample_count,
                        encode,
                    );
                    proof {
                        let code = choose|code: Vec<u8>|
                            {
                                &&& #[trigger] after.coded(*encode, given, self.encoder, code)
                                &&& sends_code(old(self).sender, code@, sample_count, result)
                                &&& result matches Err(media) ==> carries_code(
                                    media,
                                    code@,
                                    sample_count,
                                )
                            };
                        encoded_push(
                            *encode,
                            old(self).encoder.codec(),
                            frames,
                            codes,
                            after.codec(),
                            given,
                            code,
                            self.encoder.codec(),
                        );
                        frames = frames.push(given);
                        codes = codes.push(code);
                        results = results.push(result);
                    }
                    if result.is_err() {
                        assert(old(self).sends(
                            *encode,
                            samples@,
                            next as int,
                            frames,
                            codes,
                            results,
                            *self,
                            Flow::Break,
                        ));
                        return after_send(result);
                    }
                },
                None => {},
            }
        }
        assert(old(self).sends(
            *encode,
            samples@,
            next as int,
            frames,
            codes,
            results,
            *self,
            Flow::Continue,
        ));
        Flow::Continue
    }
}

/// Whether a frame carries what the codec has written, with nothing skipped before it.
pub open spec fn carries_code(media: MediaFrame, code: Seq<u8>, sample_count: u32) -> bool {
    &&& bytes_contents(media.payload) == code
    &&& media.sample_count == Some(sample_count)
    &&& media.skipped_frames == None::<u32>
    &&& media.skipped_samples == None::<u32>
}

/// What the codec decodes for several outcomes is what it decodes for the first of them, and
/// then what it decodes for the others.
pub proof fn outcomes_are_decoded_in_order(first: Seq<RecvOutcome>, later: Seq<RecvOutcome>)
    ensures
        payloads_of_all(Seq::<RecvOutcome>::empty()).len() == 0,
        payloads_of_all(first + later) == payloads_of_all(first) + payloads_of_all(later),
    decreases later.len(),
{
    if later.len() == 0 {
        assert(first + later =~= first);
        assert(payloads_of_all(first) + payloads_of_all(later) =~= payloads_of_all(first));
    } else {
        outcomes_are_decoded_in_order(first, later.drop_last());
        assert((first + later).drop_last() =~= first + later.drop_last());
        assert(payloads_of_all(first + later) =~= payloads_of_all(first) + payloads_of_all(later));
    }
}

/// The payload of each frame that a track gives is handed to the codec, whatever the frame's
/// counts of samples are: after what came before it, and after as many made-up frames as the
/// frame says were skipped, each of which is handed over without a payload.
pub proof fn received_frames_are_decoded(outcomes: Seq<RecvOutcome>, at: int, frame: MediaFrame)
    requires
        0 <= at < outcomes.len(),
        outcomes[at] == RecvOutcome::Frame(frame),
    ensures
        ({
            let payloads = payloads_of_all(outcomes);
            let before = payloads_of_all(outcomes.take(at)).len() as int;
            let skipped = match frame.skipped_frames {
                Some(count) => count as int,
                None => 0,
            };
            &&& before + skipped < payloads.len()
            &&& payloads[before + skipped] == Some(frame.payload)
            &&& forall|i: int| before <= i < before + skipped ==> #[trigger] payloads[i] is None
            &&& payloads_of_all(outcomes.take(at + 1)).len() == before + skipped + 1
        }),
{
    let first = outcomes.take(at);
    let one = outcomes.take(at + 1);
    let later = outcomes.skip(at + 1);
    assert(first + seq![outcomes[at]] =~= one);
    assert(one + later =~= outcomes);
    outcomes_are_decoded_in_order(first, seq![outcomes[at]]);
    outcomes_are_decoded_in_order(one, later);
    missing_frames_are_made_up(frame, 0);
    assert(seq![outcomes[at]].drop_last() =~= Seq::<RecvOutcome>::empty());
    let own = payloads_of(step_after(RecvOutcome::Frame(frame)));
    assert(payloads_of_all(seq![outcomes[at]].drop_last()) =~= Seq::<Option<Bytes>>::empty());
    assert(payloads_of_all(seq![outcomes[at]]) =~= own);
    let before = payloads_of_all(first).len() as int;
    assert forall|i: int| before <= i < before + own.len() - 1 implies #[trigger] payloads_of_all(
        outcomes,
    )[i] is None by {
        assert(own[i - before] is None);
    }
    assert(payloads_of_all(outcomes)[before + own.len() - 1] == own[own.len() - 1]);
}

/// The codec is handed the payloads in order, each in the state that the one before it has left,
/// and makes a piece of each, until it fails on one: then it is handed no more. So there are as
/// many pieces as payloads exactly if it has not failed.
pub proof fn payloads_are_decoded_in_turn<
    D,
    X,
    F: Fn(D, Option<Bytes>) -> (D, Result<Vec<u32>, X>),
>(
    decode: F,
    first: D,
    payloads: Seq<Option<Bytes>>,
    pieces: Seq<Vec<u32>>,
    last: D,
    error: Option<X>,
)
    requires
        decodes(decode, first, payloads, pieces, last, error),
    ensures
        error is None <==> pieces.len() == payloads.len(),
        pieces.len() <= payloads.len(),
        exists|states: Seq<D>|
            {
                &&& #[trigger] states.len() == pieces.len() + 1
                &&& states[0] == first
                &&& forall|i: int|
                    0 <= i < pieces.len() ==> decode.ensures(
                        (states[i], payloads[i]),
                        (states[i + 1], Ok(#[trigger] pieces[i])),
                    )
                &&& error is None ==> states[pieces.len() as int] == last
                &&& error matches Some(error) ==> decode.ensures(
                    (states[pieces.len() as int], payloads[pieces.len() as int]),
                    (last, Err(error)),
                )
            },
{
    let states = choose|states: Seq<D>|
        {
            &&& #[trigger] decoded_as(decode, states, payloads, pieces)
            &&& states[0] == first
            &&& match error {
                None => pieces.len() == payloads.len() && states.last() == last,
                Some(error) => {
                    &&& pieces.len() < payloads.len()
                    &&& decode.ensures(
                        (states.last(), payloads[pieces.len() as int]),
                        (last, Err(error)),
                    )
                },
            }
        };
    assert(states.len() == pieces.len() + 1);
}

/// A tick asks the track until it has nothing more, has ended, or has given what the codec
/// fails on, and no further. It ends the track's decoder exactly if the track has ended, and
/// what it keeps is what the codec has made of all that the track gave, in order.
pub proof fn ticks_decode_what_the_track_gives<
    D,
    X,
    F: Fn(D, Option<Bytes>) -> (D, Result<Vec<u32>, X>),
>(
    decode: F,
    before: MediaTrackOpusDecoder<D>,
    after: MediaTrackOpusDecoder<D>,
    result: Result<Option<usize>, X>,
)
    requires
        before.collects(decode, after, result),
    ensures
        same_channel(after.source(), before.source()),
        after.layout() == before.layout(),
        result matches Ok(Some(len)) ==> len == after.decoded().len(),
        result is Ok ==> error_of(result) is None,
        result matches Err(error) ==> error_of(result) == Some(error),
        exists|outcomes: Seq<RecvOutcome>, pieces: Seq<Vec<u32>>|
            {
                &&& #[trigger] gives_all(before.source(), outcomes, after.source())
                &&& outcomes.len() > 0
                &&& forall|i: int|
                    0 <= i < outcomes.len() - 1 ==> (#[trigger] outcomes[i] is Frame
                        || outcomes[i] is Lagged)
                &&& outcomes.last() is Closed <==> result == Ok::<Option<usize>, X>(None)
                &&& outcomes.last() is Empty ==> result is Ok
                &&& result matches Ok(Some(_)) ==> outcomes.last() is Empty || outcomes.len()
                    == 0xffff_ffff_ffff_ffff
                &&& #[trigger] decodes(
                    decode,
                    before.codec(),
                    payloads_of_all(outcomes),
                    pieces,
                    after.codec(),
                    error_of(result),
                )
                &&& result is Err ==> payloads_of_all(outcomes.drop_last()).len() <= pieces.len()
                &&& after.decoded() == joined(pieces)
            },
{
    let (outcomes, pieces) = choose|outcomes: Seq<RecvOutcome>, pieces: Seq<Vec<u32>>|
        {
            &&& #[trigger] ticked(
                decode,
                before.codec(),
                outcomes,
                pieces,
                after.codec(),
                result,
            )
            &&& gives_all(before.source(), outcomes, after.source())
            &&& after.decoded() == joined(pieces)
        };
    assert(decodes(
        decode,
        before.codec(),
        payloads_of_all(outcomes),
        pieces,
        after.codec(),
        error_of(result),
    ));
    assert(gives_all(before.source(), outcomes, after.source()));
}

/// The codec is handed the frames in order, each in the state that the one before it has left.
pub proof fn frames_are_encoded_in_turn<E, F: Fn(E, Vec<u32>) -> (E, Vec<u8>)>(
    encode: F,
    first: E,
    frames: Seq<Vec<u32>>,
    codes: Seq<Vec<u8>>,
    last: E,
)
    requires
        all_encoded(encode, first, frames, codes, last),
    ensures
        codes.len() == frames.len(),
        exists|states: Seq<E>|
            {
                &&& #[trigger] states.len() == frames.len() + 1
                &&& states[0] == first
                &&& states[frames.len() as int] == last
                &&& forall|i: int|
                    0 <= i < frames.len() ==> encode.ensures(
                        (states[i], #[trigger] frames[i]),
                        (states[i + 1], codes[i]),
                    )
            },
{
    let states = choose|states: Seq<E>|
        {
            &&& #[trigger] encoded_as(encode, states, frames, codes)
            &&& states[0] == first
            &&& states.last() == last
        };
    assert(states.len() == frames.len() + 1);
    assert forall|i: int| 0 <= i < frames.len() implies encode.ensures(
        (states[i], #[trigger] frames[i]),
        (states[i + 1], codes[i]),
    ) by {
        let code = codes[i];
    }
}

/// A frame is encoded by one call of the codec, which takes the place of the one before. What
/// is pending stays so, and the buffer is as long as before, with nothing left in its end but
/// what the codec has not overwritten.
pub proof fn frames_are_encoded_once<E, F: Fn(E, Vec<u32>) -> (E, Vec<u8>)>(
    encode: F,
    before: OpusEncoder<E>,
    frame: Vec<u32>,
    after: OpusEncoder<E>,
    code: Vec<u8>,
)
    requires
        before.coded(encode, frame, after, code),
    ensures
        encode.ensures((before.codec(), frame), (after.codec(), code)),
        after.pending() == before.pending(),
        after.nominal_len() == before.nominal_len(),
        after.output().len() == before.nominal_len(),
        after.wf(),
{
}

/// What is sent of a frame has the bytes that the codec has written and the count of the frame's
/// samples, says of nothing that it was skipped, and is put to the channel of the sender.
pub proof fn codes_are_sent(
    sender: broadcast::Sender<MediaFrame>,
    code: Seq<u8>,
    sample_count: u32,
    result: Result<usize, MediaFrame>,
)
    requires
        sends_code(sender, code, sample_count, result),
    ensures
        exists|media: MediaFrame|
            {
                &&& #[trigger] sent_to(sender, media, result)
                &&& bytes_contents(media.payload) == code
                &&& media.sample_count == Some(sample_count)
                &&& media.skipped_frames is None
                &&& media.skipped_samples is None
            },
{
    let media = choose|media: MediaFrame|
        {
            &&& #[trigger] sent_to(sender, media, result)
            &&& carries_code(media, code, sample_count)
        };
    assert(sent_to(sender, media, result));
}

/// A tick of the encoder sends every frame that its samples fill up, each as the codec has
/// encoded it, in order, and each once: until one is received by nobody, which stops the encoder
/// at that frame. All samples are used exactly unless it stops before.
pub proof fn ticks_send_every_frame<E, F: Fn(E, Vec<u32>) -> (E, Vec<u8>)>(
    before: MediaTrackOpusEncoder<E>,
    encode: F,
    samples: Seq<u32>,
    used: int,
    frames: Seq<Vec<u32>>,
    codes: Seq<Vec<u8>>,
    results: Seq<Result<usize, MediaFrame>>,
    after: MediaTrackOpusEncoder<E>,
    flow: Flow,
)
    requires
        before.sends(encode, samples, used, frames, codes, results, after, flow),
    ensures
        0 <= used <= samples.len(),
        joined(frames) + after.encoder.pending() == before.encoder.pending() + samples.take(used),
        forall|j: int|
            0 <= j < frames.len() ==> (#[trigger] frames[j])@.len() == before.encoder.frame_len(),
        after.encoder.pending().len() < before.encoder.frame_len(),
        all_encoded(encode, before.encoder.codec(), frames, codes, after.encoder.codec()),
        results.len() == frames.len(),
        codes.len() == frames.len(),
        forall|i: int|
            0 <= i < results.len() ==> sends_code(
                before.sender,
                codes[i]@,
                before.encoder.frame_len() as u32,
                #[trigger] results[i],
            ),
        forall|i: int| 0 <= i < results.len() - 1 ==> #[trigger] results[i] is Ok,
        flow == Flow::Break <==> results.len() > 0 && results.last() is Err,
        flow == Flow::Continue ==> used == samples.len(),
        flow == Flow::Break ==> after.encoder.pending().len() == 0,
{
    framing_keeps_every_sample(
        before.encoder.pending() + samples.take(used),
        before.encoder.frame_len(),
        frames,
        after.encoder.pending(),
    );
}

/// Frames are as long as the stream's parameters say, but never empty.
pub proof fn frames_are_never_empty<E>(encoder: OpusEncoder<E>)
    ensures
        encoder.frame_len() > 0,
        encoder.nominal_len() > 0 ==> encoder.frame_len() == encoder.nominal_len(),
        encoder.nominal_len() == 0 ==> encoder.frame_len() == 1,
{
}

/// Opus has layouts for one and for two channels, with that many channels, and no others.
pub proof fn layouts_have_their_channels(channel_count: u16)
    ensures
        layout_of(channel_count) matches Some(layout) ==> layout.channel_count() == channel_count,
        layout_of(channel_count) is Some <==> channel_count == 1 || channel_count == 2,
{
}

/// A codec can encode where it takes every frame and never writes more than it has room for, and
/// can then do so with more room.
pub proof fn encoding_needs_room<E, F: Fn(E, Vec<u32>) -> (E, Vec<u8>)>(
    encode: F,
    room: usize,
    more: usize,
)
    requires
        room <= more,
    ensures
        can_encode::<E, F>(encode, room) ==> can_encode::<E, F>(encode, more),
        (forall|codec: E, frame: Vec<u32>| #[trigger] encode.requires((codec, frame))) && (forall|
            codec: E,
            frame: Vec<u32>,
            next: E,
            code: Vec<u8>,
        | #[trigger]
            encode.ensures((codec, frame), (next, code)) ==> code@.len() <= room) ==> can_encode::<
            E,
            F,
        >(encode, room),
{
}

/// An encoder goes on as long as somebody receives its frames.
pub proof fn encoders_go_on_while_heard(
    receivers: usize,
    frame: MediaFrame,
    heard: Flow,
    unheard: Flow,
)
    requires
        call_ensures(after_send, (Ok(receivers),), heard),
        call_ensures(after_send, (Err(frame),), unheard),
    ensures
        heard is Continue,
        unheard is Break,
{
}

} // verus!
