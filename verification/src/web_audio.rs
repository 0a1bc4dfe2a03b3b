//! Audio on web audio nodes: the choice of devices, the way from a node to a track and the
//! way from a track back to a node.

use bytes::Bytes;
use tokio::sync::broadcast;
use vstd::prelude::*;

use crate::audio::device::PREFERRED_DEVICE;
use crate::audio::{AudioConfig, SampleRate, StreamParams, DURATION_20MS, SAMPLE_RATE};
use crate::codec::opus::{asked, decodes, decodes_more, decodes_nothing, decodes_one};
use crate::codec::opus::{error_of, goes_on, layout_of, MediaTrackOpusEncoder, OpusChannels};
use crate::codec::opus::{all_encoded, can_encode, carries_code, encoded_nothing, encoded_push};
use crate::codec::opus::{sends_code, MAX_POLLS};
use crate::frames::{framed, joined, joined_append, joined_push};
use crate::ring::lesser;
use crate::rtc::{can_happen, gives, gives_all, gives_nothing, gives_one_more, hears};
use crate::rtc::{kept_frames, same_channel};
use crate::rtc::{Codec, MediaFrame, MediaTrack, RecvOutcome, TrackKind};
use crate::text::{begins_with, same_text, starts_with};

pub mod processor;

verus! {

/// The samples of one channel that a node renders at once.
pub const RENDER_SAMPLE_COUNT: usize = 128;

/// The samples of one channel in an encoded frame.
pub const SAMPLES_PER_FRAME: usize = 960;

/// The frames that a track keeps for receivers that fall behind.
pub const TRACK_CAPACITY: usize = 8;

/// The kind of a media device.
#[derive(Debug, Clone, Copy, PartialEq, Eq, Structural)]
pub enum MediaDeviceKind {
    VideoInput,
    AudioInput,
    AudioOutput,
}

/// What is known of a media device.
#[derive(Debug)]
pub struct MediaDevice {
    pub kind: MediaDeviceKind,
    pub label: String,
    pub device_id: String,
}

/// How a label is held against a name.
#[derive(Debug, Clone, Copy, PartialEq, Eq, Structural)]
pub enum Match {
    /// The label is the name.
    Whole,
    /// The label begins with the name.
    Prefix,
}

/// Whether a device is of the kind and goes by the name.
pub open spec fn answers(
    device: MediaDevice,
    kind: MediaDeviceKind,
    how: Match,
    name: Seq<char>,
) -> bool {
    &&& device.kind == kind
    &&& match how {
        Match::Whole => device.label@ == name,
        Match::Prefix => begins_with(device.label@, name),
    }
}

/// Whether the device at `at` is the first that is of the kind and goes by the name.
pub open spec fn answers_first(
    devices: Seq<MediaDevice>,
    kind: MediaDeviceKind,
    how: Match,
    name: Seq<char>,
    at: int,
) -> bool {
    &&& 0 <= at < devices.len()
    &&& answers(devices[at], kind, how, name)
    &&& forall|i: int| 0 <= i < at ==> !answers(#[trigger] devices[i], kind, how, name)
}

/// Whether no device is of the kind and goes by the name.
pub open spec fn none_answers(
    devices: Seq<MediaDevice>,
    kind: MediaDeviceKind,
    how: Match,
    name: Seq<char>,
) -> bool {
    forall|i: int| 0 <= i < devices.len() ==> !answers(#[trigger] devices[i], kind, how, name)
}

fn first_answer(
    devices: &Vec<MediaDevice>,
    kind: MediaDeviceKind,
    how: Match,
    name: &str,
) -> (at: Option<usize>)
    ensures
        match at {
            Some(at) => answers_first(devices@, kind, how, name@, at as int),
            None => none_answers(devices@, kind, how, name@),
        },
{
    let mut next: usize = 0;
    while next < devices.len()
        invariant
            next <= devices@.len(),
            forall|i: int| 0 <= i < next ==> !answers(#[trigger] devices@[i], kind, how, name@),
        decreases devices@.len() - next,
    {
        let device: &MediaDevice = &devices[next];
        if device.kind == kind {
            let found: bool = match how {
                Match::Whole => same_text(device.label.as_str(), name),
                Match::Prefix => starts_with(device.label.as_str(), name),
            };
            if found {
                return Some(next);
            }
        }
        next = next + 1;
    }
    None
}

/// Whether `id` is what the search for a name comes to: the identifier of the first device
/// of the kind that goes by it, or nothing where there is none.
pub open spec fn found_by(
    devices: Seq<MediaDevice>,
    kind: MediaDeviceKind,
    how: Match,
    name: Seq<char>,
    id: Option<String>,
) -> bool {
    match id {
        Some(id) => exists|at: int|
            {
                &&& #[trigger] answers_first(devices, kind, how, name, at)
                &&& id@ == devices[at].device_id@
            },
        None => none_answers(devices, kind, how, name),
    }
}

/// Whether `id` is that of the device to use for an optional name.
pub open spec fn chosen_device(
    devices: Seq<MediaDevice>,
    name: Option<String>,
    kind: MediaDeviceKind,
    on_linux: bool,
    id: Option<String>,
) -> bool {
    match name {
        Some(name) => found_by(devices, kind, Match::Prefix, name@, id),
        None => if on_linux {
            found_by(devices, kind, Match::Whole, PREFERRED_DEVICE@, id)
        } else {
            id is None
        },
    }
}

/// Finds the identifier of the device to use. With a name, that is the first device of the
/// kind whose label begins with it. Without one, there is none but on Linux, where it is the
/// preferred device.
pub fn find_device(
    devices: &Vec<MediaDevice>,
    name: Option<&str>,
    kind: MediaDeviceKind,
    on_linux: bool,
) -> (id: Option<String>)
    ensures
        match name {
            Some(name) => found_by(devices@, kind, Match::Prefix, name@, id),
            None => if on_linux {
                found_by(devices@, kind, Match::Whole, PREFERRED_DEVICE@, id)
            } else {
                id is None
            },
        },
{
    if on_linux && name.is_none() {
        match first_answer(devices, kind, Match::Whole, PREFERRED_DEVICE) {
            Some(at) => {
                return Some(devices[at].device_id.clone());
            },
            None => {},
        }
    }
    match name {
        Some(name) => match first_answer(devices, kind, Match::Prefix, name) {
            Some(at) => Some(devices[at].device_id.clone()),
            None => None,
        },
        None => None,
    }
}

/// The devices that an audio context is opened with.
#[derive(Debug)]
pub struct ContextDevices {
    /// The device to play on. Empty for the default one.
    pub sink_id: String,
    /// The device to record from, if it is not the default one.
    pub source_id: Option<String>,
}

/// Decides the devices that an audio context is opened with.
pub fn context_devices(
    devices: &Vec<MediaDevice>,
    config: &AudioConfig,
    on_linux: bool,
) -> (chosen: ContextDevices)
    ensures
        exists|sink: Option<String>|
            {
                &&& #[trigger] chosen_device(
                    devices@,
                    config.output_device,
                    MediaDeviceKind::AudioOutput,
                    on_linux,
                    sink,
                )
                &&& chosen.sink_id@ == (match sink {
                    Some(id) => id@,
                    None => Seq::<char>::empty(),
                })
            },
        chosen_device(
            devices@,
            config.input_device,
            MediaDeviceKind::AudioInput,
            on_linux,
            chosen.source_id,
        ),
{
    let output: Option<&str> = match &config.output_device {
        Some(name) => Some(name.as_str()),
        None => None,
    };
    let input: Option<&str> = match &config.input_device {
        Some(name) => Some(name.as_str()),
        None => None,
    };
    let sink: Option<String> = find_device(devices, output, MediaDeviceKind::AudioOutput, on_linux);
    assert(chosen_device(
        devices@,
        config.output_device,
        MediaDeviceKind::AudioOutput,
        on_linux,
        sink,
    ));
    let source_id: Option<String> = find_device(
        devices,
        input,
        MediaDeviceKind::AudioInput,
        on_linux,
    );
    let sink_id: String = match sink {
        Some(id) => id,
        None => String::new(),
    };
    ContextDevices { sink_id, source_id }
}

/// The positions of the devices of a kind, in order.
pub open spec fn positions_of(devices: Seq<MediaDevice>, kind: MediaDeviceKind) -> Seq<usize>
    decreases devices.len(),
{
    if devices.len() == 0 {
        Seq::empty()
    } else if devices.last().kind == kind {
        positions_of(devices.drop_last(), kind).push((devices.len() - 1) as usize)
    } else {
        positions_of(devices.drop_last(), kind)
    }
}

/// Returns the positions of the devices of a kind, in order.
pub fn devices_of_kind(devices: &Vec<MediaDevice>, kind: MediaDeviceKind) -> (positions: Vec<usize>)
    ensures
        positions@ == positions_of(devices@, kind),
{
    let mut positions: Vec<usize> = Vec::new();
    let mut next: usize = 0;
    while next < devices.len()
        invariant
            next <= devices@.len(),
            positions@ == positions_of(devices@.take(next as int), kind),
        decreases devices@.len() - next,
    {
        assert(devices@.take(next + 1).drop_last() =~= devices@.take(next as int));
        if devices[next].kind == kind {
            positions.push(next);
        }
        next = next + 1;
    }
    assert(devices@.take(next as int) =~= devices@);
    positions
}

/// The channels that a node with the given number of them is encoded with.
pub open spec fn encoded_channels(channel_count: usize) -> u16 {
    if channel_count == 1 {
        1
    } else {
        2
    }
}

/// Makes the encoding side for a node, and the track that it sends to. All nodes but those
/// with one channel are encoded in stereo.
pub fn audio_to_opus_track<E>(channel_count: usize, encoder: E) -> (ends: (
    MediaTrackOpusEncoder<E>,
    MediaTrack,
))
    ensures
        ends.0.encoder.wf(),
        ends.0.encoder.codec() == encoder,
        ends.0.encoder.pending() == Seq::<u32>::empty(),
        ends.0.encoder.nominal_len() == SAMPLES_PER_FRAME * encoded_channels(channel_count),
        hears(ends.1.receiver, ends.0.sender),
        TRACK_CAPACITY <= kept_frames(ends.0.sender) < 2 * TRACK_CAPACITY,
        ends.1.track_kind == TrackKind::Audio,
        ends.1.track_codec == (Codec::Opus {
            channels: if channel_count == 1 {
                OpusChannels::Mono
            } else {
                OpusChannels::Stereo
            },
        }),
{
    let channels: u16 = match channel_count {
        1 => 1,
        _ => 2,
    };
    let params: StreamParams = StreamParams::new(SampleRate(SAMPLE_RATE), channels);
    proof {
        assert(SAMPLE_RATE / 1000 == 48);
        assert(DURATION_20MS as usize == 20);
        assert(params.samples_per_channel(DURATION_20MS) == 960);
        assert(params.samples_in_all(DURATION_20MS) == 960 * channels) by (nonlinear_arith)
            requires
                params.samples_per_channel(DURATION_20MS) == 960,
                params.samples_in_all(DURATION_20MS) == params.samples_per_channel(DURATION_20MS)
                    * channels as nat,
        ;
    }
    match MediaTrackOpusEncoder::new(TRACK_CAPACITY, params, encoder) {
        Ok(ends) => ends,
        Err(_) => {
            assert(layout_of(channels) is Some);
            vstd::pervasive::unreached()
        },
    }
}

/// The sample that comes at position `at` of an interleaved buffer: with two channels, they
/// take turns, and the one that has the turn gives its own sample of that position.
pub open spec fn interleaved_at(left: Seq<u32>, right: Option<Seq<u32>>, at: int) -> Option<u32> {
    let channel = match right {
        Some(right) => if at % 2 == 1 {
            right
        } else {
            left
        },
        None => left,
    };
    if 0 <= at < channel.len() {
        Some(channel[at])
    } else {
        None
    }
}

/// Reads the channels of a buffer in turns.
pub struct Interleave<'a> {
    pub left: &'a [u32],
    pub right: Option<&'a [u32]>,
    pub pos: usize,
    pub x: bool,
}

/// The samples of the second channel, if there is one.
pub open spec fn second_channel(right: Option<&[u32]>) -> Option<Seq<u32>> {
    match right {
        Some(right) => Some(right@),
        None => None,
    }
}

impl<'a> Interleave<'a> {
    /// The second channel has its turn at the odd positions.
    pub open spec fn wf(self) -> bool {
        self.x == (self.pos % 2 == 1)
    }

    /// Starts to read the channels of a buffer.
    pub fn new_from_buffer(left: &'a [u32], right: Option<&'a [u32]>) -> (interleave: Self)
        ensures
            interleave.wf(),
            interleave.pos == 0,
            interleave.left == left,
            interleave.right == right,
    {
        Interleave { left, right, pos: 0, x: false }
    }

    /// Returns the next sample, if the channel that has the turn still has one.
    pub fn next(&mut self) -> (sample: Option<u32>)
        requires
            old(self).wf(),
            old(self).pos < usize::MAX,
        ensures
            final(self).wf(),
            final(self).pos == old(self).pos + 1,
            final(self).left == old(self).left,
            final(self).right == old(self).right,
            sample == interleaved_at(
                old(self).left@,
                second_channel(old(self).right),
                old(self).pos as int,
            ),
    {
        let channel: &[u32] = match self.right {
            Some(right) => if self.x {
                right
            } else {
                self.left
            },
            None => self.left,
        };
        let sample: Option<u32> = if self.pos < channel.len() {
            Some(channel[self.pos])
        } else {
            None
        };
        self.pos = self.pos + 1;
        self.x = !self.x;
        sample
    }
}

/// Whether `samples` are those of an interleaved buffer, up to the first position at which
/// there is none.
pub open spec fn interleaved(left: Seq<u32>, right: Option<Seq<u32>>, samples: Seq<u32>) -> bool {
    &&& forall|i: int|
        0 <= i < samples.len() ==> interleaved_at(left, right, i) == Some(#[trigger] samples[i])
    &&& interleaved_at(left, right, samples.len() as int) is None
}

/// One channel alone is read as it is.
pub proof fn single_channels_are_kept(left: Seq<u32>, samples: Seq<u32>)
    requires
        interleaved(left, None, samples),
    ensures
        samples == left,
{
    if samples.len() > left.len() {
        assert(interleaved_at(left, None, left.len() as int) == Some(samples[left.len() as int]));
    }
    assert forall|i: int| 0 <= i < samples.len() implies samples[i] == left[i] by {
        assert(interleaved_at(left, None, i) == Some(samples[i]));
    }
    assert(samples =~= left);
}

/// Of two channels of the same length, as many samples are read as one of them has.
pub proof fn equal_channels_share_the_length(left: Seq<u32>, right: Seq<u32>, samples: Seq<u32>)
    requires
        left.len() == right.len(),
        interleaved(left, Some(right), samples),
    ensures
        samples.len() == left.len(),
{
    if samples.len() > left.len() {
        let at = left.len() as int;
        assert(interleaved_at(left, Some(right), at) == Some(samples[at]));
    }
}

/// Returns the samples of a buffer, its channels interleaved.
pub fn interleave(left: &[u32], right: Option<&[u32]>) -> (samples: Vec<u32>)
    requires
        left@.len() < usize::MAX - 1,
    ensures
        interleaved(left@, second_channel(right), samples@),
{
    let mut samples: Vec<u32> = Vec::new();
    let mut source: Interleave = Interleave::new_from_buffer(left, right);
    let len: usize = left.len();
    loop
        invariant
            source.wf(),
            source.left == left,
            source.right == right,
            source.pos == samples@.len(),
            source.pos <= len + 1,
            len == left@.len(),
            len < usize::MAX - 1,
            forall|i: int|
                0 <= i < samples@.len() ==> interleaved_at(left@, second_channel(right), i) == Some(
                    #[trigger] samples@[i],
                ),
        decreases len + 1 - source.pos,
    {
        proof {
            if source.pos == len + 1 {
                assert(interleaved_at(left@, second_channel(right), len as int) == Some(
                    samples@[len as int],
                ));
                assert(interleaved_at(left@, second_channel(right), len + 1) is None);
            }
        }
        match source.next() {
            Some(sample) => {
                samples.push(sample);
            },
            None => {
                return samples;
            },
        }
    }
}

/// Takes in a buffer that a node has given out, and returns the frames that it fills up, to
/// be encoded and published in order.
pub fn push_buffer<E>(
    source: &mut MediaTrackOpusEncoder<E>,
    left: &[u32],
    right: Option<&[u32]>,
) -> (frames: Vec<Vec<u32>>)
    requires
        old(source).encoder.wf(),
        left@.len() < usize::MAX - 1,
    ensures
        final(source).encoder.wf(),
        final(source).sender == old(source).sender,
        final(source).encoder.codec() == old(source).encoder.codec(),
        final(source).encoder.nominal_len() == old(source).encoder.nominal_len(),
        final(source).encoder.output() == old(source).encoder.output(),
        exists|samples: Seq<u32>|
            {
                &&& #[trigger] interleaved(left@, second_channel(right), samples)
                &&& framed(
                    old(source).encoder.pending() + samples,
                    old(source).encoder.frame_len(),
                    frames@,
                    final(source).encoder.pending(),
                )
            },
{
    let samples: Vec<u32> = interleave(left, right);
    source.encoder.push_all(samples.as_slice())
}

/// Takes in a buffer that a node has given out, has the codec encode each frame that it fills
/// up, and sends it to the track. Returns what came of each frame. Frames that nobody has
/// received are passed over.
pub fn forward_buffer<E, F: Fn(E, Vec<u32>) -> (E, Vec<u8>)>(
    source: &mut MediaTrackOpusEncoder<E>,
    left: &[u32],
    right: Option<&[u32]>,
    encode: &F,
) -> (results: Vec<Result<usize, MediaFrame>>)
    requires
        old(source).encoder.wf(),
        left@.len() < usize::MAX - 1,
        can_encode(*encode, old(source).encoder.nominal_len()),
    ensures
        final(source).sender == old(source).sender,
        final(source).encoder.wf(),
        final(source).encoder.nominal_len() == old(source).encoder.nominal_len(),
        exists|samples: Seq<u32>, frames: Seq<Vec<u32>>, codes: Seq<Vec<u8>>|
            {
                &&& #[trigger] interleaved(left@, second_channel(right), samples)
                &&& framed(
                    old(source).encoder.pending() + samples,
                    old(source).encoder.frame_len(),
                    frames,
                    final(source).encoder.pending(),
                )
                &&& #[trigger] all_encoded(
                    *encode,
                    old(source).encoder.codec(),
                    frames,
                    codes,
                    final(source).encoder.codec(),
                )
                &&& results@.len() == frames.len()
                &&& forall|i: int|
                    0 <= i < results@.len() ==> sends_code(
                        old(source).sender,
                        codes[i]@,
                        frames[i]@.len() as u32,
                        #[trigger] results@[i],
                    )
                &&& forall|i: int|
                    0 <= i < results@.len() ==> (#[trigger] results@[i] matches Err(media)
                        ==> carries_code(media, codes[i]@, frames[i]@.len() as u32))
            },
{
    let mut waiting: Vec<Vec<u32>> = push_buffer(source, left, right);
    let ghost frames = waiting@;
    let ghost pending = source.encoder.pending();
    let ghost mut codes: Seq<Vec<u8>> = Seq::empty();
    let mut results: Vec<Result<usize, MediaFrame>> = Vec::new();
    proof {
        encoded_nothing(*encode, source.encoder.codec());
        assert(frames.take(0) =~= Seq::empty());
        assert(frames.skip(0) =~= frames);
    }
    while waiting.len() > 0
        invariant
            source.sender == old(source).sender,
            source.encoder.wf(),
            source.encoder.nominal_len() == old(source).encoder.nominal_len(),
            source.encoder.pending() == pending,
            can_encode(*encode, old(source).encoder.nominal_len()),
            results@.len() + waiting@.len() == frames.len(),
            codes.len() == results@.len(),
            waiting@ == frames.skip(results@.len() as int),
            all_encoded(
                *encode,
                old(source).encoder.codec(),
                frames.take(results@.len() as int),
                codes,
                source.encoder.codec(),
            ),
            forall|i: int|
                0 <= i < results@.len() ==> sends_code(
                    old(source).sender,
                    codes[i]@,
                    frames[i]@.len() as u32,
                    #[trigger] results@[i],
                ),
            forall|i: int|
                0 <= i < results@.len() ==> (#[trigger] results@[i] matches Err(media)
                    ==> carries_code(media, codes[i]@, frames[i]@.len() as u32)),
        decreases waiting@.len(),
    {
        let ghost at = results@.len() as int;
        let ghost before = source.encoder;
        let frame: Vec<u32> = waiting.remove(0);
        assert(frame == frames[at]);
        let sample_count: u32 = #[verifier::truncate] (frame.len() as u32);
        let result: Result<usize, MediaFrame> = source.publish(frame, sample_count, encode);
        proof {
            let code = choose|code: Vec<u8>|
                {
                    &&& #[trigger] before.coded(*encode, frames[at], source.encoder, code)
                    &&& sends_code(old(source).sender, code@, sample_count, result)
                    &&& result matches Err(media) ==> carries_code(media, code@, sample_count)
                };
            encoded_push(
                *encode,
                old(source).encoder.codec(),
                frames.take(at),
                codes,
                before.codec(),
                frames[at],
                code,
                source.encoder.codec(),
            );
            assert(frames.take(at).push(frames[at]) =~= frames.take(at + 1));
            codes = codes.push(code);
        }
        results.push(result);
        assert(waiting@ =~= frames.skip(results@.len() as int));
    }
    assert(frames.take(results@.len() as int) =~= frames);
    results
}

/// What an iterator over the audio of a track does next.
pub enum IteratorStep {
    /// Have the codec decode the payload, and add all that it has room for.
    Decode { payload: Bytes },
    /// Ask the track again.
    Again,
    /// Render what is there.
    Render,
    /// The track has ended.
    End,
}

/// The step that follows from asking the track for its next frame.
pub open spec fn iterator_step(outcome: RecvOutcome) -> IteratorStep {
    match outcome {
        RecvOutcome::Frame(frame) => IteratorStep::Decode { payload: frame.payload },
        RecvOutcome::Empty => IteratorStep::Render,
        RecvOutcome::Lagged(_) => IteratorStep::Again,
        RecvOutcome::Closed => IteratorStep::End,
    }
}

/// Decides the step that follows from asking the track for its next frame. Frames that
/// were overwritten are passed over.
pub fn next_step(outcome: RecvOutcome) -> (step: IteratorStep)
    ensures
        step == iterator_step(outcome),
{
    match outcome {
        RecvOutcome::Frame(frame) => IteratorStep::Decode { payload: frame.payload },
        RecvOutcome::Empty => IteratorStep::Render,
        RecvOutcome::Lagged(_) => IteratorStep::Again,
        RecvOutcome::Closed => IteratorStep::End,
    }
}

/// The samples of one channel in interleaved samples, filled up with silence.
pub open spec fn rendered_channel(samples: Seq<u32>, channel_count: nat, channel: int) -> Seq<u32> {
    Seq::new(
        RENDER_SAMPLE_COUNT as nat,
        |i: int|
            if i * channel_count + channel < samples.len() {
                samples[i * channel_count + channel]
            } else {
                0
            },
    )
}

/// Whether `channels` are rendered from the first samples that are waiting, and `rest` is
/// left.
pub open spec fn rendered(
    waiting: Seq<u32>,
    channel_count: nat,
    channels: Seq<Vec<u32>>,
    rest: Seq<u32>,
) -> bool {
    let len = lesser(waiting.len(), RENDER_SAMPLE_COUNT as nat * channel_count) as int;
    &&& rest == waiting.skip(len)
    &&& channels.len() == channel_count
    &&& forall|c: int|
        0 <= c < channels.len() ==> (#[trigger] channels[c])@ == rendered_channel(
            waiting.take(len),
            channel_count,
            c,
        )
}

/// The payloads that the codec decodes, in order: those of the frames that the track gives.
pub open spec fn frame_payloads(outcomes: Seq<RecvOutcome>) -> Seq<Option<Bytes>>
    decreases outcomes.len(),
{
    if outcomes.len() == 0 {
        Seq::empty()
    } else {
        let before = frame_payloads(outcomes.drop_last());
        match outcomes.last() {
            RecvOutcome::Frame(frame) => before.push(Some(frame.payload)),
            _ => before,
        }
    }
}

/// Whether an iterator, to which the track gave the outcomes, has led the codec from the
/// first state to the last and has come to the block: none where the track has ended, an
/// error where the codec has failed on what came last, else one once nothing more was there.
pub open spec fn iterated<D, X, F: Fn(D, Option<Bytes>) -> (D, Result<Vec<u32>, X>)>(
    decode: F,
    first: D,
    outcomes: Seq<RecvOutcome>,
    pieces: Seq<Vec<u32>>,
    last: D,
    block: Option<Result<Vec<Vec<u32>>, X>>,
) -> bool {
    let error = match block {
        Some(result) => error_of(result),
        None => None,
    };
    &&& asked(outcomes, block is None, error is Some)
    &&& decodes(decode, first, frame_payloads(outcomes), pieces, last, error)
    &&& error is Some ==> outcomes.last() is Frame && pieces.len() + 1 == frame_payloads(
        outcomes,
    ).len()
}

/// Turns a track into buffers for a node.
pub struct OpusIterator<D> {
    decoder: Option<D>,
    track: Option<MediaTrack>,
    channel_count: usize,
    buf: Vec<u32>,
}

impl<D> OpusIterator<D> {
    /// Whether the codec and the track are there. They are away only while they work.
    pub closed spec fn has_codec(self) -> bool {
        self.decoder is Some && self.track is Some
    }

    /// The codec that is carried along.
    pub closed spec fn codec(self) -> D {
        self.decoder->0
    }

    /// The receiving end of the track.
    pub closed spec fn source(self) -> broadcast::Receiver<MediaFrame> {
        self.track->0.receiver
    }

    /// The channels of the track.
    pub closed spec fn channels(self) -> usize {
        self.channel_count
    }

    /// The interleaved samples that wait to be rendered.
    pub closed spec fn waiting(self) -> Seq<u32> {
        self.buf@
    }

    /// A track has one or two channels.
    pub open spec fn wf(self) -> bool {
        &&& self.has_codec()
        &&& self.channels() == 1 || self.channels() == 2
    }

    /// How many samples are rendered next.
    pub open spec fn render_len(self) -> nat {
        lesser(self.waiting().len(), (RENDER_SAMPLE_COUNT * self.channels()) as nat)
    }

    /// Makes the iterator over a track and the codec that decodes it.
    pub fn try_from_track(track: &MediaTrack, decoder: D) -> (iterator: Self)
        ensures
            iterator.wf(),
            iterator.codec() == decoder,
            same_channel(iterator.source(), track.receiver),
            iterator.waiting() == Seq::<u32>::empty(),
            iterator.channels() == (match track.track_codec {
                Codec::Opus { channels } => channels.channel_count(),
            }),
    {
        let channel_count: usize = match track.codec() {
            Codec::Opus { channels } => channels.count(),
        };
        OpusIterator {
            decoder: Some(decoder),
            track: Some(track.clone()),
            channel_count,
            buf: Vec::new(),
        }
    }

    /// Returns how many samples the codec has room for in one call.
    pub fn decode_room(&self) -> (samples: usize)
        requires
            self.wf(),
        ensures
            samples == SAMPLES_PER_FRAME * self.channels(),
    {
        SAMPLES_PER_FRAME * self.channel_count
    }

    /// Asks the track for its next frame and decides the next step.
    pub fn poll(&mut self) -> (step: IteratorStep)
        requires
            old(self).wf(),
        ensures
            final(self).wf(),
            final(self).codec() == old(self).codec(),
            final(self).channels() == old(self).channels(),
            same_channel(final(self).source(), old(self).source()),
            final(self).waiting() == old(self).waiting(),
            exists|outcome: RecvOutcome|
                {
                    &&& #[trigger] gives(old(self).source(), outcome, final(self).source())
                    &&& can_happen(outcome)
                    &&& step == iterator_step(outcome)
                },
    {
        let track: MediaTrack = match self.track.take() {
            Some(track) => track,
            None => vstd::pervasive::unreached(),
        };
        let (track, outcome) = track.received();
        self.track = Some(track);
        assert(gives(old(self).source(), outcome, self.source()));
        next_step(outcome)
    }

    fn channel(&self, channel: usize, len: usize) -> (samples: Vec<u32>)
        requires
            self.wf(),
            channel < self.channels(),
            len == self.render_len(),
        ensures
            samples@ == rendered_channel(
                self.waiting().take(len as int),
                self.channels() as nat,
                channel as int,
            ),
    {
        let mut samples: Vec<u32> = Vec::new();
        let mut next: usize = channel;
        while next < len
            invariant
                self.wf(),
                channel < self.channel_count,
                self.channel_count == 1 || self.channel_count == 2,
                len <= self.buf@.len(),
                len <= RENDER_SAMPLE_COUNT * self.channel_count,
                samples@.len() <= RENDER_SAMPLE_COUNT,
                next == samples@.len() * self.channel_count + channel,
                forall|i: int|
                    0 <= i < samples@.len() ==> #[trigger] samples@[i] == self.buf@[i
                        * self.channel_count + channel],
                forall|i: int|
                    0 <= i < samples@.len() ==> #[trigger] (i * self.channel_count) + channel < len,
            decreases len + 2 - next,
        {
            proof {
                if self.channel_count == 1 {
                    assert(samples@.len() * 1 + channel == next);
                } else {
                    assert(samples@.len() * 2 + channel == next);
                }
            }
            samples.push(self.buf[next]);
            next = next + self.channel_count;
        }
        let ghost read = samples@;
        let ghost count = self.channel_count as int;
        assert forall|i: int| #![trigger i * count] read.len() <= i implies i * count + channel
            >= len by {
            assert(i * count >= read.len() * count) by (nonlinear_arith)
                requires
                    i >= read.len(),
                    count > 0,
            ;
        }
        samples.resize(RENDER_SAMPLE_COUNT, 0);
        let ghost whole = rendered_channel(self.buf@.take(len as int), count as nat, channel as int);
        assert forall|i: int| 0 <= i < samples@.len() implies samples@[i] == whole[i] by {
            assert(i * count == i * self.channel_count);
            assert(i * count >= 0) by (nonlinear_arith)
                requires
                    i >= 0,
                    count > 0,
            ;
            if i < read.len() {
                assert(samples@[i] == read[i]);
            }
        }
        assert(samples@ =~= whole);
        samples
    }

    /// Renders the next buffer, one list of samples for each channel. Where too few samples
    /// are waiting, the rest is silence.
    pub fn render(&mut self) -> (channels: Vec<Vec<u32>>)
        requires
            old(self).wf(),
        ensures
            final(self).wf(),
            final(self).codec() == old(self).codec(),
            final(self).channels() == old(self).channels(),
            final(self).source() == old(self).source(),
            rendered(
                old(self).waiting(),
                old(self).channels() as nat,
                channels@,
                final(self).waiting(),
            ),
    {
        let most: usize = RENDER_SAMPLE_COUNT * self.channel_count;
        let len: usize = if self.buf.len() <= most {
            self.buf.len()
        } else {
            most
        };
        let mut channels: Vec<Vec<u32>> = Vec::new();
        while channels.len() < self.channel_count
            invariant
                *self == *old(self),
                self.wf(),
                self.channels() == self.channel_count,
                len == self.render_len(),
                channels@.len() <= self.channel_count,
                forall|c: int|
                    0 <= c < channels@.len() ==> (#[trigger] channels@[c])@ == rendered_channel(
                        self.waiting().take(len as int),
                        self.channels() as nat,
                        c,
                    ),
            decreases self.channel_count - channels@.len(),
        {
            let at: usize = channels.len();
            let samples: Vec<u32> = self.channel(at, len);
            channels.push(samples);
        }
        self.buf = self.buf.split_off(len);
        channels
    }
}

impl<D> OpusIterator<D> {
    /// Has the codec decode one payload, and adds all that it has written.
    fn add_decoded<X, F: Fn(D, Option<Bytes>) -> (D, Result<Vec<u32>, X>)>(
        &mut self,
        payload: Bytes,
        decode: &F,
    ) -> (result: Result<(), X>)
        requires
            old(self).wf(),
            decode.requires((old(self).codec(), Some(payload))),
        ensures
            final(self).wf(),
            final(self).channels() == old(self).channels(),
            final(self).source() == old(self).source(),
            exists|pieces: Seq<Vec<u32>>|
                {
                    &&& #[trigger] decodes(
                        *decode,
                        old(self).codec(),
                        seq![Some(payload)],
                        pieces,
                        final(self).codec(),
                        error_of(result),
                    )
                    &&& result is Err ==> pieces.len() == 0
                    &&& final(self).waiting() == old(self).waiting() + joined(pieces)
                },
    {
        let codec: D = match self.decoder.take() {
            Some(codec) => codec,
            None => vstd::pervasive::unreached(),
        };
        let (next, result) = decode(codec, Some(payload));
        self.decoder = Some(next);
        let ghost mut pieces: Seq<Vec<u32>> = Seq::empty();
        proof {
            decodes_one(*decode, codec, Some(payload), next, result);
        }
        let added: Result<(), X> = match result {
            Ok(mut piece) => {
                proof {
                    joined_push(pieces, piece);
                    assert(joined(pieces) + piece@ =~= piece@);
                    assert(pieces.push(piece) =~= seq![piece]);
                    pieces = seq![piece];
                }
                self.buf.append(&mut piece);
                Ok(())
            },
            Err(error) => {
                assert(self.waiting() + joined(pieces) =~= self.waiting());
                Err(error)
            },
        };
        assert(decodes(
            *decode,
            old(self).codec(),
            seq![Some(payload)],
            pieces,
            self.codec(),
            error_of(added),
        ));
        added
    }

    /// Returns the next block: has the codec decode all frames that are there, adds all that
    /// it has written for each of them, and renders. There is none once the track has ended.
    /// An error of the codec ends the turn before anything is rendered.
    pub fn next<X, F: Fn(D, Option<Bytes>) -> (D, Result<Vec<u32>, X>)>(
        &mut self,
        decode: &F,
    ) -> (block: Option<Result<Vec<Vec<u32>>, X>>)
        requires
            old(self).wf(),
            forall|codec: D, payload: Option<Bytes>| #[trigger] decode.requires((codec, payload)),
        ensures
            final(self).wf(),
            final(self).channels() == old(self).channels(),
            same_channel(final(self).source(), old(self).source()),
            exists|outcomes: Seq<RecvOutcome>, pieces: Seq<Vec<u32>>|
                {
                    let all = old(self).waiting() + joined(pieces);
                    &&& #[trigger] iterated(
                        *decode,
                        old(self).codec(),
                        outcomes,
                        pieces,
                        final(self).codec(),
                        block,
                    )
                    &&& gives_all(old(self).source(), outcomes, final(self).source())
                    &&& match block {
                        Some(Ok(channels)) => rendered(
                            all,
                            old(self).channels() as nat,
                            channels@,
                            final(self).waiting(),
                        ),
                        _ => final(self).waiting() == all,
                    }
                },
    {
        let ghost mut outcomes: Seq<RecvOutcome> = Seq::empty();
        let ghost mut pieces: Seq<Vec<u32>> = Seq::empty();
        proof {
            decodes_nothing::<D, X, F>(*decode, self.codec());
            gives_nothing(self.source());
            assert(self.waiting() + joined(pieces) =~= self.waiting());
        }
        let mut left: u64 = MAX_POLLS;
        while left > 0
            invariant_except_break
                outcomes.len() + left == MAX_POLLS,
                forall|i: int| 0 <= i < outcomes.len() ==> goes_on(#[trigger] outcomes[i]),
            invariant
                self.wf(),
                self.channels() == old(self).channels(),
                same_channel(self.source(), old(self).source()),
                gives_all(old(self).source(), outcomes, self.source()),
                forall|i: int| 0 <= i < outcomes.len() ==> can_happen(#[trigger] outcomes[i]),
                decodes(
                    *decode,
                    old(self).codec(),
                    frame_payloads(outcomes),
                    pieces,
                    self.codec(),
                    None::<X>,
                ),
                self.waiting() == old(self).waiting() + joined(pieces),
                forall|codec: D, payload: Option<Bytes>| #[trigger]
                    decode.requires((codec, payload)),
            ensures
                asked(outcomes, false, false),
            decreases left,
        {
            left = left - 1;
            let ghost before = frame_payloads(outcomes);
            let ghost asked_now = self.source();
            let step: IteratorStep = self.poll();
            proof {
                let outcome = choose|outcome: RecvOutcome|
                    {
                        &&& #[trigger] gives(asked_now, outcome, self.source())
                        &&& can_happen(outcome)
                        &&& step == iterator_step(outcome)
                    };
                gives_one_more(
                    old(self).source(),
                    outcomes,
                    asked_now,
                    outcome,
                    self.source(),
                );
                assert(outcomes.push(outcome).drop_last() =~= outcomes);
                outcomes = outcomes.push(outcome);
            }
            match step {
                IteratorStep::Decode { payload } => {
                    let ghost middle = *self;
                    let added: Result<(), X> = self.add_decoded(payload, decode);
                    let ghost one = choose|one: Seq<Vec<u32>>|
                        {
                            &&& #[trigger] decodes(
                                *decode,
                                middle.codec(),
                                seq![Some(payload)],
                                one,
                                self.codec(),
                                error_of(added),
                            )
                            &&& added is Err ==> one.len() == 0
                            &&& self.waiting() == middle.waiting() + joined(one)
                        };
                    proof {
                        decodes_more(
                            *decode,
                            old(self).codec(),
                            before,
                            pieces,
                            middle.codec(),
                            seq![Some(payload)],
                            one,
                            self.codec(),
                            error_of(added),
                        );
                        assert(before + seq![Some(payload)] =~= frame_payloads(outcomes));
                        joined_append(pieces, one);
                        assert(self.waiting() =~= old(self).waiting() + (joined(pieces) + joined(
                            one,
                        )));
                        pieces = pieces + one;
                    }
                    match added {
                        Ok(_) => {},
                        Err(error) => {
                            let block: Option<Result<Vec<Vec<u32>>, X>> = Some(Err(error));
                            assert(iterated(
                                *decode,
                                old(self).codec(),
                                outcomes,
                                pieces,
                                self.codec(),
                                block,
                            ));
                            return block;
                        },
                    }
                },
                IteratorStep::Again => {},
                IteratorStep::Render => {
                    break;
                },
                IteratorStep::End => {
                    let block: Option<Result<Vec<Vec<u32>>, X>> = None;
                    assert(iterated(
                        *decode,
                        old(self).codec(),
                        outcomes,
                        pieces,
                        self.codec(),
                        block,
                    ));
                    return block;
                },
            }
        }
        let channels: Vec<Vec<u32>> = self.render();
        let block: Option<Result<Vec<Vec<u32>>, X>> = Some(Ok(channels));
        assert(iterated(*decode, old(self).codec(), outcomes, pieces, self.codec(), block));
        block
    }
}

/// Rendering keeps the samples in order: those of the channels, read in turns, are the ones
/// that were waiting.
pub proof fn rendering_keeps_order(samples: Seq<u32>, channel_count: nat, at: int)
    requires
        channel_count > 0,
        0 <= at < samples.len(),
        samples.len() <= RENDER_SAMPLE_COUNT * channel_count,
    ensures
        at / (channel_count as int) < RENDER_SAMPLE_COUNT,
        rendered_channel(samples, channel_count, at % (channel_count as int))[at
            / (channel_count as int)] == samples[at],
{
    let c = channel_count as int;
    vstd::arithmetic::div_mod::lemma_fundamental_div_mod(at, c);
    assert(at / c < RENDER_SAMPLE_COUNT) by {
        vstd::arithmetic::div_mod::lemma_div_pos_is_pos(at, c);
        if at / c >= RENDER_SAMPLE_COUNT {
            vstd::arithmetic::mul::lemma_mul_inequality(RENDER_SAMPLE_COUNT as int, at / c, c);
            vstd::arithmetic::mul::lemma_mul_is_commutative(at / c, c);
        }
    }
    vstd::arithmetic::div_mod::lemma_div_pos_is_pos(at, c);
    vstd::arithmetic::mul::lemma_mul_is_commutative(at / c, c);
}

/// A search by name gives the identifier of the first device of the kind that goes by the name,
/// by its whole label or by how the label begins, and gives none exactly if no device does.
pub proof fn searches_find_the_first(
    devices: Seq<MediaDevice>,
    kind: MediaDeviceKind,
    how: Match,
    name: Seq<char>,
    id: Option<String>,
    at: int,
)
    requires
        found_by(devices, kind, how, name, id),
        0 <= at < devices.len(),
        devices[at].kind == kind,
        match how {
            Match::Whole => devices[at].label@ == name,
            Match::Prefix => devices[at].label@.len() >= name.len() && devices[at].label@.take(
                name.len() as int,
            ) == name,
        },
    ensures
        id is Some,
        (forall|i: int|
            0 <= i < at ==> (#[trigger] devices[i]).kind != kind || !(match how {
                Match::Whole => devices[i].label@ == name,
                Match::Prefix => devices[i].label@.len() >= name.len() && devices[i].label@.take(
                    name.len() as int,
                ) == name,
            })) ==> id->0@ == devices[at].device_id@,
{
    assert(answers(devices[at], kind, how, name));
    if forall|i: int|
        0 <= i < at ==> (#[trigger] devices[i]).kind != kind || !(match how {
            Match::Whole => devices[i].label@ == name,
            Match::Prefix => devices[i].label@.len() >= name.len() && devices[i].label@.take(
                name.len() as int,
            ) == name,
        }) {
        let first = choose|first: int|
            {
                &&& #[trigger] answers_first(devices, kind, how, name, first)
                &&& id->0@ == devices[first].device_id@
            };
        assert(answers(devices[first], kind, how, name));
        if first < at {
            assert(devices[first].kind != kind || !answers(devices[first], kind, how, name));
        }
        if at < first {
            assert(!answers(devices[at], kind, how, name));
        }
    }
}

/// What a search gives is the identifier of a device of the kind that goes by the name.
pub proof fn found_devices_exist(
    devices: Seq<MediaDevice>,
    kind: MediaDeviceKind,
    how: Match,
    name: Seq<char>,
    id: String,
) -> (at: int)
    requires
        found_by(devices, kind, how, name, Some(id)),
    ensures
        0 <= at < devices.len(),
        devices[at].kind == kind,
        devices[at].device_id@ == id@,
        how == Match::Whole ==> devices[at].label@ == name,
        how == Match::Prefix ==> devices[at].label@.take(name.len() as int) == name,
{
    let at = choose|at: int|
        {
            &&& #[trigger] answers_first(devices, kind, how, name, at)
            &&& id@ == devices[at].device_id@
        };
    assert(answers(devices[at], kind, how, name));
    at
}

/// A device that has a name is searched for by how its label begins. Without a name, Linux
/// searches for the label `pipewire`, and other systems for nothing.
pub proof fn devices_are_chosen_by_name(
    devices: Seq<MediaDevice>,
    name: String,
    kind: MediaDeviceKind,
    on_linux: bool,
    id: Option<String>,
)
    ensures
        chosen_device(devices, Some(name), kind, on_linux, id) <==> found_by(
            devices,
            kind,
            Match::Prefix,
            name@,
            id,
        ),
        chosen_device(devices, None, kind, true, id) <==> found_by(
            devices,
            kind,
            Match::Whole,
            "pipewire"@,
            id,
        ),
        chosen_device(devices, None, kind, false, id) <==> id is None,
{
}

/// The positions of a kind are those of all devices of that kind, in ascending order, and of no
/// other.
pub proof fn positions_are_those_of_the_kind(
    devices: Seq<MediaDevice>,
    kind: MediaDeviceKind,
    at: int,
)
    requires
        devices.len() <= usize::MAX,
    ensures
        forall|i: int|
            0 <= i < positions_of(devices, kind).len() ==> (#[trigger] positions_of(
                devices,
                kind,
            )[i]) < devices.len() && devices[positions_of(devices, kind)[i] as int].kind == kind,
        forall|i: int, j: int|
            0 <= i < j < positions_of(devices, kind).len() ==> #[trigger] positions_of(
                devices,
                kind,
            )[i] < #[trigger] positions_of(devices, kind)[j],
        0 <= at < devices.len() && devices[at].kind == kind ==> positions_of(
            devices,
            kind,
        ).contains(at as usize),
    decreases devices.len(),
{
    if devices.len() > 0 {
        let before = positions_of(devices.drop_last(), kind);
        let all = positions_of(devices, kind);
        positions_are_those_of_the_kind(devices.drop_last(), kind, at);
        assert forall|i: int| 0 <= i < all.len() implies (#[trigger] all[i]) < devices.len()
            && devices[all[i] as int].kind == kind by {
            if i < before.len() {
                assert(before[i] < devices.drop_last().len());
                assert(all[i] == before[i]);
            }
        }
        assert forall|i: int, j: int| 0 <= i < j < all.len() implies #[trigger] all[i]
            < #[trigger] all[j] by {
            assert(before[i] < devices.drop_last().len());
        }
        if 0 <= at < devices.len() && devices[at].kind == kind {
            if at < devices.len() - 1 {
                let i = choose|i: int| 0 <= i < before.len() && before[i] == at as usize;
                assert(all[i] == at as usize);
            } else {
                assert(all[before.len() as int] == at as usize);
            }
        }
    }
}

/// A node with one channel is encoded in one, every other node in two.
pub proof fn nodes_are_encoded_in_one_or_two(channel_count: usize)
    ensures
        encoded_channels(1) == 1,
        channel_count != 1 ==> encoded_channels(channel_count) == 2,
{
}

/// Of two channels, the even positions are read from the first and the odd ones from the second,
/// each at that same position, until the channel that has the turn is at its end.
pub proof fn channels_take_turns(left: Seq<u32>, right: Seq<u32>, samples: Seq<u32>, at: int)
    requires
        interleaved(left, Some(right), samples),
    ensures
        0 <= at < samples.len() && at % 2 == 0 ==> at < left.len() && samples[at] == left[at],
        0 <= at < samples.len() && at % 2 == 1 ==> at < right.len() && samples[at] == right[at],
        samples.len() % 2 == 0 ==> left.len() <= samples.len(),
        samples.len() % 2 == 1 ==> right.len() <= samples.len(),
{
    if 0 <= at < samples.len() {
        assert(interleaved_at(left, Some(right), at) == Some(samples[at]));
    }
}

/// There is a second channel exactly if one was given, and it holds what was given.
pub proof fn second_channels_are_those_given(right: &[u32])
    ensures
        second_channel(Some(right)) == Some(right@),
        second_channel(None) is None,
{
}

/// A frame is decoded, whatever it says of what came before it. Frames that were overwritten are
/// passed over, an empty track is rendered and a closed one has ended.
pub proof fn outcomes_decide_the_step(frame: MediaFrame, count: u64)
    ensures
        iterator_step(RecvOutcome::Frame(frame)) == (IteratorStep::Decode {
            payload: frame.payload,
        }),
        iterator_step(RecvOutcome::Lagged(count)) is Again,
        iterator_step(RecvOutcome::Empty) is Render,
        iterator_step(RecvOutcome::Closed) is End,
{
}

/// The codec is handed the payload of each frame, in order, and nothing for the rest.
pub proof fn frames_are_handed_in_order(
    first: Seq<RecvOutcome>,
    frame: MediaFrame,
    count: u64,
    second: Seq<RecvOutcome>,
)
    ensures
        frame_payloads(Seq::<RecvOutcome>::empty()).len() == 0,
        frame_payloads(seq![RecvOutcome::Frame(frame)]) == seq![Some(frame.payload)],
        frame_payloads(seq![RecvOutcome::Lagged(count)]).len() == 0,
        frame_payloads(seq![RecvOutcome::Empty]).len() == 0,
        frame_payloads(seq![RecvOutcome::Closed]).len() == 0,
        frame_payloads(first + second) == frame_payloads(first) + frame_payloads(second),
    decreases second.len(),
{
    reveal_with_fuel(frame_payloads, 2);
    assert(seq![RecvOutcome::Frame(frame)].drop_last() =~= Seq::<RecvOutcome>::empty());
    assert(seq![RecvOutcome::Lagged(count)].drop_last() =~= Seq::<RecvOutcome>::empty());
    assert(seq![RecvOutcome::Empty].drop_last() =~= Seq::<RecvOutcome>::empty());
    assert(seq![RecvOutcome::Closed].drop_last() =~= Seq::<RecvOutcome>::empty());
    assert(frame_payloads(seq![RecvOutcome::Frame(frame)]) =~= seq![Some(frame.payload)]);
    if second.len() > 0 {
        frames_are_handed_in_order(first, frame, count, second.drop_last());
        assert((first + second).drop_last() =~= first + second.drop_last());
        assert((first + second).last() == second.last());
    } else {
        assert(first + second =~= first);
    }
    assert(frame_payloads(first + second) =~= frame_payloads(first) + frame_payloads(second));
}

/// A block holds 128 samples of each channel. Sample `i` of channel `c` is the one that waited at
/// `i` times the number of channels, plus `c`, or silence where nothing waited, and what the
/// block has no room for goes on waiting.
pub proof fn blocks_hold_what_waited_first(
    waiting: Seq<u32>,
    channel_count: nat,
    channels: Seq<Vec<u32>>,
    rest: Seq<u32>,
    c: int,
    i: int,
)
    requires
        rendered(waiting, channel_count, channels, rest),
    ensures
        channels.len() == channel_count,
        waiting.len() <= 128 * channel_count ==> rest.len() == 0,
        waiting.len() > 128 * channel_count ==> rest == waiting.skip(128 * channel_count as int),
        0 <= c < channel_count && 0 <= i < 128 ==> {
            &&& channels[c]@.len() == 128
            &&& i * channel_count + c < waiting.len() ==> channels[c]@[i] == waiting[i
                * channel_count + c]
            &&& i * channel_count + c >= waiting.len() ==> channels[c]@[i] == 0
        },
{
    if 0 <= c < channel_count && 0 <= i < 128 {
        assert(channels[c]@.len() == 128);
        assert(i * channel_count + c < 128 * channel_count) by (nonlinear_arith)
            requires
                0 <= c < channel_count,
                0 <= i < 128,
        ;
        assert(0 <= i * channel_count) by (nonlinear_arith)
            requires
                0 <= i,
                0 <= channel_count,
        ;
    }
}

/// An iterator asks the track until it has nothing more, has ended, or has given a frame that the
/// codec fails on, and no further. It ends exactly if the track has ended, and the codec decodes
/// every frame that the track gave, in order.
pub proof fn iterators_decode_every_frame<
    D,
    X,
    F: Fn(D, Option<Bytes>) -> (D, Result<Vec<u32>, X>),
>(
    decode: F,
    first: D,
    outcomes: Seq<RecvOutcome>,
    pieces: Seq<Vec<u32>>,
    last: D,
    block: Option<Result<Vec<Vec<u32>>, X>>,
)
    requires
        iterated(decode, first, outcomes, pieces, last, block),
    ensures
        outcomes.len() > 0,
        forall|i: int|
            0 <= i < outcomes.len() - 1 ==> (#[trigger] outcomes[i] is Frame
                || outcomes[i] is Lagged),
        outcomes.last() is Closed <==> block is None,
        outcomes.last() is Empty ==> (block matches Some(result) && result is Ok),
        block matches Some(Ok(_)) ==> outcomes.last() is Empty || outcomes.len()
            == 0xffff_ffff_ffff_ffff,
        block matches Some(Ok(_)) || block is None ==> pieces.len() == frame_payloads(
            outcomes,
        ).len() && decodes(
            decode,
            first,
            frame_payloads(outcomes),
            pieces,
            last,
            None::<X>,
        ),
        block matches Some(Err(error)) ==> outcomes.last() is Frame && pieces.len()
            == frame_payloads(outcomes.drop_last()).len() && decodes(
            decode,
            first,
            frame_payloads(outcomes),
            pieces,
            last,
            Some(error),
        ),
{
}

/// A context plays on the device that the search among the outputs finds, else on the default
/// one, and records from the one that the search among the inputs finds.
pub proof fn contexts_use_their_devices(
    devices: &Vec<MediaDevice>,
    config: &AudioConfig,
    on_linux: bool,
    chosen: ContextDevices,
    at: int,
)
    requires
        call_ensures(context_devices, (devices, config, on_linux), chosen),
    ensures
        config.input_device matches Some(name) && 0 <= at < devices@.len() && answers_first(
            devices@,
            MediaDeviceKind::AudioInput,
            Match::Prefix,
            name@,
            at,
        ) ==> (chosen.source_id matches Some(id) && id@ == devices@[at].device_id@),
        config.output_device matches Some(name) && 0 <= at < devices@.len() && answers_first(
            devices@,
            MediaDeviceKind::AudioOutput,
            Match::Prefix,
            name@,
            at,
        ) ==> chosen.sink_id@ == devices@[at].device_id@,
        config.input_device is None && !on_linux ==> chosen.source_id is None,
        config.output_device is None && !on_linux ==> chosen.sink_id@.len() == 0,
{
    let sink = choose|sink: Option<String>|
        {
            &&& #[trigger] chosen_device(
                devices@,
                config.output_device,
                MediaDeviceKind::AudioOutput,
                on_linux,
                sink,
            )
            &&& chosen.sink_id@ == (match sink {
                Some(id) => id@,
                None => Seq::<char>::empty(),
            })
        };
    if let Some(name) = config.input_device {
        if 0 <= at < devices@.len() && answers_first(
            devices@,
            MediaDeviceKind::AudioInput,
            Match::Prefix,
            name@,
            at,
        ) {
            assert forall|i: int| 0 <= i < at implies (#[trigger] devices@[i]).kind
                != MediaDeviceKind::AudioInput || !(devices@[i].label@.len() >= name@.len()
                && devices@[i].label@.take(name@.len() as int) == name@) by {
                assert(!answers(devices@[i], MediaDeviceKind::AudioInput, Match::Prefix, name@));
            }
            searches_find_the_first(
                devices@,
                MediaDeviceKind::AudioInput,
                Match::Prefix,
                name@,
                chosen.source_id,
                at,
            );
        }
    }
    if let Some(name) = config.output_device {
        if 0 <= at < devices@.len() && answers_first(
            devices@,
            MediaDeviceKind::AudioOutput,
            Match::Prefix,
            name@,
            at,
        ) {
            assert forall|i: int| 0 <= i < at implies (#[trigger] devices@[i]).kind
                != MediaDeviceKind::AudioOutput || !(devices@[i].label@.len() >= name@.len()
                && devices@[i].label@.take(name@.len() as int) == name@) by {
                assert(!answers(devices@[i], MediaDeviceKind::AudioOutput, Match::Prefix, name@));
            }
            searches_find_the_first(
                devices@,
                MediaDeviceKind::AudioOutput,
                Match::Prefix,
                name@,
                sink,
                at,
            );
        }
    }
}

} // verus!
