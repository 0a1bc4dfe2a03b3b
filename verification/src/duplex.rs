//! A plain path for one call: one device records, another plays, both at one channel, and
//! nothing is mixed or processed.

use bytes::Bytes;
use vstd::prelude::*;

use crate::audio::device::{
    last_offer, report, reports, search, search_host, select_config, ConfigRange, DeviceChoice,
    FindDeviceError, HostDevices, SupportedConfig, NO_INPUT_DEVICE,
};
use crate::audio::{opus_params, opus_stream_params, OutboundAudio, StreamParams};
use crate::audio::record::holds_code;
use crate::codec::opus::{
    all_encoded, can_encode, encoded_nothing, encoded_push, Flow, OpusEncoder,
};
use crate::payload::bytes_contents;
use crate::frames::{drawn_len, frame_drawn, framed, framed_draw, framed_nothing};
use crate::frames::{framing_keeps_every_sample, joined};

verus! {

/// The samples of an encoded frame, 20 ms of them.
pub const SAMPLES_PER_FRAME: usize = 960;

/// The devices to use.
#[derive(Debug)]
pub struct AudioConfig {
    /// The input device to use.
    pub input_device: Option<String>,
    /// The output device to use.
    pub output_device: Option<String>,
}

impl AudioConfig {
    /// Makes the configuration for the devices that the environment names, if it does.
    pub fn from_environment(
        input_device: Option<String>,
        output_device: Option<String>,
    ) -> (config: Self)
        ensures
            config.input_device == input_device,
            config.output_device == output_device,
    {
        AudioConfig { input_device, output_device }
    }
}

/// Audio that has come in.
#[derive(Debug)]
pub enum InboundAudio {
    Opus { payload: Bytes, skipped_samples: Option<u32> },
}

/// How the message for an output device that is not there begins.
pub const NO_OUTPUT_DEVICE: &'static str = "could not find output audio device `";

/// Finds the device to record with. With a name, that is the first device that tells it.
/// Without one, it is on Linux the preferred device if there is one, else the default
/// device, else the first one.
pub fn find_input_device(
    host: &HostDevices,
    input_device: Option<&str>,
    on_linux: bool,
) -> (result: Result<DeviceChoice, FindDeviceError>)
    ensures
        reports(search(*host, input_device, on_linux), NO_INPUT_DEVICE@, input_device, result),
{
    report(search_host(host, input_device, on_linux), NO_INPUT_DEVICE, input_device)
}

/// Finds the device to play with, by the same rules.
pub fn find_output_device(
    host: &HostDevices,
    output_device: Option<&str>,
    on_linux: bool,
) -> (result: Result<DeviceChoice, FindDeviceError>)
    ensures
        reports(search(*host, output_device, on_linux), NO_OUTPUT_DEVICE@, output_device, result),
{
    report(search_host(host, output_device, on_linux), NO_OUTPUT_DEVICE, output_device)
}

/// Whether a configuration is the best one with one channel at the rate of Opus, from
/// ranges sorted from the worst to the best, else the device's default.
pub open spec fn chosen_config(
    ranges: Seq<ConfigRange>,
    default: Option<SupportedConfig>,
    config: Option<SupportedConfig>,
) -> bool {
    if exists|i: int| last_offer(ranges, opus_stream_params(), i) {
        exists|i: int|
            {
                &&& #[trigger] last_offer(ranges, opus_stream_params(), i)
                &&& config == Some(ranges[i].at_rate(opus_stream_params().sample_rate))
            }
    } else {
        config == default
    }
}

/// Chooses the configuration of a stream that plays. There is none where the device has
/// no default and nothing else fits.
pub fn playing_config(
    ranges: &Vec<ConfigRange>,
    default: Option<SupportedConfig>,
) -> (config: Option<SupportedConfig>)
    ensures
        chosen_config(ranges@, default, config),
{
    let params: StreamParams = opus_params();
    match select_config(ranges, &params) {
        Some(config) => Some(config),
        None => default,
    }
}

/// Why no stream can record.
#[derive(Debug, Clone, Copy, PartialEq, Eq, Structural)]
pub enum RecordingError {
    /// The device has no default, and nothing else fits.
    NoConfig,
    /// The device's default has another number of channels.
    WrongChannelCount(u16),
}

/// Chooses the configuration of a stream that records, which must have one channel.
pub fn recording_config(
    ranges: &Vec<ConfigRange>,
    default: Option<SupportedConfig>,
) -> (result: Result<SupportedConfig, RecordingError>)
    ensures
        exists|config: Option<SupportedConfig>|
            {
                &&& #[trigger] chosen_config(ranges@, default, config)
                &&& match config {
                    None => result == Err::<SupportedConfig, RecordingError>(
                        RecordingError::NoConfig,
                    ),
                    Some(config) => if config.channels == 1 {
                        result == Ok::<SupportedConfig, RecordingError>(config)
                    } else {
                        result == Err::<SupportedConfig, RecordingError>(
                            RecordingError::WrongChannelCount(config.channels),
                        )
                    },
                }
            },
{
    match playing_config(ranges, default) {
        None => Err(RecordingError::NoConfig),
        Some(config) => if config.channels == 1 {
            Ok(config)
        } else {
            Err(RecordingError::WrongChannelCount(config.channels))
        },
    }
}

/// Decides whether a recording callback has fallen behind: not all of its samples could be
/// handed on, the count being given in frames of all channels.
pub fn fell_behind(pushed_frames: usize, channel_count: usize, len: usize) -> (behind: bool)
    requires
        pushed_frames * channel_count <= usize::MAX,
    ensures
        behind == (pushed_frames * channel_count < len),
{
    pushed_frames * channel_count < len
}

/// Returns how many decoded samples could not be handed on, if any.
pub fn decoder_shortfall(len: usize, pushed: usize) -> (missing: Option<usize>)
    ensures
        missing == if pushed < len {
            Some((len - pushed) as usize)
        } else {
            None
        },
{
    if pushed < len {
        Some(len - pushed)
    } else {
        None
    }
}

/// What came of offering a frame to the queue.
#[derive(Debug)]
pub enum Offered {
    /// The frame is in the queue.
    Sent,
    /// The queue is full. Holds the frame.
    Full(OutboundAudio),
    /// The queue is closed. Holds the frame.
    Closed(OutboundAudio),
}

/// `async_channel::Sender::try_send`: puts a frame into the queue. Where the queue is full
/// or closed it gives the frame back.
#[verifier::external_body]
pub(crate) fn try_send(sender: &async_channel::Sender<OutboundAudio>, frame: OutboundAudio) -> (outcome:
    Offered)
    ensures
        outcome matches Offered::Full(returned) ==> returned == frame,
        outcome matches Offered::Closed(returned) ==> returned == frame,
{
    match sender.try_send(frame) {
        Ok(()) => Offered::Sent,
        Err(async_channel::TrySendError::Full(frame)) => Offered::Full(frame),
        Err(async_channel::TrySendError::Closed(frame)) => Offered::Closed(frame),
    }
}

/// Whether audio was offered to the queue of a sender, and the queue has answered so.
pub closed spec fn offered_to(
    sender: async_channel::Sender<OutboundAudio>,
    audio: OutboundAudio,
    outcome: Offered,
) -> bool {
    call_ensures(try_send, (&sender, audio), outcome)
}

/// What is offered is put to the queue itself, by a call on the sender with that audio. A queue
/// that does not take it gives it back.
pub(crate) proof fn offered_is_answered(
    sender: async_channel::Sender<OutboundAudio>,
    audio: OutboundAudio,
    outcome: Offered,
)
    ensures
        offered_to(sender, audio, outcome) <==> call_ensures(try_send, (&sender, audio), outcome),
        offered_to(sender, audio, outcome) ==> match outcome {
            Offered::Sent => true,
            Offered::Full(returned) => returned == audio,
            Offered::Closed(returned) => returned == audio,
        },
{
}

/// Whether audio that holds what the codec has written was offered to the queue of a sender
/// with the outcome.
pub open spec fn offers_code(
    sender: async_channel::Sender<OutboundAudio>,
    code: Seq<u8>,
    sample_count: u32,
    outcome: Offered,
) -> bool {
    exists|audio: OutboundAudio|
        {
            &&& #[trigger] offered_to(sender, audio, outcome)
            &&& holds_code(audio, code, sample_count)
        }
}

/// Decides whether the rest of what was read is framed after a frame was offered to the
/// queue, and whether a warning is given that the frame is lost.
pub fn after_try_send(outcome: &Offered) -> (decision: (Flow, bool))
    ensures
        decision.0 == if outcome is Closed {
            Flow::Break
        } else {
            Flow::Continue
        },
        decision.1 == (outcome is Full),
{
    match outcome {
        Offered::Sent => (Flow::Continue, false),
        Offered::Full(_) => (Flow::Continue, true),
        Offered::Closed(_) => (Flow::Break, false),
    }
}

/// Collects samples into frames of 20 ms for an Opus encoder.
pub struct OpusFramer<E> {
    pub framer: OpusEncoder<E>,
}

impl<E> OpusFramer<E> {
    /// Frames have 960 samples, and the framing is in order.
    pub open spec fn wf(self) -> bool {
        &&& self.framer.wf()
        &&& self.framer.nominal_len() == SAMPLES_PER_FRAME
    }

    /// Makes the framing for an encoder.
    pub fn new(encoder: E) -> (framer: Self)
        ensures
            framer.wf(),
            framer.framer.codec() == encoder,
            framer.framer.pending() == Seq::<u32>::empty(),
            framer.framer.output() == Seq::new(SAMPLES_PER_FRAME as nat, |i: int| 0u8),
    {
        OpusFramer { framer: OpusEncoder::new(opus_params(), encoder) }
    }

    /// What stays the same while samples are collected.
    pub open spec fn same_encoder(self, other: Self) -> bool {
        &&& self.framer.codec() == other.framer.codec()
        &&& self.framer.output() == other.framer.output()
    }

    /// Adds a sample. If it fills the frame up, returns the frame and its sample count.
    pub fn push_sample(&mut self, sample: u32) -> (frame: Option<(Vec<u32>, u32)>)
        requires
            old(self).wf(),
        ensures
            final(self).wf(),
            final(self).same_encoder(*old(self)),
            match frame {
                Some((samples, sample_count)) => {
                    &&& old(self).framer.pending().len() + 1 == SAMPLES_PER_FRAME
                    &&& samples@ == old(self).framer.pending().push(sample)
                    &&& sample_count == SAMPLES_PER_FRAME
                    &&& final(self).framer.pending() == Seq::<u32>::empty()
                },
                None => {
                    &&& old(self).framer.pending().len() + 1 < SAMPLES_PER_FRAME
                    &&& final(self).framer.pending() == old(self).framer.pending().push(sample)
                },
            },
    {
        self.framer.push_sample(sample)
    }

    /// Adds the samples from position `from` on, up to the one that fills a frame up. Returns
    /// the frame, if there is one, and the position of the first sample that was not added.
    pub fn push_until_frame(&mut self, samples: &[u32], from: usize) -> (pushed: (
        Option<(Vec<u32>, u32)>,
        usize,
    ))
        requires
            old(self).wf(),
            from <= samples@.len(),
        ensures
            final(self).wf(),
            final(self).same_encoder(*old(self)),
            frame_drawn(
                old(self).framer.pending(),
                samples@.skip(from as int),
                SAMPLES_PER_FRAME as nat,
                pushed.0,
                final(self).framer.pending(),
            ),
            pushed.1 == from + drawn_len(
                old(self).framer.pending(),
                samples@.skip(from as int),
                SAMPLES_PER_FRAME as nat,
            ),
    {
        self.framer.push_slice(samples, from)
    }
}

/// Reads what a device has recorded, and hands it to a queue as encoded frames.
pub struct Recorder<E> {
    pub sender: async_channel::Sender<OutboundAudio>,
    pub framer: OpusFramer<E>,
}

impl<E> Recorder<E> {
    /// Returns how many samples to read in a turn, given how many there are: none, or at
    /// most those of a frame.
    pub fn turn_len(available: usize) -> (len: Option<usize>)
        ensures
            len == if available == 0 {
                None
            } else if available < SAMPLES_PER_FRAME {
                Some(available)
            } else {
                Some(SAMPLES_PER_FRAME)
            },
    {
        let len: usize = if available < SAMPLES_PER_FRAME {
            available
        } else {
            SAMPLES_PER_FRAME
        };
        if len == 0 {
            None
        } else {
            Some(len)
        }
    }

    /// Has the codec encode a frame of `sample_count` samples, and makes what is sent of it.
    pub fn finish_audio<F: Fn(E, Vec<u32>) -> (E, Vec<u8>)>(
        &mut self,
        frame: Vec<u32>,
        sample_count: u32,
        encode: &F,
    ) -> (audio: OutboundAudio)
        requires
            old(self).framer.wf(),
            can_encode(*encode, SAMPLES_PER_FRAME),
        ensures
            final(self).sender == old(self).sender,
            exists|code: Vec<u8>|
                {
                    &&& #[trigger] old(self).framer.framer.coded(
                        *encode,
                        frame,
                        final(self).framer.framer,
                        code,
                    )
                    &&& holds_code(audio, code@, sample_count)
                },
    {
        let payload: Bytes = self.framer.framer.encode_frame(frame, encode);
        let ghost code = choose|code: Vec<u8>|
            {
                &&& #[trigger] old(self).framer.framer.coded(*encode, frame, self.framer.framer, code)
                &&& bytes_contents(payload) == code@
            };
        let audio: OutboundAudio = OutboundAudio::Opus { payload, sample_count };
        assert(holds_code(audio, code@, sample_count));
        audio
    }

    /// Has the codec encode a frame of `sample_count` samples, and offers it to the queue. Where
    /// the queue does not take it, what was to be sent comes back.
    pub fn publish<F: Fn(E, Vec<u32>) -> (E, Vec<u8>)>(
        &mut self,
        frame: Vec<u32>,
        sample_count: u32,
        encode: &F,
    ) -> (outcome: Offered)
        requires
            old(self).framer.wf(),
            can_encode(*encode, SAMPLES_PER_FRAME),
        ensures
            final(self).sender == old(self).sender,
            exists|code: Vec<u8>|
                {
                    &&& #[trigger] old(self).framer.framer.coded(
                        *encode,
                        frame,
                        final(self).framer.framer,
                        code,
                    )
                    &&& offers_code(old(self).sender, code@, sample_count, outcome)
                    &&& comes_back(outcome, code@, sample_count)
                },
    {
        let audio: OutboundAudio = self.finish_audio(frame, sample_count, encode);
        let ghost handed = audio;
        let outcome: Offered = try_send(&self.sender, audio);
        assert(offered_to(old(self).sender, handed, outcome));
        outcome
    }

    /// Whether a turn on what was read has led to `after`: the first `used` samples were added,
    /// the codec has encoded the frames that they fill up, and offering these to the queue has
    /// come to the outcomes. All samples are used unless the queue is closed: then the rest of
    /// them is left.
    pub open spec fn turns<F: Fn(E, Vec<u32>) -> (E, Vec<u8>)>(
        self,
        encode: F,
        samples: Seq<u32>,
        used: int,
        frames: Seq<Vec<u32>>,
        codes: Seq<Vec<u8>>,
        outcomes: Seq<Offered>,
        after: Self,
    ) -> bool {
        &&& 0 <= used <= samples.len()
        &&& framed(
            self.framer.framer.pending() + samples.take(used),
            SAMPLES_PER_FRAME as nat,
            frames,
            after.framer.framer.pending(),
        )
        &&& all_encoded(
            encode,
            self.framer.framer.codec(),
            frames,
            codes,
            after.framer.framer.codec(),
        )
        &&& outcomes.len() == frames.len()
        &&& codes.len() == frames.len()
        &&& forall|i: int|
            0 <= i < outcomes.len() ==> offers_code(
                self.sender,
                codes[i]@,
                SAMPLES_PER_FRAME as u32,
                #[trigger] outcomes[i],
            )
        &&& forall|i: int|
            0 <= i < outcomes.len() ==> comes_back(
                #[trigger] outcomes[i],
                codes[i]@,
                SAMPLES_PER_FRAME as u32,
            )
        &&& forall|i: int| 0 <= i < outcomes.len() - 1 ==> !(#[trigger] outcomes[i] is Closed)
        &&& if outcomes.len() > 0 && outcomes.last() is Closed {
            after.framer.framer.pending() == Seq::<u32>::empty()
        } else {
            used == samples.len()
        }
    }

    /// Runs a turn on what was read: has the codec encode each frame that the samples fill up,
    /// and offers it to the queue. Returns what came of each frame. Once the queue is closed,
    /// the rest of what was read is left.
    pub fn turn<F: Fn(E, Vec<u32>) -> (E, Vec<u8>)>(&mut self, samples: &[u32], encode: &F) -> (
        outcomes: Vec<Offered>)
        requires
            old(self).framer.wf(),
            can_encode(*encode, SAMPLES_PER_FRAME),
        ensures
            final(self).sender == old(self).sender,
            final(self).framer.wf(),
            exists|used: int, frames: Seq<Vec<u32>>, codes: Seq<Vec<u8>>| #[trigger]
                old(self).turns(
                    *encode,
                    samples@,
                    used,
                    frames,
                    codes,
                    outcomes@,
                    *final(self),
                ),
    {
        let ghost len = SAMPLES_PER_FRAME as nat;
        let ghost mut frames: Seq<Vec<u32>> = Seq::empty();
        let ghost mut codes: Seq<Vec<u8>> = Seq::empty();
        let ghost pending = self.framer.framer.pending();
        let mut outcomes: Vec<Offered> = Vec::new();
        let mut next: usize = 0;
        proof {
            encoded_nothing(*encode, self.framer.framer.codec());
            framed_nothing(pending, len);
            assert(pending + samples@.take(0) =~= pending);
        }
        while next < samples.len()
            invariant
                next <= samples@.len(),
                self.sender == old(self).sender,
                self.framer.wf(),
                len == SAMPLES_PER_FRAME,
                pending == old(self).framer.framer.pending(),
                can_encode(*encode, SAMPLES_PER_FRAME),
                framed(
                    pending + samples@.take(next as int),
                    len,
                    frames,
                    self.framer.framer.pending(),
                ),
                all_encoded(
                    *encode,
                    old(self).framer.framer.codec(),
                    frames,
                    codes,
                    self.framer.framer.codec(),
                ),
                outcomes@.len() == frames.len(),
                codes.len() == frames.len(),
                forall|i: int|
                    0 <= i < outcomes@.len() ==> offers_code(
                        old(self).sender,
                        codes[i]@,
                        SAMPLES_PER_FRAME as u32,
                        #[trigger] outcomes@[i],
                    ),
                forall|i: int|
                    0 <= i < outcomes@.len() ==> comes_back(
                        #[trigger] outcomes@[i],
                        codes[i]@,
                        SAMPLES_PER_FRAME as u32,
                    ),
                forall|i: int|
                    0 <= i < outcomes@.len() ==> !(#[trigger] outcomes@[i] is Closed),
            decreases samples@.len() - next,
        {
            let ghost before = self.framer.framer;
            let ghost done = pending + samples@.take(next as int);
            let ghost left = samples@.skip(next as int);
            let (drawn, position) = self.framer.push_until_frame(samples, next);
            let ghost after = self.framer.framer;
            proof {
                framed_draw(done, len, frames, before.pending(), left, drawn, after.pending());
                let taken = drawn_len(before.pending(), left, len) as int;
                assert(done + left.take(taken) =~= pending + samples@.take(position as int));
                assert(done + left =~= pending + samples@.take(samples@.len() as int));
            }
            next = position;
            match drawn {
                Some((frame, sample_count)) => {
                    let ghost given = frame;
                    let outcome: Offered = self.publish(frame, sample_count, encode);
                    let (flow, _) = after_try_send(&outcome);
                    proof {
                        let code = choose|code: Vec<u8>|
                            {
                                &&& #[trigger] after.coded(
                                    *encode,
                                    given,
                                    self.framer.framer,
                                    code,
                                )
                                &&& offers_code(old(self).sender, code@, sample_count, outcome)
                                &&& comes_back(outcome, code@, sample_count)
                            };
                        encoded_push(
                            *encode,
                            old(self).framer.framer.codec(),
                            frames,
                            codes,
                            after.codec(),
                            given,
                            code,
                            self.framer.framer.codec(),
                        );
                        frames = frames.push(given);
                        codes = codes.push(code);
                    }
                    outcomes.push(outcome);
                    if flow == Flow::Break {
                        assert(old(self).turns(
                            *encode,
                            samples@,
                            next as int,
                            frames,
                            codes,
                            outcomes@,
                            *self,
                        ));
                        return outcomes;
                    }
                },
                None => {},
            }
        }
        assert(old(self).turns(
            *encode,
            samples@,
            next as int,
            frames,
            codes,
            outcomes@,
            *self,
        ));
        outcomes
    }
}

/// Whether what the queue has not taken is what the codec has written.
pub open spec fn comes_back(outcome: Offered, code: Seq<u8>, sample_count: u32) -> bool {
    &&& outcome matches Offered::Full(audio) ==> holds_code(audio, code, sample_count)
    &&& outcome matches Offered::Closed(audio) ==> holds_code(audio, code, sample_count)
}

/// Recording and playing use the best range with one channel at 48 kHz, the last one that has
/// it, and at that rate. Where there is none they use what the device does without being asked.
pub proof fn plain_streams_have_one_channel(
    ranges: Seq<ConfigRange>,
    default: Option<SupportedConfig>,
    config: Option<SupportedConfig>,
    at: int,
)
    requires
        chosen_config(ranges, default, config),
    ensures
        0 <= at < ranges.len() && ranges[at].channels == 1 && ranges[at].min_sample_rate.0 <= 48_000
            <= ranges[at].max_sample_rate.0 && (forall|j: int|
            at < j < ranges.len() ==> !((#[trigger] ranges[j]).channels == 1
                && ranges[j].min_sample_rate.0 <= 48_000 <= ranges[j].max_sample_rate.0)) ==> (
        config matches Some(chosen) && chosen.channels == 1 && chosen.sample_rate.0 == 48_000
            && chosen.sample_format == ranges[at].sample_format),
        (forall|j: int|
            0 <= j < ranges.len() ==> !((#[trigger] ranges[j]).channels == 1
                && ranges[j].min_sample_rate.0 <= 48_000 <= ranges[j].max_sample_rate.0)) ==> config
            == default,
{
    let params = opus_stream_params();
    assert(params.channel_count == 1 && params.sample_rate.0 == 48_000);
    if exists|i: int| last_offer(ranges, params, i) {
        let i = choose|i: int|
            {
                &&& #[trigger] last_offer(ranges, params, i)
                &&& config == Some(ranges[i].at_rate(params.sample_rate))
            };
        assert(ranges[i].offers(params));
        if 0 <= at < ranges.len() && at < i {
            assert(ranges[i].channels == 1);
        }
        if 0 <= at < ranges.len() && i < at {
            assert(!ranges[at].offers(params));
        }
    } else if 0 <= at < ranges.len() && ranges[at].offers(params) && (forall|j: int|
        at < j < ranges.len() ==> !((#[trigger] ranges[j]).channels == 1
            && ranges[j].min_sample_rate.0 <= 48_000 <= ranges[j].max_sample_rate.0)) {
        assert(last_offer(ranges, params, at));
    }
}

/// What is offered of a frame has the bytes that the codec has written and the count of the
/// frame's samples, and is put to the queue of the sender: whatever the outcome is, it is the
/// queue's answer to that.
pub proof fn codes_are_offered(
    sender: async_channel::Sender<OutboundAudio>,
    code: Seq<u8>,
    sample_count: u32,
    outcome: Offered,
)
    requires
        offers_code(sender, code, sample_count, outcome),
    ensures
        exists|payload: Bytes|
            {
                &&& #[trigger] offered_to(
                    sender,
                    OutboundAudio::Opus { payload, sample_count },
                    outcome,
                )
                &&& bytes_contents(payload) == code
            },
{
    let audio = choose|audio: OutboundAudio|
        {
            &&& #[trigger] offered_to(sender, audio, outcome)
            &&& holds_code(audio, code, sample_count)
        };
    match audio {
        OutboundAudio::Opus { payload, sample_count: count } => {
            assert(offered_to(sender, OutboundAudio::Opus { payload, sample_count }, outcome));
        },
    }
}

/// A turn offers every frame of 960 samples that what was read fills up to the queue, each as the
/// codec has encoded it, in order. Only a closed queue ends it before all samples are used, at
/// the frame that found it closed.
pub proof fn turns_offer_every_frame<E, F: Fn(E, Vec<u32>) -> (E, Vec<u8>)>(
    before: Recorder<E>,
    encode: F,
    samples: Seq<u32>,
    used: int,
    frames: Seq<Vec<u32>>,
    codes: Seq<Vec<u8>>,
    outcomes: Seq<Offered>,
    after: Recorder<E>,
)
    requires
        before.turns(encode, samples, used, frames, codes, outcomes, after),
    ensures
        0 <= used <= samples.len(),
        joined(frames) + after.framer.framer.pending() == before.framer.framer.pending()
            + samples.take(used),
        forall|j: int| 0 <= j < frames.len() ==> (#[trigger] frames[j])@.len() == 960,
        after.framer.framer.pending().len() < 960,
        all_encoded(
            encode,
            before.framer.framer.codec(),
            frames,
            codes,
            after.framer.framer.codec(),
        ),
        outcomes.len() == frames.len(),
        codes.len() == frames.len(),
        forall|i: int|
            0 <= i < outcomes.len() ==> offers_code(
                before.sender,
                codes[i]@,
                960,
                #[trigger] outcomes[i],
            ),
        forall|i: int| 0 <= i < outcomes.len() - 1 ==> !(#[trigger] outcomes[i] is Closed),
        outcomes.len() > 0 && outcomes.last() is Closed ==> after.framer.framer.pending().len()
            == 0,
        !(outcomes.len() > 0 && outcomes.last() is Closed) ==> used == samples.len(),
{
    framing_keeps_every_sample(
        before.framer.framer.pending() + samples.take(used),
        960,
        frames,
        after.framer.framer.pending(),
    );
}

/// What the queue does not take comes back whole: as the one code that was offered, with its
/// count of samples.
pub proof fn untaken_codes_come_back(
    outcome: Offered,
    payload: Bytes,
    count: u32,
    code: Seq<u8>,
    sample_count: u32,
)
    requires
        comes_back(outcome, code, sample_count),
        outcome == Offered::Full(OutboundAudio::Opus { payload, sample_count: count }) || outcome
            == Offered::Closed(OutboundAudio::Opus { payload, sample_count: count }),
    ensures
        bytes_contents(payload) == code,
        count == sample_count,
{
}

/// Collecting samples leaves the codec and its output as they are.
pub proof fn collecting_leaves_the_codec<E>(before: OpusFramer<E>, after: OpusFramer<E>)
    requires
        after.same_encoder(before),
    ensures
        after.framer.codec() == before.framer.codec(),
        after.framer.output() == before.framer.output(),
{
}

/// Framing goes on until the queue is closed, and warns exactly if the frame is lost because the
/// queue is full.
pub proof fn framing_goes_on_until_closed(outcome: &Offered, decision: (Flow, bool))
    requires
        call_ensures(after_try_send, (outcome,), decision),
    ensures
        decision.0 is Break <==> outcome is Closed,
        decision.1 <==> outcome is Full,
{
}

/// What records has one channel, or it does not record: a range with one channel at 48 kHz is
/// used if there is one, else the device's default, and that only if it has one channel.
pub proof fn recordings_have_one_channel(
    ranges: &Vec<ConfigRange>,
    default: Option<SupportedConfig>,
    result: Result<SupportedConfig, RecordingError>,
    at: int,
)
    requires
        call_ensures(recording_config, (ranges, default), result),
    ensures
        result matches Ok(config) ==> config.channels == 1,
        0 <= at < ranges@.len() && ranges@[at].channels == 1 && ranges@[at].min_sample_rate.0
            <= 48_000 <= ranges@[at].max_sample_rate.0 ==> (result matches Ok(config)
            && config.sample_rate.0 == 48_000),
        (forall|j: int|
            0 <= j < ranges@.len() ==> !((#[trigger] ranges@[j]).channels == 1
                && ranges@[j].min_sample_rate.0 <= 48_000 <= ranges@[j].max_sample_rate.0)) ==> {
            &&& default is None ==> result == Err::<SupportedConfig, RecordingError>(
                RecordingError::NoConfig,
            )
            &&& default matches Some(config) ==> if config.channels == 1 {
                result == Ok::<SupportedConfig, RecordingError>(config)
            } else {
                result == Err::<SupportedConfig, RecordingError>(
                    RecordingError::WrongChannelCount(config.channels),
                )
            }
        },
{
    let config = choose|config: Option<SupportedConfig>|
        {
            &&& #[trigger] chosen_config(ranges@, default, config)
            &&& match config {
                None => result == Err::<SupportedConfig, RecordingError>(RecordingError::NoConfig),
                Some(config) => if config.channels == 1 {
                    result == Ok::<SupportedConfig, RecordingError>(config)
                } else {
                    result == Err::<SupportedConfig, RecordingError>(
                        RecordingError::WrongChannelCount(config.channels),
                    )
                },
            }
        };
    plain_streams_have_one_channel(ranges@, default, config, at);
    if 0 <= at < ranges@.len() && ranges@[at].offers(opus_stream_params()) {
        last_offer_exists(ranges@, at);
    }
}

proof fn last_offer_exists(ranges: Seq<ConfigRange>, at: int)
    requires
        0 <= at < ranges.len(),
        ranges[at].offers(opus_stream_params()),
    ensures
        exists|i: int| last_offer(ranges, opus_stream_params(), i),
    decreases ranges.len() - at,
{
    if exists|j: int| at < j < ranges.len() && (#[trigger] ranges[j]).offers(opus_stream_params()) {
        let j = choose|j: int|
            at < j < ranges.len() && (#[trigger] ranges[j]).offers(opus_stream_params());
        last_offer_exists(ranges, j);
    } else {
        assert(last_offer(ranges, opus_stream_params(), at));
    }
}

} // verus!
