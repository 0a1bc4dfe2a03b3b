//! Audio formats and the paths that samples take between a device and a track.

use bytes::Bytes;
use vstd::prelude::*;

use self::device::StreamConfig;

pub mod context;
pub mod debug;
pub mod device;
pub mod play;
pub mod processor;
pub mod record;

pub use self::device::{list_devices, AudioConfig, Devices};

verus! {

/// A sample rate in Hertz.
#[derive(Debug, Clone, Copy, PartialEq, Eq, Structural)]
pub struct SampleRate(pub u32);

/// The sample rate that audio is encoded at.
pub const SAMPLE_RATE: u32 = 48_000;

/// The time that the audio processor works on at once, in milliseconds.
pub const DURATION_10MS: u128 = 10;

/// The time that one encoded frame covers, in milliseconds.
pub const DURATION_20MS: u128 = 20;

/// The nanoseconds of a millisecond.
pub const NANOS_PER_MILLI: u128 = 1_000_000;

/// Returns how long a loop that runs every 20 ms pauses after a turn, in nanoseconds, given
/// how long the turn has taken.
pub fn pause_after_turn(elapsed_nanos: u128) -> (pause_nanos: u128)
    ensures
        pause_nanos == if elapsed_nanos <= DURATION_20MS * NANOS_PER_MILLI {
            DURATION_20MS * NANOS_PER_MILLI - elapsed_nanos
        } else {
            0
        },
{
    let turn: u128 = DURATION_20MS * NANOS_PER_MILLI;
    if elapsed_nanos <= turn {
        turn - elapsed_nanos
    } else {
        0
    }
}

/// The rate and the channels of a stream.
#[derive(Debug, Clone, Copy, PartialEq, Eq, Structural)]
pub struct StreamParams {
    pub sample_rate: SampleRate,
    pub channel_count: u16,
}

impl StreamParams {
    /// The samples of one channel in a time given in milliseconds.
    pub open spec fn samples_per_channel(self, millis: u128) -> nat {
        ((self.sample_rate.0 / 1000) * (millis as usize)) as nat
    }

    /// The samples of all channels in a time given in milliseconds.
    pub open spec fn samples_in_all(self, millis: u128) -> nat {
        self.samples_per_channel(millis) * self.channel_count as nat
    }

    /// Makes the parameters of a stream.
    pub fn new(sample_rate: SampleRate, channel_count: u16) -> (params: Self)
        ensures
            params.sample_rate == sample_rate,
            params.channel_count == channel_count,
    {
        StreamParams { sample_rate, channel_count }
    }

    /// Returns the samples of one channel in a time given in milliseconds.
    pub fn frame_duration_in_samples(&self, millis: u128) -> (samples: usize)
        requires
            self.samples_per_channel(millis) <= usize::MAX,
        ensures
            samples == self.samples_per_channel(millis),
    {
        (self.sample_rate.0 / 1000) as usize * #[verifier::truncate] (millis as usize)
    }

    /// Returns the samples of all channels in a time given in milliseconds.
    pub fn frame_buffer_size(&self, millis: u128) -> (samples: usize)
        requires
            self.samples_per_channel(millis) <= usize::MAX,
            self.samples_in_all(millis) <= usize::MAX,
        ensures
            samples == self.samples_in_all(millis),
    {
        self.frame_duration_in_samples(millis) * self.channel_count as usize
    }
}

impl From<StreamConfig> for StreamParams {
    fn from(value: StreamConfig) -> (params: Self) {
        StreamParams { sample_rate: value.sample_rate, channel_count: value.channels }
    }
}

impl vstd::std_specs::convert::FromSpecImpl<StreamConfig> for StreamParams {
    open spec fn obeys_from_spec() -> bool {
        true
    }

    open spec fn from_spec(value: StreamConfig) -> Self {
        StreamParams { sample_rate: value.sample_rate, channel_count: value.channels }
    }
}

/// Audio on its way out.
#[derive(Debug)]
pub enum OutboundAudio {
    Opus { payload: Bytes, sample_count: u32 },
}

/// Audio that has come in.
#[derive(Debug)]
pub enum InboundAudio {
    Opus { payload: Bytes, skipped_frames: Option<u32> },
}

/// The parameters of the streams that are encoded with Opus.
pub open spec fn opus_stream_params() -> StreamParams {
    StreamParams { sample_rate: SampleRate(SAMPLE_RATE), channel_count: 1 }
}

/// Returns the parameters of the streams that are encoded with Opus.
pub fn opus_params() -> (params: StreamParams)
    ensures
        params == opus_stream_params(),
        params.samples_per_channel(DURATION_10MS) == 480,
        params.samples_in_all(DURATION_10MS) == 480,
        params.samples_per_channel(DURATION_20MS) == 960,
        params.samples_in_all(DURATION_20MS) == 960,
{
    proof {
        opus_frame_lengths();
    }
    StreamParams::new(SampleRate(SAMPLE_RATE), 1)
}

/// The streams that are encoded with Opus have 480 samples in 10 ms, and 960 in the 20 ms
/// of a frame.
pub proof fn opus_frame_lengths()
    ensures
        opus_stream_params().samples_per_channel(DURATION_10MS) == 480,
        opus_stream_params().samples_in_all(DURATION_10MS) == 480,
        opus_stream_params().samples_per_channel(DURATION_20MS) == 960,
        opus_stream_params().samples_in_all(DURATION_20MS) == 960,
{
    assert(SAMPLE_RATE / 1000 == 48);
    assert(DURATION_10MS as usize == 10 && DURATION_20MS as usize == 20);
}

/// A second has as many samples of a channel as the rate says, counted in whole thousands; each
/// millisecond has a thousandth of them, and all channels together have as many times more as
/// there are channels.
pub proof fn samples_follow_the_rate(params: StreamParams, millis: u128)
    requires
        millis <= usize::MAX,
    ensures
        params.samples_per_channel(millis) == (params.sample_rate.0 as int / 1000) * millis,
        params.samples_in_all(millis) == params.samples_per_channel(millis) * params.channel_count,
        params.samples_per_channel(1) * 1000 <= params.sample_rate.0,
        params.sample_rate.0 < params.samples_per_channel(1) * 1000 + 1000,
{
    assert(millis as usize as int == millis as int);
    assert(1u128 as usize == 1);
}

/// The parameters of a stream are its rate and its channels, whatever its buffer is.
pub proof fn configurations_give_the_parameters(config: StreamConfig, params: StreamParams)
    requires
        params == <StreamParams as vstd::std_specs::convert::FromSpec<StreamConfig>>::from_spec(
            config,
        ),
    ensures
        params.sample_rate == config.sample_rate,
        params.channel_count == config.channels,
{
}

/// A turn and the pause after it take 20 ms together, and a turn that takes longer is followed by
/// the next one at once.
pub proof fn turns_take_20ms(elapsed_nanos: u128, pause_nanos: u128)
    requires
        call_ensures(pause_after_turn, (elapsed_nanos,), pause_nanos),
    ensures
        elapsed_nanos <= 20_000_000 ==> elapsed_nanos + pause_nanos == 20_000_000,
        elapsed_nanos > 20_000_000 ==> pause_nanos == 0,
{
}

} // verus!
