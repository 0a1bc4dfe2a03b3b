//! What recording and playing share: the frames that are recorded go to every track that
//! was taken from the recording.

use bytes::Bytes;
use tokio::sync::broadcast;
use vstd::prelude::*;

use crate::audio::{AudioConfig, OutboundAudio};
use crate::codec::opus::{frame_channel, send_frame, sent_is_answered, sent_to};
use crate::payload::bytes_contents;
use crate::rtc::{hears, kept_frames, Codec, MediaFrame, MediaTrack, OpusChannels, TrackKind};

verus! {

/// The frames that a track keeps for receivers that fall behind.
pub const TRACK_CAPACITY: usize = 8;

/// Where local audio comes from.
#[derive(Debug, Clone, Copy, PartialEq, Eq, Structural)]
pub enum LocalAudioSource {
    Microphone,
}

/// `tokio::sync::broadcast::Sender::subscribe`: a receiver of the sender's channel, for what
/// is sent from now on. It panics only where there are more receivers than a quarter of the
/// address space.
#[verifier::external_body]
fn subscribe(sender: &broadcast::Sender<MediaFrame>) -> (receiver: broadcast::Receiver<MediaFrame>)
    ensures
        hears(receiver, *sender),
{
    sender.subscribe()
}

/// Whether a frame carries recorded audio, with nothing skipped before it.
pub open spec fn carries_audio(audio: OutboundAudio, frame: MediaFrame) -> bool {
    match audio {
        OutboundAudio::Opus { payload, sample_count } => {
            &&& bytes_contents(frame.payload) == bytes_contents(payload)
            &&& frame.sample_count == Some(sample_count)
            &&& frame.skipped_frames == None::<u32>
            &&& frame.skipped_samples == None::<u32>
        },
    }
}

/// Makes a frame of recorded audio.
pub fn media_frame(audio: OutboundAudio) -> (frame: MediaFrame)
    ensures
        carries_audio(audio, frame),
{
    match audio {
        OutboundAudio::Opus { payload, sample_count } => MediaFrame::encoded(payload, sample_count),
    }
}

/// Returns the frame that no track has received, given what came of sending it.
pub fn unheard_frame(result: Result<usize, MediaFrame>) -> (unheard: Option<MediaFrame>)
    ensures
        unheard == (match result {
            Ok(_) => None,
            Err(frame) => Some(frame),
        }),
{
    match result {
        Ok(_) => None,
        Err(frame) => Some(frame),
    }
}

/// The recording that tracks are taken from.
#[derive(Debug)]
pub struct AudioContext {
    pub config: AudioConfig,
    pub capture_sender: broadcast::Sender<MediaFrame>,
}

impl AudioContext {
    /// Makes a recording with the given devices, that no track was taken from yet.
    pub fn new(config: AudioConfig) -> (context: Self)
        ensures
            context.config == config,
            TRACK_CAPACITY <= kept_frames(context.capture_sender) < 2 * TRACK_CAPACITY,
    {
        let (capture_sender, _capture_receiver) = frame_channel(TRACK_CAPACITY);
        AudioContext { config, capture_sender }
    }

    /// Sends recorded audio to the tracks. If there is none, gives the frame back.
    pub fn forward(&self, audio: OutboundAudio) -> (unheard: Option<MediaFrame>)
        ensures
            unheard matches Some(frame) ==> carries_audio(audio, frame),
            exists|frame: MediaFrame, result: Result<usize, MediaFrame>|
                {
                    &&& #[trigger] sent_to(self.capture_sender, frame, result)
                    &&& carries_audio(audio, frame)
                    &&& unheard == (match result {
                        Ok(_) => None,
                        Err(returned) => Some(returned),
                    })
                },
    {
        let frame: MediaFrame = media_frame(audio);
        let ghost handed = frame;
        let result: Result<usize, MediaFrame> = send_frame(&self.capture_sender, frame);
        proof {
            sent_is_answered(self.capture_sender, handed, result);
        }
        assert(sent_to(self.capture_sender, handed, result));
        unheard_frame(result)
    }

    /// Takes a track from the recording: mono audio, from now on.
    pub fn get_track_from_capture(&self) -> (track: MediaTrack)
        ensures
            hears(track.receiver, self.capture_sender),
            track.track_codec == (Codec::Opus { channels: OpusChannels::Mono }),
            track.track_kind == TrackKind::Audio,
    {
        let receiver: broadcast::Receiver<MediaFrame> = subscribe(&self.capture_sender);
        MediaTrack::new(receiver, Codec::Opus { channels: OpusChannels::Mono }, TrackKind::Audio)
    }
}

/// A frame carries recorded audio exactly if it has its bytes and its count of samples and says
/// of nothing that it was skipped.
pub proof fn frames_carry_one_audio(payload: Bytes, sample_count: u32, frame: MediaFrame)
    ensures
        carries_audio(OutboundAudio::Opus { payload, sample_count }, frame) <==> bytes_contents(
            frame.payload,
        ) == bytes_contents(payload) && frame.sample_count == Some(sample_count)
            && frame.skipped_frames is None && frame.skipped_samples is None,
{
}

/// What is recorded goes out with its own bytes and count of samples, and comes back exactly if no
/// track has received it.
pub proof fn unheard_frames_come_back(
    payload: Bytes,
    sample_count: u32,
    frame: MediaFrame,
    receivers: usize,
    heard: Option<MediaFrame>,
    unheard: Option<MediaFrame>,
)
    requires
        call_ensures(media_frame, (OutboundAudio::Opus { payload, sample_count },), frame),
        call_ensures(unheard_frame, (Ok(receivers),), heard),
        call_ensures(unheard_frame, (Err(frame),), unheard),
    ensures
        heard is None,
        unheard matches Some(back) && bytes_contents(back.payload) == bytes_contents(payload)
            && back.sample_count == Some(sample_count) && back.skipped_frames is None
            && back.skipped_samples is None,
{
}

/// A track that is taken from a recording hears it, whenever it is taken, and carries mono audio.
pub proof fn taken_tracks_hear_the_recording(context: &AudioContext, track: MediaTrack)
    requires
        call_ensures(AudioContext::get_track_from_capture, (context,), track),
    ensures
        hears(track.receiver, context.capture_sender),
        track.track_kind == TrackKind::Audio,
        track.track_codec == (Codec::Opus { channels: OpusChannels::Mono }),
{
}

} // verus!
