use bytes::Bytes;
use callme::audio::play::{
    is_playable, playback_ring, Mixer, MixerStep, PlaybackState, TrackOffer, Xrun,
};
use callme::audio::{opus_params, SampleRate, StreamParams};
use callme::rtc::{Codec, MediaFrame, MediaTrack, OpusChannels, TrackKind};
use tokio::sync::broadcast;

fn same(samples: Vec<u32>) -> Vec<u32> {
    samples
}

fn plus(a: u32, b: u32) -> u32 {
    (f32::from_bits(a) + f32::from_bits(b)).to_bits()
}

fn track() -> (broadcast::Sender<MediaFrame>, MediaTrack) {
    let (sender, receiver) = broadcast::channel(8);
    let codec = Codec::Opus { channels: OpusChannels::Mono };
    (sender, MediaTrack::new(receiver, codec, TrackKind::Audio))
}

// Decodes a payload of two bytes: how many samples, and their value.
fn decode(codec: u8, payload: Option<Bytes>) -> (u8, Result<Vec<u32>, ()>) {
    let result = match payload {
        None => Ok(vec![]),
        Some(payload) if payload[0] == 0 => Err(()),
        Some(payload) => Ok(vec![(payload[1] as f32).to_bits(); payload[0] as usize]),
    };
    (codec, result)
}

fn keep((): (), frame: Vec<u32>) -> ((), Vec<u32>) {
    ((), frame)
}

#[test]
fn playback_rings_hold_four_frames() {
    let mut ring = playback_ring(&opus_params());
    assert_eq!(ring.push_slice(&[1; 5000]), 3840);
    let stereo = StreamParams::new(SampleRate(44_100), 2);
    assert_eq!(playback_ring(&stereo).push_slice(&[1; 10_000]), 7040);
}

#[test]
fn streams_without_samples_are_not_played() {
    assert!(is_playable(&StreamParams::new(SampleRate(44_100), 2)));
    assert!(!is_playable(&StreamParams::new(SampleRate(999), 2)));
    assert!(!is_playable(&StreamParams::new(SampleRate(44_100), 0)));
}

#[test]
fn playing_processes_whole_frames() {
    let mut ring = playback_ring(&opus_params());
    let mut state = PlaybackState::new(&opus_params(), 0);
    let samples: Vec<u32> = (0..1000).collect();
    ring.push_slice(&samples);
    let process = |count: u32, frame: Vec<u32>| {
        assert_eq!(frame.len(), 480);
        (count + 1, frame.iter().map(|sample| sample + 1).collect())
    };
    let resample = |samples: Vec<u32>| samples.iter().map(|sample| sample * 2).collect();
    let (out, warning, count) = state.callback(&mut ring, 0, &process, &resample, 900, 0);
    assert_eq!(count, 2);
    let expected: Vec<u32> = (0..900).map(|sample| (sample + 1) * 2).collect();
    assert_eq!(out, expected);
    assert_eq!(warning, None);
    assert!(ring.is_empty());
}

#[test]
fn playing_keeps_the_order_of_samples() {
    let mut ring = playback_ring(&opus_params());
    let mut state = PlaybackState::new(&opus_params(), 0);
    let samples: Vec<u32> = (0..4800).collect();
    let mut played = Vec::new();
    for chunk in samples.chunks(700) {
        ring.push_slice(chunk);
        let (out, _, ()) = state.callback(&mut ring, (), &keep, &same, 512, 0);
        played.extend(out);
    }
    for _ in 0..10 {
        played.extend(state.callback(&mut ring, (), &keep, &same, 512, 0).0);
    }
    assert_eq!(played, samples);
}

#[test]
fn missing_samples_are_warned_of_once_a_second() {
    let second = 1_000_000_000;
    let mut ring = playback_ring(&opus_params());
    let mut state = PlaybackState::new(&opus_params(), 5);
    ring.push_slice(&[1; 600]);
    let (out, warning, ()) = state.callback(&mut ring, (), &keep, &same, 500, second + 5);
    assert_eq!(out.len(), 480);
    assert_eq!(warning, None);
    let (out, warning, ()) = state.callback(&mut ring, (), &keep, &same, 500, second + 6);
    assert!(out.is_empty());
    let expected = Xrun { tick: 1, missing: 500, wanted: 500, buffered: 120, previous: 0 };
    assert_eq!(warning, Some(expected));
    let (_, warning, ()) = state.callback(&mut ring, (), &keep, &same, 500, second + 7);
    assert_eq!(warning, None);
    let (_, warning, ()) = state.callback(&mut ring, (), &keep, &same, 10, 2 * second + 7);
    let expected = Xrun { tick: 3, missing: 10, wanted: 10, buffered: 120, previous: 1 };
    assert_eq!(warning, Some(expected));
}

#[test]
fn a_mixer_without_tracks_plays_silence() {
    let mixer: Mixer<()> = Mixer::new();
    assert_eq!(mixer.mix(&plus), vec![0; 960]);
}

#[test]
fn mixers_add_up_what_tracks_give() {
    let mut mixer = Mixer::new();
    let (first, track_1) = track();
    let (second, track_2) = track();
    assert_eq!(mixer.look_for_tracks(TrackOffer::Track(track_1, 1)), MixerStep::Again);
    assert_eq!(mixer.look_for_tracks(TrackOffer::Track(track_2, 2)), MixerStep::Again);
    assert_eq!(mixer.look_for_tracks(TrackOffer::Empty), MixerStep::Mix);
    first.send(MediaFrame::encoded(Bytes::from(vec![4, 2]), 960)).unwrap();
    second.send(MediaFrame::encoded(Bytes::from(vec![2, 3]), 960)).unwrap();
    let mut ring = playback_ring(&opus_params());
    assert_eq!(mixer.turn(&mut ring, &decode, &plus), 0);
    let mix: Vec<f32> = ring.pop_all().into_iter().map(f32::from_bits).collect();
    assert_eq!(mix.len(), 960);
    assert_eq!(&mix[..5], &[5.0, 5.0, 2.0, 2.0, 0.0]);
    assert_eq!(mix[959], 0.0);
}

#[test]
fn tracks_that_end_or_fail_leave_the_mixer() {
    let mut mixer = Mixer::new();
    let (first, track_1) = track();
    let (second, track_2) = track();
    let (_third, track_3) = track();
    mixer.look_for_tracks(TrackOffer::Track(track_1, 1));
    mixer.look_for_tracks(TrackOffer::Track(track_2, 2));
    mixer.look_for_tracks(TrackOffer::Track(track_3, 3));
    drop(first);
    second.send(MediaFrame::encoded(Bytes::from(vec![0, 0]), 960)).unwrap();
    mixer.tick(&decode);
    assert_eq!(mixer.decoders.len(), 1);
    assert_eq!(*mixer.decoders[0].decoder(), 3);
}

#[test]
fn mixers_stop_when_no_track_can_come() {
    let mut mixer: Mixer<()> = Mixer::new();
    assert_eq!(mixer.look_for_tracks(TrackOffer::Disconnected), MixerStep::Stop);
}

#[test]
fn mixes_go_to_the_ring_as_far_as_they_fit() {
    let mut ring = playback_ring(&opus_params());
    let mixer: Mixer<()> = Mixer::new();
    for _ in 0..4 {
        assert_eq!(mixer.mix_into(&mut ring, &plus), 0);
    }
    assert_eq!(mixer.mix_into(&mut ring, &plus), 960);
    assert_eq!(ring.pop_up_to(100).len(), 100);
    assert_eq!(mixer.mix_into(&mut ring, &plus), 860);
    assert_eq!(ring.occupied_len(), 3840);
}
