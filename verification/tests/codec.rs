use bytes::Bytes;
use callme::audio::{opus_params, SampleRate, StreamParams};
use callme::codec::opus::{
    after_send, decode_step, DecodeStep, Flow, MediaTrackOpusDecoder, MediaTrackOpusEncoder,
    OpusEncoder, UnsupportedChannelCount,
};
use callme::ring::SampleRing;
use callme::rtc::{Codec, MediaFrame, MediaTrack, OpusChannels, RecvOutcome, TrackKind};
use tokio::sync::broadcast;

fn frame(byte: u8, skipped_frames: Option<u32>) -> MediaFrame {
    MediaFrame {
        payload: Bytes::from(vec![byte]),
        sample_count: Some(960),
        skipped_frames,
        skipped_samples: None,
    }
}

// Makes three samples of a payload, or one for a frame that is made up, and counts its calls.
fn decode(calls: u32, payload: Option<Bytes>) -> (u32, Result<Vec<u32>, u8>) {
    let result = match payload {
        None => Ok(vec![100 + calls]),
        Some(payload) if payload[0] == 255 => Err(payload[0]),
        Some(payload) => Ok(vec![payload[0] as u32; 3]),
    };
    (calls + 1, result)
}

// Encodes a frame as its first sample and the number of the call.
fn encode(calls: u8, frame: Vec<u32>) -> (u8, Vec<u8>) {
    (calls + 1, vec![frame[0] as u8, calls])
}

#[test]
fn frames_fill_up_sample_by_sample() {
    let mut encoder = OpusEncoder::new(opus_params(), ());
    for sample in 0..959 {
        assert_eq!(encoder.push_sample(sample), None);
    }
    let (samples, count) = encoder.push_sample(959).unwrap();
    assert_eq!(samples, (0..960).collect::<Vec<u32>>());
    assert_eq!(count, 960);
    assert_eq!(encoder.push_sample(1), None);
}

#[test]
fn stereo_frames_are_twice_as_long() {
    let params = StreamParams::new(SampleRate(48_000), 2);
    let mut encoder = OpusEncoder::new(params, ());
    let samples: Vec<u32> = (0..4000).collect();
    let frames = encoder.push_all(&samples);
    assert_eq!(frames.len(), 2);
    assert_eq!(frames[1], samples[1920..3840].to_vec());
}

#[test]
fn slices_give_all_frames_they_fill() {
    let mut encoder = OpusEncoder::new(opus_params(), ());
    let samples: Vec<u32> = (0..2000).collect();
    let frames = encoder.push_all(&samples[..1000]);
    assert_eq!(frames, vec![samples[..960].to_vec()]);
    let frames = encoder.push_all(&samples[1000..]);
    assert_eq!(frames, vec![samples[960..1920].to_vec()]);
}

#[test]
fn slices_are_read_up_to_a_frame() {
    let mut encoder = OpusEncoder::new(opus_params(), ());
    let samples: Vec<u32> = (0..2000).collect();
    let (frame, next) = encoder.push_slice(&samples, 0);
    assert_eq!(frame, Some((samples[..960].to_vec(), 960)));
    assert_eq!(next, 960);
    let (frame, next) = encoder.push_slice(&samples, next);
    assert_eq!(frame, Some((samples[960..1920].to_vec(), 960)));
    assert_eq!(next, 1920);
    let (frame, next) = encoder.push_slice(&samples, next);
    assert_eq!((frame, next), (None, 2000));
    let (frame, next) = encoder.push_slice(&samples, 0);
    assert_eq!(frame.unwrap().0[..81], [&samples[1920..], &samples[..1]].concat());
    assert_eq!(next, 880);
}

#[test]
fn rings_are_emptied_into_frames() {
    let mut encoder = OpusEncoder::new(opus_params(), ());
    let mut ring = SampleRing::new(3000);
    let samples: Vec<u32> = (0..1500).collect();
    ring.push_slice(&samples);
    assert_eq!(encoder.pop_from_consumer(&mut ring), Some((samples[..960].to_vec(), 960)));
    assert_eq!(ring.occupied_len(), 540);
    assert_eq!(encoder.pop_from_consumer(&mut ring), None);
    assert!(ring.is_empty());
    assert_eq!(encoder.push_from_consumer(&mut ring), None);
    ring.push_slice(&samples[..500]);
    let (frame, count) = encoder.push_from_consumer(&mut ring).unwrap();
    assert_eq!(count, 960);
    assert_eq!(frame[..540], samples[960..]);
    assert_eq!(frame[540..], samples[..420]);
    assert_eq!(ring.pop_all(), samples[420..500].to_vec());
}

#[test]
fn frames_are_encoded_in_turn() {
    let mut encoder = OpusEncoder::new(opus_params(), 0);
    assert_eq!(&encoder.encode_frame(vec![9; 960], &encode)[..], &[9, 0]);
    assert_eq!(&encoder.encode_frame(vec![8; 960], &encode)[..], &[8, 1]);
    let full = |calls: u8, _: Vec<u32>| (calls, vec![7; 960]);
    assert_eq!(&encoder.encode_frame(vec![8; 960], &full)[..], &[7; 960]);
    assert_eq!(&encoder.encode_frame(vec![6; 960], &encode)[..], &[6, 2]);
}

#[test]
fn encoded_tracks_have_the_layout_of_the_stream() {
    let (_, track) = MediaTrackOpusEncoder::new(4, opus_params(), ()).unwrap();
    assert_eq!(track.codec(), Codec::Opus { channels: OpusChannels::Mono });
    assert_eq!(track.kind(), TrackKind::Audio);
    let stereo = StreamParams::new(SampleRate(48_000), 2);
    let (_, track) = MediaTrackOpusEncoder::new(4, stereo, ()).unwrap();
    assert_eq!(track.codec(), Codec::Opus { channels: OpusChannels::Stereo });
}

#[test]
fn other_channel_counts_are_refused() {
    for count in [0, 3] {
        let params = StreamParams::new(SampleRate(48_000), count);
        let result = MediaTrackOpusEncoder::new(4, params, ());
        assert!(matches!(result, Err(UnsupportedChannelCount)));
    }
}

#[test]
fn published_frames_arrive_on_the_track() {
    let (mut source, mut track) = MediaTrackOpusEncoder::new(4, opus_params(), 0).unwrap();
    assert_eq!(source.tick(&[5; 500], &encode), Flow::Continue);
    assert!(matches!(track.try_recv(), RecvOutcome::Empty));
    assert_eq!(source.tick(&[6; 1500], &encode), Flow::Continue);
    for expected in [[5, 0], [6, 1]] {
        match track.try_recv() {
            RecvOutcome::Frame(received) => {
                assert_eq!(&received.payload[..], &expected);
                assert_eq!(received.sample_count, Some(960));
                assert_eq!(received.skipped_frames, None);
            }
            _ => panic!("no frame"),
        }
    }
}

#[test]
fn publishing_without_a_track_stops_the_encoder() {
    let (mut source, track) = MediaTrackOpusEncoder::new(4, opus_params(), 0).unwrap();
    drop(track);
    let sent = source.publish(vec![3; 960], 960, &encode);
    match &sent {
        Err(frame) => {
            assert_eq!(&frame.payload[..], &[3, 0]);
            assert_eq!(frame.sample_count, Some(960));
        }
        Ok(_) => panic!("nobody can have received it"),
    }
    assert_eq!(after_send(sent), Flow::Break);
}

#[test]
fn ticks_end_where_nobody_listens() {
    let (mut source, track) = MediaTrackOpusEncoder::new(4, opus_params(), 0).unwrap();
    drop(track);
    assert_eq!(source.tick(&[1; 3000], &encode), Flow::Break);
    // Nothing is pending: what follows the first frame was not added.
    for _ in 0..959 {
        assert_eq!(source.encoder.push_sample(2), None);
    }
    let (frame, _) = source.encoder.push_sample(2).unwrap();
    assert_eq!(frame, vec![2; 960]);
    assert_eq!(&source.encoder.encode_frame(frame, &encode)[..], &[2, 1]);
}

#[test]
fn steps_follow_what_the_track_says() {
    match decode_step(RecvOutcome::Frame(frame(1, Some(2)))) {
        DecodeStep::Decode { conceal: 2, payload: Some(payload) } => {
            assert_eq!(&payload[..], &[1]);
        }
        _ => panic!("wrong step"),
    }
    assert!(matches!(
        decode_step(RecvOutcome::Frame(frame(1, None))),
        DecodeStep::Decode { conceal: 0, payload: Some(_) }
    ));
    assert!(matches!(
        decode_step(RecvOutcome::Lagged(7)),
        DecodeStep::Decode { conceal: 7, payload: None }
    ));
    assert!(matches!(decode_step(RecvOutcome::Empty), DecodeStep::Done));
    assert!(matches!(decode_step(RecvOutcome::Closed), DecodeStep::Stop));
}

#[test]
fn ticks_collect_what_arrived() {
    let (sender, receiver) = broadcast::channel(8);
    let codec = Codec::Opus { channels: OpusChannels::Mono };
    let track = MediaTrack::new(receiver, codec, TrackKind::Audio);
    let mut decoder = MediaTrackOpusDecoder::new(track, 0);
    assert_eq!(decoder.decode_room(), 960);
    assert_eq!(decoder.channels(), OpusChannels::Mono);
    sender.send(frame(1, None)).unwrap();
    sender.send(frame(2, Some(2))).unwrap();
    assert_eq!(decoder.collect(&decode), Ok(Some(8)));
    assert_eq!(*decoder.decoder(), 4);
    assert_eq!(decoder.decoded_len(), 8);
    assert_eq!(decoder.samples(5), &[1, 1, 1, 101, 102]);
    assert_eq!(decoder.samples(100), &[1, 1, 1, 101, 102, 2, 2, 2]);
    assert_eq!(decoder.collect(&decode), Ok(Some(0)));
    assert_eq!(decoder.decoded_len(), 0);
}

#[test]
fn ticks_fill_the_front_of_a_buffer() {
    let (sender, receiver) = broadcast::channel(8);
    let codec = Codec::Opus { channels: OpusChannels::Mono };
    let track = MediaTrack::new(receiver, codec, TrackKind::Audio);
    let mut decoder = MediaTrackOpusDecoder::new(track, 0);
    sender.send(frame(1, None)).unwrap();
    let mut out = vec![9; 5];
    assert_eq!(decoder.tick(&decode, &mut out), Ok(Some(3)));
    assert_eq!(out, vec![1, 1, 1, 9, 9]);
    sender.send(frame(2, None)).unwrap();
    sender.send(frame(3, None)).unwrap();
    let mut out = vec![9; 4];
    assert_eq!(decoder.tick(&decode, &mut out), Ok(Some(4)));
    assert_eq!(out, vec![2, 2, 2, 3]);
    assert_eq!(decoder.tick(&decode, &mut out), Ok(Some(0)));
    assert_eq!(out, vec![2, 2, 2, 3]);
}

#[test]
fn tracks_that_have_ended_leave_the_buffer_alone() {
    let (sender, receiver) = broadcast::channel(8);
    let codec = Codec::Opus { channels: OpusChannels::Mono };
    let track = MediaTrack::new(receiver, codec, TrackKind::Audio);
    let mut decoder = MediaTrackOpusDecoder::new(track, 0);
    sender.send(frame(1, None)).unwrap();
    drop(sender);
    let mut out = vec![9; 5];
    assert_eq!(decoder.tick(&decode, &mut out), Ok(None));
    assert_eq!(out, vec![9; 5]);
    assert_eq!(*decoder.decoder(), 1);
    assert_eq!(decoder.tick(&decode, &mut out), Ok(None));
}

#[test]
fn overwritten_frames_are_made_up() {
    let (sender, receiver) = broadcast::channel(2);
    let codec = Codec::Opus { channels: OpusChannels::Stereo };
    let track = MediaTrack::new(receiver, codec, TrackKind::Audio);
    let mut decoder = MediaTrackOpusDecoder::new(track, 0);
    assert_eq!(decoder.decode_room(), 1920);
    for byte in 1..=5 {
        sender.send(frame(byte, None)).unwrap();
    }
    assert_eq!(decoder.collect(&decode), Ok(Some(9)));
    assert_eq!(decoder.samples(100), &[100, 101, 102, 4, 4, 4, 5, 5, 5]);
}

#[test]
fn codec_errors_end_the_tick() {
    let (sender, receiver) = broadcast::channel(8);
    let codec = Codec::Opus { channels: OpusChannels::Mono };
    let track = MediaTrack::new(receiver, codec, TrackKind::Audio);
    let mut decoder = MediaTrackOpusDecoder::new(track, 0);
    sender.send(frame(255, Some(1))).unwrap();
    sender.send(frame(1, None)).unwrap();
    let mut out = vec![9; 5];
    assert_eq!(decoder.tick(&decode, &mut out), Err(255));
    assert_eq!(out, vec![9; 5]);
    assert_eq!(decoder.samples(100), &[100]);
    assert_eq!(decoder.tick(&decode, &mut out), Ok(Some(3)));
    assert_eq!(out, vec![1, 1, 1, 9, 9]);
}

#[test]
fn audio_passes_from_encoder_to_decoder() {
    let (mut source, track) = MediaTrackOpusEncoder::new(4, opus_params(), 0).unwrap();
    let mut decoder = MediaTrackOpusDecoder::new(track, 0);
    let mut total = 0;
    for turn in 1..4u32 {
        assert_eq!(source.tick(&vec![turn; 960], &encode), Flow::Continue);
        let mut out = vec![0; 960];
        let len = decoder.tick(&decode, &mut out).unwrap().unwrap();
        assert_eq!(&out[..len], &vec![turn; 3][..]);
        total += len;
    }
    assert_eq!(total, 9);
}
