use bytes::Bytes;
use callme::rtc::{
    handle_remote_track, is_late, skipped_before, Codec, MediaFrame, MediaTrack, NextId, OpusChannels, RecvOutcome,
    RtcConnection, TrackAction, TrackKind,
};
use tokio::sync::broadcast;

const MONO: Codec = Codec::Opus { channels: OpusChannels::Mono };
const STEREO: Codec = Codec::Opus { channels: OpusChannels::Stereo };

fn frame(byte: u8) -> MediaFrame {
    MediaFrame::encoded(Bytes::from(vec![byte]), 960)
}

#[test]
fn payload_types() {
    assert_eq!(MONO.rtp_payload_type(), 96);
    assert_eq!(STEREO.rtp_payload_type(), 97);
}

#[test]
fn payload_types_find_their_codec() {
    assert_eq!(Codec::try_from_rtp_payload_type(96), Some(MONO));
    assert_eq!(Codec::try_from_rtp_payload_type(97), Some(STEREO));
    assert_eq!(Codec::try_from_rtp_payload_type(0), None);
    assert_eq!(Codec::try_from_rtp_payload_type(95), None);
    assert_eq!(Codec::try_from_rtp_payload_type(98), None);
}

#[test]
fn codecs_are_audio_at_48_khz() {
    assert_eq!(MONO.sample_rate(), 48_000);
    assert_eq!(STEREO.sample_rate(), 48_000);
    assert_eq!(MONO.kind(), TrackKind::Audio);
    assert_eq!(OpusChannels::Mono.count(), 1);
    assert_eq!(OpusChannels::Stereo.count(), 2);
}

#[test]
fn ids_count_from_zero() {
    let mut ids = NextId::default();
    assert_eq!(ids.next(), 0);
    assert_eq!(ids.next(), 1);
    assert_eq!(ids.next(), 2);
}

#[test]
fn ids_wrap_around() {
    let mut ids = NextId { upcoming: u32::MAX };
    assert_eq!(ids.next(), u32::MAX);
    assert_eq!(ids.next(), 0);
}

#[test]
fn flows_of_both_directions_are_counted_apart() {
    let mut conn = RtcConnection::new();
    assert_eq!(conn.send_track(), 0);
    assert_eq!(conn.send_track(), 1);
    assert_eq!(conn.recv_track(), 0);
    assert_eq!(conn.send_track(), 2);
    assert_eq!(conn.recv_track(), 1);
}

#[test]
fn tracks_receive_what_is_sent() {
    let (sender, receiver) = broadcast::channel(4);
    let mut track = MediaTrack::new(receiver, STEREO, TrackKind::Audio);
    assert_eq!(track.codec(), STEREO);
    assert_eq!(track.kind(), TrackKind::Audio);
    assert!(matches!(track.try_recv(), RecvOutcome::Empty));
    sender.send(frame(7)).unwrap();
    match track.try_recv() {
        RecvOutcome::Frame(received) => {
            assert_eq!(&received.payload[..], &[7]);
            assert_eq!(received.sample_count, Some(960));
            assert_eq!(received.skipped_frames, None);
            assert_eq!(received.skipped_samples, None);
        }
        _ => panic!("no frame"),
    }
    drop(sender);
    assert!(matches!(track.try_recv(), RecvOutcome::Closed));
}

#[test]
fn tracks_that_fall_behind_are_told() {
    let (sender, receiver) = broadcast::channel(2);
    let mut track = MediaTrack::new(receiver, MONO, TrackKind::Audio);
    for byte in 0..5 {
        sender.send(frame(byte)).unwrap();
    }
    assert!(matches!(track.try_recv(), RecvOutcome::Lagged(3)));
    match track.try_recv() {
        RecvOutcome::Frame(received) => assert_eq!(&received.payload[..], &[3]),
        _ => panic!("no frame"),
    }
}

#[test]
fn cloned_tracks_receive_from_now_on() {
    let (sender, receiver) = broadcast::channel(4);
    let mut track = MediaTrack::new(receiver, STEREO, TrackKind::Audio);
    sender.send(frame(1)).unwrap();
    let mut other = track.clone();
    assert_eq!(other.codec(), STEREO);
    assert_eq!(other.kind(), TrackKind::Audio);
    assert!(matches!(other.try_recv(), RecvOutcome::Empty));
    sender.send(frame(2)).unwrap();
    match other.try_recv() {
        RecvOutcome::Frame(received) => assert_eq!(&received.payload[..], &[2]),
        _ => panic!("no frame"),
    }
    match track.try_recv() {
        RecvOutcome::Frame(received) => assert_eq!(&received.payload[..], &[1]),
        _ => panic!("no frame"),
    }
}

#[test]
fn remote_tracks_have_the_kind_of_their_codec() {
    let (_sender, receiver) = broadcast::channel(4);
    let track = MediaTrack::remote(receiver, MONO);
    assert_eq!(track.codec(), MONO);
    assert_eq!(track.kind(), TrackKind::Audio);
}

#[test]
fn cloned_frames_carry_the_same() {
    let frame = MediaFrame {
        payload: Bytes::from(vec![1, 2, 3]),
        sample_count: Some(4),
        skipped_frames: Some(5),
        skipped_samples: Some(6),
    };
    let copy = frame.clone();
    assert_eq!(copy.payload, frame.payload);
    assert_eq!(copy.sample_count, Some(4));
    assert_eq!(copy.skipped_frames, Some(5));
    assert_eq!(copy.skipped_samples, Some(6));
}

#[test]
fn missing_packets_are_counted() {
    assert_eq!(skipped_before(None, 7), None);
    assert_eq!(skipped_before(Some(7), 8), None);
    assert_eq!(skipped_before(Some(7), 10), Some(2));
    assert_eq!(skipped_before(Some(65_534), 1), Some(2));
    assert_eq!(skipped_before(Some(0), 32_767), Some(32_766));
    assert_eq!(skipped_before(Some(0), 32_768), None);
}

#[test]
fn late_packets_count_for_nothing() {
    assert!(!is_late(None, 7));
    assert!(!is_late(Some(7), 8));
    assert!(is_late(Some(7), 7));
    assert!(is_late(Some(7), 6));
    assert!(is_late(Some(1), 65_534));
    assert!(!is_late(Some(65_534), 1));
    assert_eq!(skipped_before(Some(7), 6), None);
}

#[test]
fn remote_audio_is_played_and_video_is_not() {
    assert_eq!(handle_remote_track(TrackKind::Audio), TrackAction::Play);
    assert_eq!(handle_remote_track(TrackKind::Video), TrackAction::Unsupported);
}
