use bytes::Bytes;
use callme::audio::AudioConfig;
use callme::rtc::{Codec, MediaFrame, MediaTrack, OpusChannels, RecvOutcome, TrackKind};
use callme::web_audio::processor::{Direction, WebrtcProcessor};
use callme::web_audio::{
    audio_to_opus_track, context_devices, devices_of_kind, find_device, forward_buffer, interleave,
    next_step, push_buffer, Interleave, IteratorStep, MediaDevice, MediaDeviceKind, OpusIterator,
};
use tokio::sync::broadcast;

fn device(kind: MediaDeviceKind, label: &str, device_id: &str) -> MediaDevice {
    MediaDevice { kind, label: label.to_string(), device_id: device_id.to_string() }
}

fn devices() -> Vec<MediaDevice> {
    vec![
        device(MediaDeviceKind::AudioOutput, "pipewire", "out-0"),
        device(MediaDeviceKind::VideoInput, "camera", "video-0"),
        device(MediaDeviceKind::AudioInput, "Built-in mic", "in-0"),
        device(MediaDeviceKind::AudioInput, "Built-in line", "in-1"),
        device(MediaDeviceKind::AudioOutput, "Built-in speaker", "out-1"),
    ]
}

#[test]
fn web_devices_are_found_by_the_start_of_their_label() {
    let devices = devices();
    let find = |name, kind| find_device(&devices, Some(name), kind, false);
    assert_eq!(find("Built-in", MediaDeviceKind::AudioInput), Some("in-0".to_string()));
    assert_eq!(find("Built-in l", MediaDeviceKind::AudioInput), Some("in-1".to_string()));
    assert_eq!(find("Built-in", MediaDeviceKind::AudioOutput), Some("out-1".to_string()));
    assert_eq!(find("mic", MediaDeviceKind::AudioInput), None);
    assert_eq!(find("Built-in mic 2", MediaDeviceKind::AudioInput), None);
}

#[test]
fn web_devices_default_to_pipewire_on_linux() {
    let devices = devices();
    let find = |kind, on_linux| find_device(&devices, None, kind, on_linux);
    assert_eq!(find(MediaDeviceKind::AudioOutput, true), Some("out-0".to_string()));
    assert_eq!(find(MediaDeviceKind::AudioOutput, false), None);
    assert_eq!(find(MediaDeviceKind::AudioInput, true), None);
}

#[test]
fn contexts_are_opened_with_the_configured_devices() {
    let config = AudioConfig::from_environment(Some("Built-in l".to_string()), None);
    let chosen = context_devices(&devices(), &config, false);
    assert_eq!(chosen.sink_id, "");
    assert_eq!(chosen.source_id, Some("in-1".to_string()));
    let chosen = context_devices(&devices(), &config, true);
    assert_eq!(chosen.sink_id, "out-0");
}

#[test]
fn web_devices_are_listed_by_kind() {
    assert_eq!(devices_of_kind(&devices(), MediaDeviceKind::AudioInput), vec![2, 3]);
    assert_eq!(devices_of_kind(&devices(), MediaDeviceKind::AudioOutput), vec![0, 4]);
}

#[test]
fn nodes_are_encoded_in_mono_or_stereo() {
    let (_, track) = audio_to_opus_track(1, ());
    assert_eq!(track.codec(), Codec::Opus { channels: OpusChannels::Mono });
    for count in [0, 2, 6] {
        let (_, track) = audio_to_opus_track(count, ());
        assert_eq!(track.codec(), Codec::Opus { channels: OpusChannels::Stereo });
        assert_eq!(track.kind(), TrackKind::Audio);
    }
}

#[test]
fn channels_are_read_in_turns() {
    let mut reader = Interleave::new_from_buffer(&[1, 2, 3], Some(&[10, 20, 30]));
    assert_eq!(reader.next(), Some(1));
    assert_eq!(reader.next(), Some(20));
    assert_eq!(reader.next(), Some(3));
    assert_eq!(reader.next(), None);
    assert_eq!(interleave(&[1, 2, 3], Some(&[10, 20, 30])), vec![1, 20, 3]);
    assert_eq!(interleave(&[1, 2, 3], None), vec![1, 2, 3]);
    assert_eq!(interleave(&[1], Some(&[10, 20, 30])), vec![1, 20]);
    assert_eq!(interleave(&[], Some(&[10, 20, 30])), Vec::<u32>::new());
}

#[test]
fn buffers_fill_frames() {
    let (mut source, _track) = audio_to_opus_track(1, ());
    let samples: Vec<u32> = (0..1024).collect();
    let frames = push_buffer(&mut source, &samples, None);
    assert_eq!(frames, vec![samples[..960].to_vec()]);
    let (mut source, _track) = audio_to_opus_track(2, ());
    assert!(push_buffer(&mut source, &samples, Some(&samples)).is_empty());
    assert_eq!(push_buffer(&mut source, &samples, Some(&samples))[0].len(), 1920);
}

// Decodes a payload of two bytes: the first sample, and how many ascend from it.
fn decode((): (), payload: Option<Bytes>) -> ((), Result<Vec<u32>, &'static str>) {
    let payload = payload.unwrap();
    if payload[0] == 255 {
        return ((), Err("no code"));
    }
    let first = payload[0] as u32;
    ((), Ok((first..first + payload[1] as u32).collect()))
}

#[test]
fn buffers_are_encoded_and_sent() {
    let encode = |calls: u8, frame: Vec<u32>| (calls + 1, vec![frame[0] as u8, calls]);
    let (mut source, mut track) = audio_to_opus_track(1, 0);
    let results = forward_buffer(&mut source, &[4; 2000], None, &encode);
    assert!(matches!(results[..], [Ok(1), Ok(1)]));
    for expected in [[4, 0], [4, 1]] {
        match track.try_recv() {
            RecvOutcome::Frame(frame) => assert_eq!(&frame.payload[..], &expected),
            _ => panic!("no frame"),
        }
    }
    drop(track);
    let results = forward_buffer(&mut source, &[5; 2000], None, &encode);
    assert_eq!(results.len(), 2);
    assert!(matches!(&results[1], Err(frame) if frame.payload[..] == [5, 3]));
}

#[test]
fn iterators_pass_over_what_was_overwritten() {
    let frame = MediaFrame::encoded(Bytes::from(vec![1]), 960);
    assert!(matches!(next_step(RecvOutcome::Frame(frame)), IteratorStep::Decode { .. }));
    assert!(matches!(next_step(RecvOutcome::Lagged(3)), IteratorStep::Again));
    assert!(matches!(next_step(RecvOutcome::Empty), IteratorStep::Render));
    assert!(matches!(next_step(RecvOutcome::Closed), IteratorStep::End));
}

#[test]
fn iterators_render_128_samples_of_each_channel() {
    let (sender, receiver) = broadcast::channel(4);
    let codec = Codec::Opus { channels: OpusChannels::Stereo };
    let track = MediaTrack::new(receiver, codec, TrackKind::Audio);
    let mut iterator = OpusIterator::try_from_track(&track, ());
    assert_eq!(iterator.decode_room(), 1920);
    sender.send(MediaFrame::encoded(Bytes::from(vec![0, 150]), 960)).unwrap();
    sender.send(MediaFrame::encoded(Bytes::from(vec![150, 150]), 960)).unwrap();
    let channels = iterator.next(&decode).unwrap().unwrap();
    assert_eq!(channels.len(), 2);
    assert_eq!(channels[0], (0..128).map(|i| 2 * i).collect::<Vec<u32>>());
    assert_eq!(channels[1], (0..128).map(|i| 2 * i + 1).collect::<Vec<u32>>());
    let channels = iterator.render();
    assert_eq!(&channels[0][..23], &[256, 258, 260, 262, 264, 266, 268, 270, 272, 274, 276,
        278, 280, 282, 284, 286, 288, 290, 292, 294, 296, 298, 0]);
    assert_eq!(channels[1][21], 299);
    assert_eq!(channels[1][22..], [0; 106]);
    assert_eq!(iterator.render(), vec![vec![0; 128], vec![0; 128]]);
    drop(sender);
    assert!(iterator.next(&decode).is_none());
}

#[test]
fn codec_errors_end_the_block() {
    let (sender, receiver) = broadcast::channel(4);
    let codec = Codec::Opus { channels: OpusChannels::Mono };
    let track = MediaTrack::new(receiver, codec, TrackKind::Audio);
    let mut iterator = OpusIterator::try_from_track(&track, ());
    sender.send(MediaFrame::encoded(Bytes::from(vec![7, 1]), 960)).unwrap();
    sender.send(MediaFrame::encoded(Bytes::from(vec![255, 1]), 960)).unwrap();
    assert_eq!(iterator.next(&decode), Some(Err("no code")));
    let block = iterator.next(&decode).unwrap().unwrap();
    assert_eq!(block[0][..2], [7, 0]);
}

#[test]
fn mono_iterators_render_one_channel() {
    let (sender, receiver) = broadcast::channel(4);
    let codec = Codec::Opus { channels: OpusChannels::Mono };
    let track = MediaTrack::new(receiver, codec, TrackKind::Audio);
    let mut iterator = OpusIterator::try_from_track(&track, ());
    assert_eq!(iterator.decode_room(), 960);
    sender.send(MediaFrame::encoded(Bytes::from(vec![3, 130]), 960)).unwrap();
    let first = iterator.next(&decode).unwrap().unwrap();
    assert_eq!(first, vec![(3..131).collect::<Vec<u32>>()]);
    assert_eq!(iterator.render()[0][..3], [131, 132, 0]);
}

fn port(left: Vec<u32>, right: Vec<u32>) -> Vec<Vec<Vec<u32>>> {
    vec![vec![left], vec![right]]
}

#[test]
fn worklets_process_frames_of_480_samples_for_each_input() {
    let mut worklet = WebrtcProcessor::constructor(Direction::Capture);
    let work = |direction: Direction, frame: Vec<u32>| -> Vec<u32> {
        assert_eq!(direction, Direction::Capture);
        assert_eq!(frame.len(), 960);
        frame.iter().map(|sample| sample + 1).collect()
    };
    let inputs = port(vec![1; 500], vec![2; 500]);
    let mut outputs = port(vec![7; 128], vec![7; 128]);
    assert!(!worklet.process(&inputs, &mut outputs, &work));
    assert_eq!(outputs, port(vec![2; 128], vec![3; 128]));
    assert_eq!(worklet.unprocessed.len(), 40);
    assert_eq!(worklet.processed.len(), 704);
    let inputs = port(vec![], vec![]);
    for _ in 0..2 {
        worklet.process(&inputs, &mut outputs, &work);
        assert_eq!(outputs, port(vec![2; 128], vec![3; 128]));
    }
    assert_eq!(worklet.processed.len(), 192);
    worklet.process(&inputs, &mut outputs, &work);
    assert_eq!(outputs, port(vec![0; 128], vec![0; 128]));
    assert_eq!(worklet.processed.len(), 192);
}

#[test]
fn worklets_keep_a_sample_back() {
    let mut worklet = WebrtcProcessor::constructor(Direction::Render);
    worklet.processed = vec![1, 2, 3, 4];
    let same = |_: Direction, frame: Vec<u32>| -> Vec<u32> { frame };
    let nothing = port(vec![], vec![]);
    let mut outputs = port(vec![9, 9], vec![9, 9]);
    worklet.process(&nothing, &mut outputs, &same);
    assert_eq!(outputs, port(vec![0, 0], vec![0, 0]));
    worklet.processed.push(5);
    worklet.process(&nothing, &mut outputs, &same);
    assert_eq!(outputs, port(vec![1, 3], vec![2, 4]));
    assert_eq!(worklet.processed, vec![5]);
}
