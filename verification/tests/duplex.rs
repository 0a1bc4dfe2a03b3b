use bytes::Bytes;
use callme::audio::device::{
    ConfigRange, DeviceChoice, FindDeviceError, HostDevices, SampleFormat, SupportedConfig,
};
use callme::audio::{OutboundAudio, SampleRate};
use callme::codec::opus::Flow;
use callme::duplex::{
    after_try_send, decoder_shortfall, fell_behind, find_input_device, find_output_device,
    playing_config, recording_config, AudioConfig, InboundAudio, Offered, OpusFramer, Recorder,
    RecordingError,
};

fn host(names: &[&str]) -> HostDevices {
    HostDevices {
        names: Some(names.iter().map(|name| Some(name.to_string())).collect()),
        has_default: false,
    }
}

fn supported(channels: u16, rate: u32) -> SupportedConfig {
    SupportedConfig {
        channels,
        sample_rate: SampleRate(rate),
        sample_format: SampleFormat::F32,
    }
}

#[test]
fn plain_devices_are_found() {
    let devices = host(&["mic", "pipewire"]);
    assert!(matches!(
        find_input_device(&devices, None, true),
        Ok(DeviceChoice::Listed(1))
    ));
    assert!(matches!(
        find_output_device(&devices, Some("mic"), true),
        Ok(DeviceChoice::Listed(0))
    ));
}

#[test]
fn missing_plain_devices_are_told_apart() {
    match find_input_device(&host(&[]), None, true) {
        Err(FindDeviceError::NotFound(message)) => {
            assert_eq!(message, "could not find input audio device `default`")
        }
        _ => panic!("there is no device"),
    }
    match find_output_device(&host(&[]), Some("speaker"), true) {
        Err(FindDeviceError::NotFound(message)) => {
            assert_eq!(message, "could not find output audio device `speaker`")
        }
        _ => panic!("there is no device"),
    }
}

#[test]
fn recording_needs_one_channel() {
    let range = ConfigRange {
        channels: 1,
        min_sample_rate: SampleRate(8_000),
        max_sample_rate: SampleRate(96_000),
        sample_format: SampleFormat::F32,
    };
    let default = Some(supported(2, 44_100));
    assert_eq!(recording_config(&vec![range], default), Ok(supported(1, 48_000)));
    assert_eq!(recording_config(&vec![], default), Err(RecordingError::WrongChannelCount(2)));
    assert_eq!(recording_config(&vec![], None), Err(RecordingError::NoConfig));
    assert_eq!(recording_config(&vec![], Some(supported(1, 8_000))), Ok(supported(1, 8_000)));
    assert_eq!(playing_config(&vec![], default), default);
    assert_eq!(playing_config(&vec![range], default), Some(supported(1, 48_000)));
}

#[test]
fn falling_behind_is_noticed() {
    assert!(!fell_behind(480, 2, 960));
    assert!(fell_behind(479, 2, 960));
    assert_eq!(decoder_shortfall(960, 960), None);
    assert_eq!(decoder_shortfall(960, 950), Some(10));
}

#[test]
fn turns_read_at_most_a_frame() {
    assert_eq!(Recorder::<()>::turn_len(0), None);
    assert_eq!(Recorder::<()>::turn_len(5), Some(5));
    assert_eq!(Recorder::<()>::turn_len(5000), Some(960));
}

#[test]
fn framers_stop_at_a_frame() {
    let mut framer = OpusFramer::new(());
    let samples: Vec<u32> = (0..1500).collect();
    let (frame, next) = framer.push_until_frame(&samples[..900], 0);
    assert_eq!((frame, next), (None, 900));
    let (frame, next) = framer.push_until_frame(&samples, 900);
    assert_eq!(frame, Some((samples[..960].to_vec(), 960)));
    assert_eq!(next, 960);
    let (frame, next) = framer.push_until_frame(&samples, next);
    assert_eq!((frame, next), (None, 1500));
    assert_eq!(framer.push_sample(1), None);
}

fn opus(audio: OutboundAudio) -> (Vec<u8>, u32) {
    match audio {
        OutboundAudio::Opus { payload, sample_count } => (payload.to_vec(), sample_count),
    }
}

// Encodes a frame as its first sample and the number of the call.
fn encode(calls: u8, frame: Vec<u32>) -> (u8, Vec<u8>) {
    (calls + 1, vec![frame[0] as u8, calls])
}

#[test]
fn full_queues_lose_the_new_frame() {
    let (sender, receiver) = async_channel::bounded(1);
    let mut recorder = Recorder { sender, framer: OpusFramer::new(0) };
    let outcomes = recorder.turn(&[5; 960], &encode);
    assert!(matches!(outcomes[..], [Offered::Sent]));
    assert_eq!(after_try_send(&outcomes[0]), (Flow::Continue, false));
    let mut outcomes = recorder.turn(&[6; 960], &encode);
    assert_eq!(after_try_send(&outcomes[0]), (Flow::Continue, true));
    match outcomes.remove(0) {
        Offered::Full(frame) => assert_eq!(opus(frame), (vec![6, 1], 960)),
        _ => panic!("the queue is full"),
    }
    assert_eq!(opus(receiver.try_recv().unwrap()), (vec![5, 0], 960));
}

#[test]
fn closed_queues_end_the_turn() {
    let (sender, receiver) = async_channel::bounded(1);
    drop(receiver);
    let mut recorder = Recorder { sender, framer: OpusFramer::new(0) };
    assert!(recorder.turn(&[1; 900], &encode).is_empty());
    let mut outcomes = recorder.turn(&[2; 900], &encode);
    assert_eq!(outcomes.len(), 1);
    assert_eq!(after_try_send(&outcomes[0]), (Flow::Break, false));
    match outcomes.remove(0) {
        Offered::Closed(frame) => assert_eq!(opus(frame), (vec![1, 0], 960)),
        _ => panic!("the queue is closed"),
    }
    // The rest of what was read was left.
    let (frame, next) = recorder.framer.push_until_frame(&[3; 1000], 0);
    assert_eq!(frame, Some((vec![3; 960], 960)));
    assert_eq!(next, 960);
}

#[test]
fn plain_configurations_name_devices() {
    let config = AudioConfig::from_environment(Some("mic".to_string()), None);
    assert_eq!(config.input_device, Some("mic".to_string()));
    assert_eq!(config.output_device, None);
    let InboundAudio::Opus { payload, skipped_samples } =
        InboundAudio::Opus { payload: Bytes::new(), skipped_samples: Some(1) };
    assert_eq!((payload.len(), skipped_samples), (0, Some(1)));
}
