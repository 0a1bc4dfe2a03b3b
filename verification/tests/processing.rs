use bytes::Bytes;
use callme::audio::context::{media_frame, unheard_frame, AudioContext, LocalAudioSource};
use callme::audio::processor::{EchoCancellationSuppressionLevel, WebrtcAudioProcessor};
use callme::audio::{AudioConfig, InboundAudio, OutboundAudio};
use callme::rtc::{Codec, OpusChannels, RecvOutcome, TrackKind};

#[test]
fn echo_is_suppressed_moderately() {
    let processor = WebrtcAudioProcessor::new((), None, true);
    let config = processor.config();
    assert_eq!(
        config.echo_cancellation.suppression_level,
        EchoCancellationSuppressionLevel::Moderate
    );
    assert_eq!(config.echo_cancellation.stream_delay_ms, None);
    assert!(config.echo_cancellation.enable_delay_agnostic);
    assert!(config.echo_cancellation.enable_extended_filter);
    assert!(config.enable_high_pass_filter);
    let level = Some(EchoCancellationSuppressionLevel::High);
    let config = WebrtcAudioProcessor::new((), level, true).config();
    assert_eq!(
        config.echo_cancellation.suppression_level,
        EchoCancellationSuppressionLevel::High
    );
}

#[test]
fn processors_that_are_off_leave_frames_alone() {
    let mut processor = WebrtcAudioProcessor::new(10, None, false);
    let work = |by: &u32, frame: Vec<u32>| -> Result<Vec<u32>, &str> {
        if frame.is_empty() {
            Err("empty")
        } else {
            Ok(frame.iter().map(|sample| sample + by).collect())
        }
    };
    assert!(!processor.is_enabled());
    assert_eq!(processor.process_capture_frame(vec![1, 2], &work), Ok(vec![1, 2]));
    assert_eq!(processor.process_render_frame(vec![], &work), Ok(vec![]));
    processor.set_enabled(true);
    assert!(processor.is_enabled());
    assert_eq!(processor.process_capture_frame(vec![1, 2], &work), Ok(vec![11, 12]));
    assert_eq!(processor.process_render_frame(vec![], &work), Err("empty"));
}

#[test]
fn delays_add_up() {
    let mut processor = WebrtcAudioProcessor::new((), None, true);
    let update = processor.set_capture_delay(12).unwrap();
    assert_eq!(update.echo_cancellation.stream_delay_ms, Some(12));
    let update = processor.set_playback_delay(30).unwrap();
    assert_eq!(update.echo_cancellation.stream_delay_ms, Some(42));
    assert_eq!(processor.config(), update);
    assert_eq!((processor.capture_delay(), processor.playback_delay()), (12, 30));
}

#[test]
fn small_changes_of_a_delay_are_ignored() {
    let mut processor = WebrtcAudioProcessor::new((), None, true);
    assert_eq!(processor.set_capture_delay(1), None);
    assert!(processor.set_capture_delay(2).is_some());
    assert_eq!(processor.set_capture_delay(3), None);
    assert_eq!(processor.set_capture_delay(1), None);
    let update = processor.set_capture_delay(0).unwrap();
    assert_eq!(update.echo_cancellation.stream_delay_ms, Some(0));
}

#[test]
fn recorded_audio_becomes_a_frame() {
    let payload = Bytes::from(vec![1, 2]);
    let frame = media_frame(OutboundAudio::Opus { payload, sample_count: 960 });
    assert_eq!(&frame.payload[..], &[1, 2]);
    assert_eq!(frame.sample_count, Some(960));
    assert_eq!(frame.skipped_frames, None);
    assert_eq!(frame.skipped_samples, None);
}

#[test]
fn frames_come_back_when_nobody_hears_them() {
    let audio = OutboundAudio::Opus { payload: Bytes::from(vec![4]), sample_count: 960 };
    let frame = media_frame(audio);
    assert!(unheard_frame(Ok(2)).is_none());
    let unheard = unheard_frame(Err(frame)).unwrap();
    assert_eq!(&unheard.payload[..], &[4]);
    assert_eq!(unheard.sample_count, Some(960));
}

#[test]
fn recorded_audio_goes_to_all_tracks() {
    let config = AudioConfig::from_environment(Some("mic".to_string()), None);
    let context = AudioContext::new(config);
    assert_eq!(context.config.input_device, Some("mic".to_string()));
    let audio = |byte| OutboundAudio::Opus { payload: Bytes::from(vec![byte]), sample_count: 960 };
    let unheard = context.forward(audio(1)).unwrap();
    assert_eq!(&unheard.payload[..], &[1]);
    let mut first = context.get_track_from_capture();
    let mut second = context.get_track_from_capture();
    assert_eq!(first.codec(), Codec::Opus { channels: OpusChannels::Mono });
    assert_eq!(first.kind(), TrackKind::Audio);
    assert!(context.forward(audio(2)).is_none());
    for track in [&mut first, &mut second] {
        match track.try_recv() {
            RecvOutcome::Frame(frame) => assert_eq!(&frame.payload[..], &[2]),
            _ => panic!("no frame"),
        }
    }
}

#[test]
fn audio_carries_its_counts() {
    let InboundAudio::Opus { payload, skipped_frames } =
        InboundAudio::Opus { payload: Bytes::from(vec![1]), skipped_frames: Some(2) };
    assert_eq!((payload.len(), skipped_frames), (1, Some(2)));
    assert_eq!(LocalAudioSource::Microphone, LocalAudioSource::Microphone);
}
