use callme::audio::device::{BufferSize, StreamConfig};
use callme::audio::{
    opus_params, pause_after_turn, SampleRate, StreamParams, DURATION_10MS, DURATION_20MS,
};

#[test]
fn opus_streams_have_960_samples_in_20_ms() {
    let params = opus_params();
    assert_eq!(params, StreamParams::new(SampleRate(48_000), 1));
    assert_eq!(params.frame_buffer_size(DURATION_10MS), 480);
    assert_eq!(params.frame_buffer_size(DURATION_20MS), 960);
    assert_eq!(params.frame_duration_in_samples(DURATION_20MS), 960);
}

#[test]
fn all_channels_count_for_the_buffer() {
    let params = StreamParams::new(SampleRate(44_100), 2);
    assert_eq!(params.frame_duration_in_samples(DURATION_20MS), 880);
    assert_eq!(params.frame_buffer_size(DURATION_20MS), 1760);
    assert_eq!(params.frame_buffer_size(0), 0);
}

#[test]
fn low_rates_have_no_samples() {
    let params = StreamParams::new(SampleRate(999), 1);
    assert_eq!(params.frame_buffer_size(DURATION_20MS), 0);
}

#[test]
fn configurations_give_their_parameters() {
    let config = StreamConfig {
        channels: 2,
        sample_rate: SampleRate(44_100),
        buffer_size: BufferSize::Fixed(960),
    };
    assert_eq!(StreamParams::from(config), StreamParams::new(SampleRate(44_100), 2));
}

#[test]
fn turns_take_20_ms() {
    assert_eq!(pause_after_turn(0), 20_000_000);
    assert_eq!(pause_after_turn(5_000_001), 14_999_999);
    assert_eq!(pause_after_turn(20_000_000), 0);
    assert_eq!(pause_after_turn(20_000_001), 0);
}
