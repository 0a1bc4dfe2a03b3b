use callme::audio::device::{
    find_device, input_stream_config, list_devices, output_stream_config, select_config,
    AudioConfig, BufferSize, ConfigRange, DeviceChoice, Devices, Direction, FindDeviceError,
    HostDevices, SampleFormat, SupportedConfig,
};
use callme::audio::{opus_params, SampleRate};

fn host(names: &[&str], has_default: bool) -> HostDevices {
    HostDevices {
        names: Some(names.iter().map(|name| Some(name.to_string())).collect()),
        has_default,
    }
}

fn range(channels: u16, min: u32, max: u32, sample_format: SampleFormat) -> ConfigRange {
    ConfigRange {
        channels,
        min_sample_rate: SampleRate(min),
        max_sample_rate: SampleRate(max),
        sample_format,
    }
}

fn find(input: &HostDevices, name: Option<&str>, on_linux: bool) -> DeviceChoice {
    find_device(input, &host(&[], false), Direction::Input, name, on_linux).unwrap()
}

#[test]
fn named_devices_are_found() {
    let input = host(&["mic", "line", "mic"], true);
    assert_eq!(find(&input, Some("mic"), true), DeviceChoice::Listed(0));
    assert_eq!(find(&input, Some("line"), false), DeviceChoice::Listed(1));
}

#[test]
fn linux_prefers_pipewire() {
    let input = host(&["mic", "pipewire"], true);
    assert_eq!(find(&input, None, true), DeviceChoice::Listed(1));
    assert_eq!(find(&input, None, false), DeviceChoice::HostDefault);
}

#[test]
fn the_default_comes_before_the_first() {
    assert_eq!(find(&host(&["mic"], true), None, true), DeviceChoice::HostDefault);
    assert_eq!(find(&host(&["mic"], false), None, true), DeviceChoice::Listed(0));
    assert_eq!(find(&host(&["mic"], false), None, false), DeviceChoice::Listed(0));
}

#[test]
fn nameless_devices_are_passed_over() {
    let input = HostDevices { names: Some(vec![None, Some("mic".to_string())]), has_default: false };
    assert_eq!(find(&input, Some("mic"), true), DeviceChoice::Listed(1));
    assert_eq!(find(&input, None, true), DeviceChoice::Listed(0));
}

#[test]
fn directions_have_their_own_devices() {
    let input = host(&["mic"], false);
    let output = host(&["other", "mic"], false);
    let found = find_device(&input, &output, Direction::Output, Some("mic"), true);
    assert!(matches!(found, Ok(DeviceChoice::Listed(1))));
}

#[test]
fn missing_devices_are_reported() {
    let none = host(&[], false);
    match find_device(&none, &none, Direction::Input, Some("mic"), true) {
        Err(FindDeviceError::NotFound(message)) => {
            assert_eq!(message, "could not find input audio device `mic`")
        }
        _ => panic!("there is no such device"),
    }
    match find_device(&none, &none, Direction::Output, None, false) {
        Err(FindDeviceError::NotFound(message)) => {
            assert_eq!(message, "could not find input audio device `default`")
        }
        _ => panic!("there is no device"),
    }
}

#[test]
fn hosts_that_cannot_list_are_reported() {
    let mute = HostDevices { names: None, has_default: true };
    let found = find_device(&mute, &mute, Direction::Input, None, true);
    assert!(matches!(found, Err(FindDeviceError::NotListed)));
    let found = find_device(&mute, &mute, Direction::Input, Some("mic"), false);
    assert!(matches!(found, Err(FindDeviceError::NotListed)));
    let found = find_device(&mute, &mute, Direction::Input, None, false);
    assert!(matches!(found, Ok(DeviceChoice::HostDefault)));
}

#[test]
fn devices_are_listed_by_name() {
    let devices = list_devices(
        vec![Some("a".to_string()), None, Some("b".to_string())],
        vec![None],
    );
    assert_eq!(devices.input, vec!["a".to_string(), "b".to_string()]);
    assert!(devices.output.is_empty());
    let none = Devices::default();
    assert!(none.input.is_empty() && none.output.is_empty());
}

#[test]
fn the_best_range_that_fits_is_selected() {
    let ranges = vec![
        range(1, 8_000, 48_000, SampleFormat::I16),
        range(1, 44_100, 96_000, SampleFormat::F32),
        range(1, 8_000, 44_100, SampleFormat::I32),
        range(2, 8_000, 96_000, SampleFormat::F32),
    ];
    let expected = SupportedConfig {
        channels: 1,
        sample_rate: SampleRate(48_000),
        sample_format: SampleFormat::F32,
    };
    assert_eq!(select_config(&ranges, &opus_params()), Some(expected));
    assert_eq!(select_config(&ranges[2..].to_vec(), &opus_params()), None);
}

#[test]
fn rates_at_the_ends_of_a_range_are_in_it() {
    let fits = range(1, 48_000, 48_000, SampleFormat::I8);
    assert!(fits.try_with_sample_rate(SampleRate(48_000)).is_some());
    assert!(fits.try_with_sample_rate(SampleRate(47_999)).is_none());
    assert!(fits.try_with_sample_rate(SampleRate(48_001)).is_none());
}

#[test]
fn streams_fall_back_to_the_default() {
    let default = SupportedConfig {
        channels: 2,
        sample_rate: SampleRate(44_100),
        sample_format: SampleFormat::I16,
    };
    let info = input_stream_config(&vec![], Some(default), &opus_params()).unwrap();
    assert_eq!(info.sample_format, SampleFormat::I16);
    assert_eq!(info.config.channels, 2);
    assert_eq!(info.config.sample_rate, SampleRate(44_100));
    assert_eq!(info.config.buffer_size, BufferSize::Fixed(960));
    assert_eq!(output_stream_config(&vec![], None, &opus_params()), None);
}

#[test]
fn streams_use_the_selected_range() {
    let ranges = vec![range(1, 8_000, 96_000, SampleFormat::F32)];
    let info = output_stream_config(&ranges, None, &opus_params()).unwrap();
    assert_eq!(info.sample_format, SampleFormat::F32);
    assert_eq!(info.config.channels, 1);
    assert_eq!(info.config.sample_rate, SampleRate(48_000));
}

#[test]
fn four_sample_formats_are_supported() {
    for format in [SampleFormat::I8, SampleFormat::I16, SampleFormat::I32, SampleFormat::F32] {
        assert!(format.is_supported());
    }
    for format in [
        SampleFormat::I64,
        SampleFormat::U8,
        SampleFormat::U16,
        SampleFormat::U32,
        SampleFormat::U64,
        SampleFormat::F64,
    ] {
        assert!(!format.is_supported());
    }
}

#[test]
fn processing_is_on_unless_it_is_disabled() {
    assert!(AudioConfig::from_environment(None, None).processing_enabled);
    let config = AudioConfig::from_arguments(Some("mic".to_string()), None, true);
    assert_eq!(config.input_device, Some("mic".to_string()));
    assert_eq!(config.output_device, None);
    assert!(!config.processing_enabled);
    let second = config.second(None, Some("speaker".to_string()));
    assert_eq!(second.input_device, None);
    assert_eq!(second.output_device, Some("speaker".to_string()));
    assert!(!second.processing_enabled);
}
