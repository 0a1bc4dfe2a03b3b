//! The choice of audio devices and of the configuration that their streams run with.

use vstd::prelude::*;

use crate::audio::{SampleRate, StreamParams, DURATION_20MS};
use crate::text::{joined_text, same_text};

verus! {

/// The devices to use, and whether echo cancellation is on.
#[derive(Debug, Clone)]
pub struct AudioConfig {
    /// The input device to use.
    pub input_device: Option<String>,
    /// The output device to use.
    pub output_device: Option<String>,
    pub processing_enabled: bool,
}

impl AudioConfig {
    /// Makes the configuration for the devices that the environment names, if it does.
    pub fn from_environment(
        input_device: Option<String>,
        output_device: Option<String>,
    ) -> (config: Self)
        ensures
            config.input_device == input_device,
            config.output_device == output_device,
            config.processing_enabled,
    {
        AudioConfig { input_device, output_device, processing_enabled: true }
    }

    /// Makes the configuration that is asked for on the command line.
    pub fn from_arguments(
        input_device: Option<String>,
        output_device: Option<String>,
        disable_processing: bool,
    ) -> (config: Self)
        ensures
            config.input_device == input_device,
            config.output_device == output_device,
            config.processing_enabled == !disable_processing,
    {
        AudioConfig { input_device, output_device, processing_enabled: !disable_processing }
    }

    /// Makes the configuration of a second endpoint, with devices of its own and the
    /// processing of this one.
    pub fn second(
        &self,
        input_device: Option<String>,
        output_device: Option<String>,
    ) -> (config: Self)
        ensures
            config.input_device == input_device,
            config.output_device == output_device,
            config.processing_enabled == self.processing_enabled,
    {
        AudioConfig { input_device, output_device, processing_enabled: self.processing_enabled }
    }
}

/// Whether a stream records or plays.
#[derive(Debug, Clone, Copy, PartialEq, Eq, Structural)]
pub enum Direction {
    Input,
    Output,
}

/// The names of the devices of a host.
#[derive(Debug)]
pub struct Devices {
    pub input: Vec<String>,
    pub output: Vec<String>,
}

impl Default for Devices {
    fn default() -> (devices: Self)
        ensures
            devices.input@ == Seq::<String>::empty(),
            devices.output@ == Seq::<String>::empty(),
    {
        Devices { input: Vec::new(), output: Vec::new() }
    }
}

/// The names that are known, in order.
pub open spec fn known_names(names: Seq<Option<String>>) -> Seq<String>
    decreases names.len(),
{
    if names.len() == 0 {
        Seq::empty()
    } else {
        match names.last() {
            Some(name) => known_names(names.drop_last()).push(name),
            None => known_names(names.drop_last()),
        }
    }
}

fn collect_names(names: Vec<Option<String>>) -> (known: Vec<String>)
    ensures
        known@ == known_names(names@),
{
    let mut known: Vec<String> = Vec::new();
    let mut next: usize = 0;
    while next < names.len()
        invariant
            next <= names@.len(),
            known@ == known_names(names@.take(next as int)),
        decreases names@.len() - next,
    {
        assert(names@.take(next + 1).drop_last() =~= names@.take(next as int));
        match &names[next] {
            Some(name) => {
                known.push(name.clone());
            },
            None => {},
        }
        next = next + 1;
    }
    assert(names@.take(next as int) =~= names@);
    known
}

/// Lists the devices of a host by name. A device that cannot tell its name is left out.
pub fn list_devices(input: Vec<Option<String>>, output: Vec<Option<String>>) -> (devices: Devices)
    ensures
        devices.input@ == known_names(input@),
        devices.output@ == known_names(output@),
{
    Devices { input: collect_names(input), output: collect_names(output) }
}

/// What a host says of its devices in one direction.
#[derive(Debug)]
pub struct HostDevices {
    /// The devices in the host's order, each by its name where it can tell it. `None`
    /// where the host cannot list them.
    pub names: Option<Vec<Option<String>>>,
    /// Whether the host has a default device.
    pub has_default: bool,
}

/// A device of a host.
#[derive(Debug, Clone, Copy, PartialEq, Eq, Structural)]
pub enum DeviceChoice {
    /// The device at this position of the host's list.
    Listed(usize),
    /// The host's default device.
    HostDefault,
}

/// Why no device was found.
#[derive(Debug)]
pub enum FindDeviceError {
    /// The host cannot list its devices.
    NotListed,
    /// There is no such device. Holds the message for the user.
    NotFound(String),
}

/// The device that a host on Linux is asked for first. The default device cannot always
/// be opened more than once there, and this one can.
pub const PREFERRED_DEVICE: &'static str = "pipewire";

/// Whether the device at position `i` tells the given name.
pub open spec fn is_named(names: Seq<Option<String>>, i: int, name: Seq<char>) -> bool {
    names[i] matches Some(found) && found@ == name
}

/// The position of the first device that tells the given name.
pub open spec fn first_named(names: Seq<Option<String>>, name: Seq<char>) -> Option<int>
    decreases names.len(),
{
    if names.len() == 0 {
        None
    } else {
        match first_named(names.drop_last(), name) {
            Some(i) => Some(i),
            None => if is_named(names, names.len() - 1, name) {
                Some(names.len() - 1)
            } else {
                None
            },
        }
    }
}

/// The first device that tells a name is one that tells it, and none before it does. If
/// there is no first one, none tells it.
pub proof fn first_named_is_first(names: Seq<Option<String>>, name: Seq<char>)
    ensures
        first_named(names, name) matches Some(i) ==> {
            &&& 0 <= i < names.len()
            &&& is_named(names, i, name)
            &&& forall|j: int| 0 <= j < i ==> !#[trigger] is_named(names, j, name)
        },
        first_named(names, name) is None ==> forall|j: int|
            0 <= j < names.len() ==> !#[trigger] is_named(names, j, name),
    decreases names.len(),
{
    if names.len() > 0 {
        let fewer = names.drop_last();
        first_named_is_first(fewer, name);
        assert forall|j: int| 0 <= j < fewer.len() implies #[trigger] is_named(names, j, name)
            == is_named(fewer, j, name) by {}
    }
}

fn find_named(names: &Vec<Option<String>>, name: &str) -> (at: Option<usize>)
    ensures
        match at {
            Some(i) => first_named(names@, name@) == Some(i as int),
            None => first_named(names@, name@) is None,
        },
{
    let mut at: Option<usize> = None;
    let mut next: usize = 0;
    while next < names.len()
        invariant
            next <= names@.len(),
            match at {
                Some(i) => first_named(names@.take(next as int), name@) == Some(i as int),
                None => first_named(names@.take(next as int), name@) is None,
            },
        decreases names@.len() - next,
    {
        assert(names@.take(next + 1).drop_last() =~= names@.take(next as int));
        if at.is_none() {
            match &names[next] {
                Some(found) => {
                    if same_text(found.as_str(), name) {
                        at = Some(next);
                    }
                },
                None => {},
            }
        }
        next = next + 1;
    }
    assert(names@.take(next as int) =~= names@);
    at
}

/// How the search for a device ends.
pub enum Search {
    Found(DeviceChoice),
    NotListed,
    NotFound,
}

/// How the search for the first device with a name ends.
pub open spec fn search_by_name(host: HostDevices, name: Seq<char>) -> Search {
    match host.names {
        Some(names) => match first_named(names@, name) {
            Some(i) => Search::Found(DeviceChoice::Listed(i as usize)),
            None => Search::NotFound,
        },
        None => Search::NotListed,
    }
}

/// How the search without a name ends, once no device is preferred: with the default
/// device, else with the first one.
pub open spec fn search_default(host: HostDevices) -> Search {
    if host.has_default {
        Search::Found(DeviceChoice::HostDefault)
    } else {
        match host.names {
            Some(names) => if names@.len() > 0 {
                Search::Found(DeviceChoice::Listed(0))
            } else {
                Search::NotFound
            },
            None => Search::NotListed,
        }
    }
}

/// How the search for a device ends.
pub open spec fn search(host: HostDevices, name: Option<&str>, on_linux: bool) -> Search {
    match name {
        Some(wanted) => search_by_name(host, wanted@),
        None => if on_linux && !(search_by_name(host, PREFERRED_DEVICE@) is NotFound) {
            search_by_name(host, PREFERRED_DEVICE@)
        } else {
            search_default(host)
        },
    }
}

/// Searches a host for the device to use. With a name, that is the first device that tells
/// it. Without one, it is on Linux the preferred device if there is one, else the default
/// device, else the first one.
pub fn search_host(host: &HostDevices, name: Option<&str>, on_linux: bool) -> (found: Search)
    ensures
        found == search(*host, name, on_linux),
{
    if name.is_none() && on_linux {
        match &host.names {
            Some(names) => {
                proof {
                    first_named_is_first(names@, PREFERRED_DEVICE@);
                }
                match find_named(names, PREFERRED_DEVICE) {
                    Some(at) => {
                        return Search::Found(DeviceChoice::Listed(at));
                    },
                    None => {},
                }
            },
            None => {
                return Search::NotListed;
            },
        }
    }
    match name {
        Some(wanted) => match &host.names {
            Some(names) => {
                proof {
                    first_named_is_first(names@, wanted@);
                }
                match find_named(names, wanted) {
                    Some(at) => Search::Found(DeviceChoice::Listed(at)),
                    None => Search::NotFound,
                }
            },
            None => Search::NotListed,
        },
        None => {
            if host.has_default {
                return Search::Found(DeviceChoice::HostDefault);
            }
            match &host.names {
                Some(names) => if names.len() > 0 {
                    Search::Found(DeviceChoice::Listed(0))
                } else {
                    Search::NotFound
                },
                None => Search::NotListed,
            }
        },
    }
}

/// The message for a device that is not there, which begins with `reason`.
pub open spec fn not_found_message(reason: Seq<char>, name: Option<&str>) -> Seq<char> {
    reason + (match name {
        Some(wanted) => wanted@,
        None => "default"@,
    }) + "`"@
}

/// Whether a result is what a search has ended with.
pub open spec fn reports(
    found: Search,
    reason: Seq<char>,
    name: Option<&str>,
    result: Result<DeviceChoice, FindDeviceError>,
) -> bool {
    match found {
        Search::Found(choice) => result matches Ok(device) && device == choice,
        Search::NotListed => result matches Err(FindDeviceError::NotListed),
        Search::NotFound => result matches Err(FindDeviceError::NotFound(message)) && message@
            == not_found_message(reason, name),
    }
}

/// Reports what a search has ended with. The message for a device that is not there begins
/// with `reason`.
pub fn report(found: Search, reason: &str, name: Option<&str>) -> (result: Result<
    DeviceChoice,
    FindDeviceError,
>)
    ensures
        reports(found, reason@, name, result),
{
    match found {
        Search::Found(choice) => Ok(choice),
        Search::NotListed => Err(FindDeviceError::NotListed),
        Search::NotFound => {
            let shown: &str = match name {
                Some(wanted) => wanted,
                None => "default",
            };
            Err(FindDeviceError::NotFound(joined_text(reason, shown, "`")))
        },
    }
}

/// How the message for a device that is not there begins.
pub const NO_INPUT_DEVICE: &'static str = "could not find input audio device `";

/// Finds the device to use for a direction. With a name, that is the first device that
/// tells it. Without one, it is on Linux the preferred device if there is one, else the
/// default device, else the first one.
pub fn find_device(
    input: &HostDevices,
    output: &HostDevices,
    direction: Direction,
    name: Option<&str>,
    on_linux: bool,
) -> (result: Result<DeviceChoice, FindDeviceError>)
    ensures
        reports(
            search(
                if direction == Direction::Input {
                    *input
                } else {
                    *output
                },
                name,
                on_linux,
            ),
            NO_INPUT_DEVICE@,
            name,
            result,
        ),
{
    let host: &HostDevices = match direction {
        Direction::Input => input,
        Direction::Output => output,
    };
    report(search_host(host, name, on_linux), NO_INPUT_DEVICE, name)
}

/// The format of a device's samples.
#[derive(Debug, Clone, Copy, PartialEq, Eq, Structural)]
pub enum SampleFormat {
    I8,
    I16,
    I32,
    I64,
    U8,
    U16,
    U32,
    U64,
    F32,
    F64,
}

impl SampleFormat {
    /// Whether streams can be built for a format.
    pub open spec fn supported(self) -> bool {
        self == SampleFormat::I8 || self == SampleFormat::I16 || self == SampleFormat::I32 || self
            == SampleFormat::F32
    }

    /// Whether a stream can be built for the format.
    pub fn is_supported(self) -> (supported: bool)
        ensures
            supported == self.supported(),
    {
        match self {
            SampleFormat::I8 => true,
            SampleFormat::I16 => true,
            SampleFormat::I32 => true,
            SampleFormat::F32 => true,
            _ => false,
        }
    }
}

/// The size of a stream's buffer.
#[derive(Debug, Clone, Copy, PartialEq, Eq, Structural)]
pub enum BufferSize {
    Default,
    Fixed(u32),
}

/// A range of configurations that a device supports.
#[derive(Debug, Clone, Copy, PartialEq, Eq, Structural)]
pub struct ConfigRange {
    pub channels: u16,
    pub min_sample_rate: SampleRate,
    pub max_sample_rate: SampleRate,
    pub sample_format: SampleFormat,
}

/// One configuration that a device supports.
#[derive(Debug, Clone, Copy, PartialEq, Eq, Structural)]
pub struct SupportedConfig {
    pub channels: u16,
    pub sample_rate: SampleRate,
    pub sample_format: SampleFormat,
}

impl ConfigRange {
    /// Whether a range has a configuration with the given parameters.
    pub open spec fn offers(self, params: StreamParams) -> bool {
        &&& self.channels == params.channel_count
        &&& self.min_sample_rate.0 <= params.sample_rate.0 <= self.max_sample_rate.0
    }

    /// The configuration of a range at the given rate.
    pub open spec fn at_rate(self, rate: SampleRate) -> SupportedConfig {
        SupportedConfig {
            channels: self.channels,
            sample_rate: rate,
            sample_format: self.sample_format,
        }
    }

    /// Returns the configuration at a rate, if the rate is in the range.
    pub fn try_with_sample_rate(&self, rate: SampleRate) -> (config: Option<SupportedConfig>)
        ensures
            config == if self.min_sample_rate.0 <= rate.0 <= self.max_sample_rate.0 {
                Some(self.at_rate(rate))
            } else {
                None
            },
    {
        if self.min_sample_rate.0 <= rate.0 && rate.0 <= self.max_sample_rate.0 {
            Some(
                SupportedConfig {
                    channels: self.channels,
                    sample_rate: rate,
                    sample_format: self.sample_format,
                },
            )
        } else {
            None
        }
    }
}

/// Whether the range at position `i` is the last one that offers the parameters.
pub open spec fn last_offer(ranges: Seq<ConfigRange>, params: StreamParams, i: int) -> bool {
    &&& 0 <= i < ranges.len()
    &&& ranges[i].offers(params)
    &&& forall|j: int| i < j < ranges.len() ==> !(#[trigger] ranges[j]).offers(params)
}

/// Selects a configuration from ranges that are sorted from the worst to the best: the
/// one with the given parameters from the best range that offers it.
pub fn select_config(ranges: &Vec<ConfigRange>, params: &StreamParams) -> (selected: Option<
    SupportedConfig,
>)
    ensures
        match selected {
            Some(config) => exists|i: int|
                #[trigger] last_offer(ranges@, *params, i) && config == ranges@[i].at_rate(
                    params.sample_rate,
                ),
            None => forall|i: int|
                0 <= i < ranges@.len() ==> !(#[trigger] ranges@[i]).offers(*params),
        },
{
    let mut left: usize = ranges.len();
    while left > 0
        invariant
            left <= ranges@.len(),
            forall|j: int| left <= j < ranges@.len() ==> !(#[trigger] ranges@[j]).offers(*params),
        decreases left,
    {
        left = left - 1;
        let range: ConfigRange = ranges[left];
        if range.channels == params.channel_count {
            match range.try_with_sample_rate(params.sample_rate) {
                Some(config) => {
                    assert(last_offer(ranges@, *params, left as int));
                    return Some(config);
                },
                None => {},
            }
        }
    }
    None
}

/// The configuration of a stream.
#[derive(Debug, Clone, Copy, PartialEq, Eq, Structural)]
pub struct StreamConfig {
    pub channels: u16,
    pub sample_rate: SampleRate,
    pub buffer_size: BufferSize,
}

/// The configuration of a stream and the format of its samples.
#[derive(Debug, Clone, Copy, PartialEq, Eq, Structural)]
pub struct StreamInfo {
    pub sample_format: SampleFormat,
    pub config: StreamConfig,
}

/// What a stream is opened with for a configuration of the device: its buffer holds 20 ms
/// of the parameters that were asked for.
pub open spec fn stream_info(config: SupportedConfig, params: StreamParams) -> StreamInfo {
    StreamInfo {
        sample_format: config.sample_format,
        config: StreamConfig {
            channels: config.channels,
            sample_rate: config.sample_rate,
            buffer_size: BufferSize::Fixed(params.samples_in_all(DURATION_20MS) as u32),
        },
    }
}

/// Whether a stream is opened with the configuration selected from `ranges`, else with the
/// device's default, and not at all where there is neither.
pub open spec fn configured(
    ranges: Seq<ConfigRange>,
    default: Option<SupportedConfig>,
    params: StreamParams,
    info: Option<StreamInfo>,
) -> bool {
    if exists|i: int| last_offer(ranges, params, i) {
        exists|i: int|
            #[trigger] last_offer(ranges, params, i) && info == Some(
                stream_info(ranges[i].at_rate(params.sample_rate), params),
            )
    } else {
        match default {
            Some(config) => info == Some(stream_info(config, params)),
            None => info is None,
        }
    }
}

/// At most one range is the last one that offers the parameters.
pub proof fn last_offer_is_unique(
    ranges: Seq<ConfigRange>,
    params: StreamParams,
    i: int,
    j: int,
)
    requires
        last_offer(ranges, params, i),
        last_offer(ranges, params, j),
    ensures
        i == j,
{
}

fn stream_config(
    ranges: &Vec<ConfigRange>,
    default: Option<SupportedConfig>,
    params: &StreamParams,
) -> (info: Option<StreamInfo>)
    requires
        params.samples_per_channel(DURATION_20MS) <= usize::MAX,
        params.samples_in_all(DURATION_20MS) <= usize::MAX,
    ensures
        configured(ranges@, default, *params, info),
{
    let config: SupportedConfig = match select_config(ranges, params) {
        Some(config) => config,
        None => match default {
            Some(config) => config,
            None => {
                return None;
            },
        },
    };
    let buffer: u32 = #[verifier::truncate] (params.frame_buffer_size(DURATION_20MS) as u32);
    Some(
        StreamInfo {
            sample_format: config.sample_format,
            config: StreamConfig {
                channels: config.channels,
                sample_rate: config.sample_rate,
                buffer_size: BufferSize::Fixed(buffer),
            },
        },
    )
}

/// Decides what a recording stream is opened with, from the ranges that the device
/// supports, sorted from the worst to the best, and its default.
pub fn input_stream_config(
    ranges: &Vec<ConfigRange>,
    default: Option<SupportedConfig>,
    params: &StreamParams,
) -> (info: Option<StreamInfo>)
    requires
        params.samples_per_channel(DURATION_20MS) <= usize::MAX,
        params.samples_in_all(DURATION_20MS) <= usize::MAX,
    ensures
        configured(ranges@, default, *params, info),
{
    stream_config(ranges, default, params)
}

/// Decides what a playing stream is opened with, from the ranges that the device supports,
/// sorted from the worst to the best, and its default.
pub fn output_stream_config(
    ranges: &Vec<ConfigRange>,
    default: Option<SupportedConfig>,
    params: &StreamParams,
) -> (info: Option<StreamInfo>)
    requires
        params.samples_per_channel(DURATION_20MS) <= usize::MAX,
        params.samples_in_all(DURATION_20MS) <= usize::MAX,
    ensures
        configured(ranges@, default, *params, info),
{
    stream_config(ranges, default, params)
}

/// Of the devices that are listed one after the other, each one that tells its name is listed
/// under it, at the end, and one that does not is left out.
pub proof fn devices_are_listed_in_order(names: Seq<Option<String>>, name: String)
    ensures
        known_names(Seq::<Option<String>>::empty()).len() == 0,
        known_names(names.push(Some(name))) == known_names(names).push(name),
        known_names(names.push(None)) == known_names(names),
{
    assert(names.push(Some(name)).drop_last() =~= names);
    assert(names.push(None).drop_last() =~= names);
}

/// A device that is asked for by name is found exactly if one tells that name: the first that
/// does, whatever the system and the default device are. A host that cannot list its devices
/// gives none.
pub proof fn named_devices_are_found(
    host: HostDevices,
    names: Vec<Option<String>>,
    wanted: &str,
    on_linux: bool,
    at: int,
)
    ensures
        host.names is None ==> search(host, Some(wanted), on_linux) is NotListed,
        host.names == Some(names) ==> {
            &&& 0 <= at < names@.len() && is_named(names@, at, wanted@) && (forall|j: int|
                0 <= j < at ==> !#[trigger] is_named(names@, j, wanted@)) && names@.len()
                <= usize::MAX ==> search(host, Some(wanted), on_linux) == Search::Found(
                DeviceChoice::Listed(at as usize),
            )
            &&& (forall|j: int| 0 <= j < names@.len() ==> !#[trigger] is_named(names@, j, wanted@))
                ==> search(host, Some(wanted), on_linux) is NotFound
        },
        forall|j: int|
            0 <= j < names@.len() ==> (#[trigger] is_named(names@, j, wanted@) <==> (names@[j]
                matches Some(found) && found@ == wanted@)),
{
    first_named_is_first(names@, wanted@);
}

/// Without a name, Linux takes the first device that is called `pipewire`. Where there is none,
/// and on other systems, the default device is taken, else the first in the list, else none.
/// Linux needs the list in any case, the others only without a default device.
pub proof fn default_devices_are_found(
    host: HostDevices,
    names: Vec<Option<String>>,
    on_linux: bool,
    at: int,
)
    ensures
        host.names is None && on_linux ==> search(host, None, on_linux) is NotListed,
        host.names is None && !on_linux && host.has_default ==> search(host, None, on_linux)
            == Search::Found(DeviceChoice::HostDefault),
        host.names is None && !on_linux && !host.has_default ==> search(host, None, on_linux)
            is NotListed,
        host.names == Some(names) && names@.len() <= usize::MAX ==> {
            let preferred = "pipewire"@;
            &&& on_linux && 0 <= at < names@.len() && is_named(names@, at, preferred) && (forall|
                j: int,
            |
                0 <= j < at ==> !#[trigger] is_named(names@, j, preferred)) ==> search(
                host,
                None,
                on_linux,
            ) == Search::Found(DeviceChoice::Listed(at as usize))
            &&& !on_linux || (forall|j: int|
                0 <= j < names@.len() ==> !#[trigger] is_named(names@, j, preferred)) ==> {
                &&& host.has_default ==> search(host, None, on_linux) == Search::Found(
                    DeviceChoice::HostDefault,
                )
                &&& !host.has_default && names@.len() > 0 ==> search(host, None, on_linux)
                    == Search::Found(DeviceChoice::Listed(0))
                &&& !host.has_default && names@.len() == 0 ==> search(host, None, on_linux)
                    is NotFound
            }
        },
{
    first_named_is_first(names@, "pipewire"@);
}

/// A search that has found a device reports it. One that has not says so with the reason, the
/// name that was asked for, or `default`, and the closing mark.
pub proof fn searches_are_reported(
    choice: DeviceChoice,
    reason: Seq<char>,
    name: &str,
    result: Result<DeviceChoice, FindDeviceError>,
)
    ensures
        reports(Search::Found(choice), reason, Some(name), result) ==> result == Ok::<
            DeviceChoice,
            FindDeviceError,
        >(choice),
        reports(Search::NotListed, reason, Some(name), result) ==> result == Err::<
            DeviceChoice,
            FindDeviceError,
        >(FindDeviceError::NotListed),
        reports(Search::NotFound, reason, Some(name), result) ==> (result matches Err(
            FindDeviceError::NotFound(message),
        ) && message@ == reason + name@ + "`"@),
        reports(Search::NotFound, reason, None, result) ==> (result matches Err(
            FindDeviceError::NotFound(message),
        ) && message@ == reason + "default"@ + "`"@),
        reports(Search::Found(choice), reason, None, result) ==> result == Ok::<
            DeviceChoice,
            FindDeviceError,
        >(choice),
{
}

/// A range offers what has its channels and a rate within it, and offers it in its own format.
pub proof fn ranges_offer_their_rates(range: ConfigRange, params: StreamParams)
    ensures
        range.offers(params) <==> range.channels == params.channel_count
            && range.min_sample_rate.0 <= params.sample_rate.0 && params.sample_rate.0
            <= range.max_sample_rate.0,
        range.at_rate(params.sample_rate).channels == range.channels,
        range.at_rate(params.sample_rate).sample_rate == params.sample_rate,
        range.at_rate(params.sample_rate).sample_format == range.sample_format,
{
}

/// A stream is opened with the last range that offers what was asked for, at the rate that was
/// asked for, else with the device's default, and its buffer holds 20 ms of what was asked for.
/// It is opened with nothing exactly if no range offers it and there is no default.
pub proof fn streams_are_opened_with_the_best(
    ranges: Seq<ConfigRange>,
    default: Option<SupportedConfig>,
    params: StreamParams,
    info: Option<StreamInfo>,
    at: int,
)
    requires
        configured(ranges, default, params, info),
    ensures
        0 <= at < ranges.len() && ranges[at].offers(params) && (forall|j: int|
            at < j < ranges.len() ==> !(#[trigger] ranges[j]).offers(params)) ==> (info matches Some(
            opened,
        ) && opened.sample_format == ranges[at].sample_format && opened.config.channels
            == ranges[at].channels && opened.config.sample_rate == params.sample_rate),
        (forall|j: int| 0 <= j < ranges.len() ==> !(#[trigger] ranges[j]).offers(params)) ==> (
        default matches Some(config) ==> (info matches Some(opened) && opened.sample_format
            == config.sample_format && opened.config.channels == config.channels
            && opened.config.sample_rate == config.sample_rate)),
        (forall|j: int| 0 <= j < ranges.len() ==> !(#[trigger] ranges[j]).offers(params)) && default
            is None ==> info is None,
        info matches Some(opened) ==> opened.config.buffer_size == BufferSize::Fixed(
            params.samples_in_all(20) as u32,
        ),
{
    if 0 <= at < ranges.len() && ranges[at].offers(params) && (forall|j: int|
        at < j < ranges.len() ==> !(#[trigger] ranges[j]).offers(params)) {
        assert(last_offer(ranges, params, at));
        let i = choose|i: int|
            #[trigger] last_offer(ranges, params, i) && info == Some(
                stream_info(ranges[i].at_rate(params.sample_rate), params),
            );
        last_offer_is_unique(ranges, params, at, i);
    }
    if forall|j: int| 0 <= j < ranges.len() ==> !(#[trigger] ranges[j]).offers(params) {
        assert(!exists|i: int| last_offer(ranges, params, i));
    }
}

/// Streams are built for signed samples of 8, 16 and 32 bits and for single-precision ones, and
/// for no others.
pub proof fn few_formats_are_supported(format: SampleFormat)
    ensures
        format is I8 || format is I16 || format is I32 || format is F32 ==> format.supported(),
        format is I64 || format is U8 || format is U16 || format is U32 || format is U64
            || format is F64 ==> !format.supported(),
{
}

/// The device for a direction is searched for among those of that direction: what the host says
/// of the other one makes no difference.
pub proof fn directions_are_searched_apart(
    host: &HostDevices,
    one: &HostDevices,
    other: &HostDevices,
    name: Option<&str>,
    on_linux: bool,
    input: Result<DeviceChoice, FindDeviceError>,
    output: Result<DeviceChoice, FindDeviceError>,
    choice: DeviceChoice,
)
    requires
        call_ensures(find_device, (host, one, Direction::Input, name, on_linux), input),
        call_ensures(find_device, (other, host, Direction::Output, name, on_linux), output),
    ensures
        input == Ok::<DeviceChoice, FindDeviceError>(choice) <==> search(*host, name, on_linux)
            == Search::Found(choice),
        output == Ok::<DeviceChoice, FindDeviceError>(choice) <==> search(*host, name, on_linux)
            == Search::Found(choice),
        input is Ok <==> output is Ok,
{
}

/// A configuration has the devices that are asked for. Processing is on unless it is turned off,
/// and a second endpoint has it as the first one does.
pub proof fn processing_is_on_unless_turned_off(
    input: Option<String>,
    output: Option<String>,
    disable_processing: bool,
    plain: AudioConfig,
    asked_for: AudioConfig,
    second: AudioConfig,
)
    requires
        call_ensures(AudioConfig::from_environment, (input, output), plain),
        call_ensures(AudioConfig::from_arguments, (input, output, disable_processing), asked_for),
        call_ensures(AudioConfig::second, (&asked_for, input, output), second),
    ensures
        plain.input_device == input && plain.output_device == output,
        asked_for.input_device == input && asked_for.output_device == output,
        second.input_device == input && second.output_device == output,
        plain.processing_enabled,
        asked_for.processing_enabled <==> !disable_processing,
        second.processing_enabled == asked_for.processing_enabled,
{
}

/// A range gives a configuration exactly for the rates within it.
pub proof fn ranges_give_their_rates(
    range: &ConfigRange,
    rate: SampleRate,
    config: Option<SupportedConfig>,
)
    requires
        call_ensures(ConfigRange::try_with_sample_rate, (range, rate), config),
    ensures
        config is Some <==> range.min_sample_rate.0 <= rate.0 && rate.0 <= range.max_sample_rate.0,
        config matches Some(found) ==> found.sample_rate == rate && found.channels == range.channels
            && found.sample_format == range.sample_format,
{
}

} // verus!
