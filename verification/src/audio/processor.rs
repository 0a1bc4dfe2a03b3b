//! The settings of the audio processor: whether it is on, and the delay between playing a
//! sound and recording its echo.

use vstd::prelude::*;

verus! {

/// How strongly echo is suppressed.
#[derive(Debug, Clone, Copy, PartialEq, Eq, Structural)]
pub enum EchoCancellationSuppressionLevel {
    Lowest,
    Lower,
    Low,
    Moderate,
    High,
}

/// The settings of echo cancellation.
#[derive(Debug, Clone, Copy, PartialEq, Eq, Structural)]
pub struct EchoCancellation {
    pub suppression_level: EchoCancellationSuppressionLevel,
    /// The delay between playing and recording, where it is known.
    pub stream_delay_ms: Option<i32>,
    pub enable_delay_agnostic: bool,
    pub enable_extended_filter: bool,
}

/// The settings of the processor. What they do not name is off.
#[derive(Debug, Clone, Copy, PartialEq, Eq, Structural)]
pub struct ProcessorConfig {
    pub echo_cancellation: EchoCancellation,
    /// Echo cancellation needs this filter.
    pub enable_high_pass_filter: bool,
}

/// Whether two delays are too far apart to be taken for the same.
pub open spec fn far_apart(a: u64, b: u64) -> bool {
    a > b + 1 || b > a + 1
}

fn are_far_apart(a: u64, b: u64) -> (far: bool)
    ensures
        far == far_apart(a, b),
{
    if a > b {
        a - b > 1
    } else {
        b - a > 1
    }
}

/// The delay that is kept when another one is reported. A report that differs by no more
/// than a millisecond changes nothing.
pub open spec fn kept_delay(current: u64, reported_millis: u128) -> u64 {
    if far_apart(reported_millis as u64, current) {
        reported_millis as u64
    } else {
        current
    }
}

/// The processor that is shared by recording and playing, and its settings.
pub struct WebrtcAudioProcessor<P> {
    /// The processor itself, which works on floating-point samples, and is carried along.
    pub inner: P,
    config: ProcessorConfig,
    capture_delay: u64,
    playback_delay: u64,
    enabled: bool,
}

impl<P> WebrtcAudioProcessor<P> {
    /// The processor that is carried along.
    pub closed spec fn carried(self) -> P {
        self.inner
    }

    /// The settings.
    pub closed spec fn settings(self) -> ProcessorConfig {
        self.config
    }

    /// The delay of recording, in milliseconds.
    pub closed spec fn capture_millis(self) -> u64 {
        self.capture_delay
    }

    /// The delay of playing, in milliseconds.
    pub closed spec fn playback_millis(self) -> u64 {
        self.playback_delay
    }

    /// Whether the processor is on.
    pub closed spec fn is_on(self) -> bool {
        self.enabled
    }

    /// The settings hold the sum of the two delays, or none where no delay was ever kept,
    /// and the filter that echo cancellation needs is on.
    pub open spec fn wf(self) -> bool {
        &&& self.settings().enable_high_pass_filter
        &&& self.capture_millis() + self.playback_millis() <= u64::MAX
        &&& match self.settings().echo_cancellation.stream_delay_ms {
            Some(millis) => millis == (self.playback_millis() + self.capture_millis()) as i32,
            None => self.capture_millis() == 0 && self.playback_millis() == 0,
        }
    }

    /// Makes the settings for a processor. Without a level, echo is suppressed moderately.
    pub fn new(
        inner: P,
        echo_cancellation_suppression_level: Option<EchoCancellationSuppressionLevel>,
        enabled: bool,
    ) -> (processor: Self)
        ensures
            processor.wf(),
            processor.carried() == inner,
            processor.is_on() == enabled,
            processor.capture_millis() == 0,
            processor.playback_millis() == 0,
            processor.settings() == (ProcessorConfig {
                echo_cancellation: EchoCancellation {
                    suppression_level: match echo_cancellation_suppression_level {
                        Some(level) => level,
                        None => EchoCancellationSuppressionLevel::Moderate,
                    },
                    stream_delay_ms: None,
                    enable_delay_agnostic: true,
                    enable_extended_filter: true,
                },
                enable_high_pass_filter: true,
            }),
    {
        let suppression_level: EchoCancellationSuppressionLevel =
            match echo_cancellation_suppression_level {
            Some(level) => level,
            None => EchoCancellationSuppressionLevel::Moderate,
        };
        WebrtcAudioProcessor {
            inner,
            config: ProcessorConfig {
                echo_cancellation: EchoCancellation {
                    suppression_level,
                    stream_delay_ms: None,
                    enable_delay_agnostic: true,
                    enable_extended_filter: true,
                },
                enable_high_pass_filter: true,
            },
            capture_delay: 0,
            playback_delay: 0,
            enabled,
        }
    }

    /// Returns the settings, to be applied to the processor.
    pub fn config(&self) -> (config: ProcessorConfig)
        ensures
            config == self.settings(),
    {
        self.config
    }

    /// Returns the delay of recording that is kept, in milliseconds.
    pub fn capture_delay(&self) -> (millis: u64)
        ensures
            millis == self.capture_millis(),
    {
        self.capture_delay
    }

    /// Returns the delay of playing that is kept, in milliseconds.
    pub fn playback_delay(&self) -> (millis: u64)
        ensures
            millis == self.playback_millis(),
    {
        self.playback_delay
    }

    /// Returns whether the processor is on.
    pub fn is_enabled(&self) -> (enabled: bool)
        ensures
            enabled == self.is_on(),
    {
        self.enabled
    }

    /// Turns the processor on or off.
    pub fn set_enabled(&mut self, enabled: bool)
        requires
            old(self).wf(),
        ensures
            final(self).wf(),
            final(self).is_on() == enabled,
            final(self).carried() == old(self).carried(),
            final(self).settings() == old(self).settings(),
            final(self).capture_millis() == old(self).capture_millis(),
            final(self).playback_millis() == old(self).playback_millis(),
    {
        self.enabled = enabled;
    }

    /// Has `work` process a frame that was recorded, unless the processor is off: then the
    /// frame stays as it is.
    pub fn process_capture_frame<X, F: Fn(&P, Vec<u32>) -> Result<Vec<u32>, X>>(
        &self,
        frame: Vec<u32>,
        work: &F,
    ) -> (result: Result<Vec<u32>, X>)
        requires
            work.requires((&self.carried(), frame)),
        ensures
            if self.is_on() {
                work.ensures((&self.carried(), frame), result)
            } else {
                result == Ok::<Vec<u32>, X>(frame)
            },
    {
        if !self.is_enabled() {
            return Ok(frame);
        }
        work(&self.inner, frame)
    }

    /// Has `work` process a frame that is to be played, unless the processor is off: then
    /// the frame stays as it is.
    pub fn process_render_frame<X, F: Fn(&P, Vec<u32>) -> Result<Vec<u32>, X>>(
        &self,
        frame: Vec<u32>,
        work: &F,
    ) -> (result: Result<Vec<u32>, X>)
        requires
            work.requires((&self.carried(), frame)),
        ensures
            if self.is_on() {
                work.ensures((&self.carried(), frame), result)
            } else {
                result == Ok::<Vec<u32>, X>(frame)
            },
    {
        if !self.is_enabled() {
            return Ok(frame);
        }
        work(&self.inner, frame)
    }

    /// The settings with the sum of two delays.
    pub open spec fn with_delays(config: ProcessorConfig, playback: u64, capture: u64) -> ProcessorConfig {
        ProcessorConfig {
            echo_cancellation: EchoCancellation {
                suppression_level: config.echo_cancellation.suppression_level,
                stream_delay_ms: Some((playback + capture) as i32),
                enable_delay_agnostic: config.echo_cancellation.enable_delay_agnostic,
                enable_extended_filter: config.echo_cancellation.enable_extended_filter,
            },
            enable_high_pass_filter: config.enable_high_pass_filter,
        }
    }

    /// Takes in the delay of recording that the device reports, in milliseconds. If it has
    /// changed, returns the settings to be applied to the processor.
    pub fn set_capture_delay(&mut self, stream_delay_millis: u128) -> (update: Option<
        ProcessorConfig,
    >)
        requires
            old(self).wf(),
            old(self).playback_millis() + (stream_delay_millis as u64) <= u64::MAX,
        ensures
            final(self).wf(),
            final(self).carried() == old(self).carried(),
            final(self).is_on() == old(self).is_on(),
            final(self).playback_millis() == old(self).playback_millis(),
            final(self).capture_millis() == kept_delay(
                old(self).capture_millis(),
                stream_delay_millis,
            ),
            if far_apart(stream_delay_millis as u64, old(self).capture_millis()) {
                &&& update == Some(final(self).settings())
                &&& final(self).settings() == Self::with_delays(
                    old(self).settings(),
                    final(self).playback_millis(),
                    final(self).capture_millis(),
                )
            } else {
                &&& update is None
                &&& final(self).settings() == old(self).settings()
            },
    {
        let new_val: u64 = #[verifier::truncate] (stream_delay_millis as u64);
        if are_far_apart(new_val, self.capture_delay) {
            self.capture_delay = new_val;
            Some(self.update_stream_delay())
        } else {
            None
        }
    }

    /// Takes in the delay of playing that the device reports, in milliseconds. If it has
    /// changed, returns the settings to be applied to the processor.
    pub fn set_playback_delay(&mut self, stream_delay_millis: u128) -> (update: Option<
        ProcessorConfig,
    >)
        requires
            old(self).wf(),
            old(self).capture_millis() + (stream_delay_millis as u64) <= u64::MAX,
        ensures
            final(self).wf(),
            final(self).carried() == old(self).carried(),
            final(self).is_on() == old(self).is_on(),
            final(self).capture_millis() == old(self).capture_millis(),
            final(self).playback_millis() == kept_delay(
                old(self).playback_millis(),
                stream_delay_millis,
            ),
            if far_apart(stream_delay_millis as u64, old(self).playback_millis()) {
                &&& update == Some(final(self).settings())
                &&& final(self).settings() == Self::with_delays(
                    old(self).settings(),
                    final(self).playback_millis(),
                    final(self).capture_millis(),
                )
            } else {
                &&& update is None
                &&& final(self).settings() == old(self).settings()
            },
    {
        let new_val: u64 = #[verifier::truncate] (stream_delay_millis as u64);
        if are_far_apart(new_val, self.playback_delay) {
            self.playback_delay = new_val;
            Some(self.update_stream_delay())
        } else {
            None
        }
    }

    fn update_stream_delay(&mut self) -> (config: ProcessorConfig)
        requires
            old(self).settings().enable_high_pass_filter,
            old(self).capture_millis() + old(self).playback_millis() <= u64::MAX,
        ensures
            final(self).wf(),
            final(self).carried() == old(self).carried(),
            final(self).is_on() == old(self).is_on(),
            final(self).capture_millis() == old(self).capture_millis(),
            final(self).playback_millis() == old(self).playback_millis(),
            config == final(self).settings(),
            config == Self::with_delays(
                old(self).settings(),
                old(self).playback_millis(),
                old(self).capture_millis(),
            ),
    {
        let total: u64 = self.playback_delay + self.capture_delay;
        self.config.echo_cancellation.stream_delay_ms = Some(
            #[verifier::truncate] (total as i32),
        );
        self.config
    }
}

/// The delay that is kept is never more than a millisecond from the one that was reported
/// last, and a report of the same delay again changes nothing.
pub proof fn kept_delays_follow_reports(current: u64, reported_millis: u128)
    ensures
        !far_apart(reported_millis as u64, kept_delay(current, reported_millis)),
        kept_delay(kept_delay(current, reported_millis), reported_millis) == kept_delay(
            current,
            reported_millis,
        ),
{
}

/// Two delays are taken for the same exactly if they differ by no more than a millisecond, and
/// the one that is reported is kept exactly if it is not taken for the one before.
pub proof fn delays_within_a_millisecond_are_the_same(current: u64, reported_millis: u64)
    ensures
        far_apart(reported_millis, current) <==> reported_millis > current + 1 || current
            > reported_millis + 1,
        far_apart(reported_millis, current) ==> kept_delay(current, reported_millis as u128)
            == reported_millis,
        !far_apart(reported_millis, current) ==> kept_delay(current, reported_millis as u128)
            == current,
{
}

/// The settings for two delays hold their sum, and are otherwise what they were.
pub proof fn delays_are_added_up<P>(config: ProcessorConfig, playback: u64, capture: u64)
    requires
        playback + capture <= i32::MAX,
    ensures
        ({
            let after = WebrtcAudioProcessor::<P>::with_delays(config, playback, capture);
            &&& after.echo_cancellation.stream_delay_ms matches Some(millis) && millis == playback
                + capture
            &&& after.echo_cancellation.suppression_level
                == config.echo_cancellation.suppression_level
            &&& after.echo_cancellation.enable_delay_agnostic
                == config.echo_cancellation.enable_delay_agnostic
            &&& after.echo_cancellation.enable_extended_filter
                == config.echo_cancellation.enable_extended_filter
            &&& after.enable_high_pass_filter == config.enable_high_pass_filter
        }),
{
}

} // verus!
