//! Tunable parameters of the pipeline.

use vstd::prelude::*;

verus! {

/// Samples per detection window at 44.1 kHz with ten windows per second.
pub const DEFAULT_WINDOW_SAMPLES: usize = 4410;

/// Average amplitude above which a window counts as speech: a quarter of
/// the largest sample value.
pub const DEFAULT_ACTIVE_THRESHOLD: i16 = 8191;

/// Windows for which the level stays active after the last loud window.
pub const DEFAULT_HYSTERESIS_WINDOWS: u32 = 5;

/// Detection windows per second of audio.
pub const DEFAULT_WINDOWS_PER_SECOND: u32 = 10;

/// Milliseconds between two ticks of the playback loop.
pub const DEFAULT_POLL_INTERVAL_MS: u64 = 50;

/// Parameters of the activity detector.
#[derive(Clone, Copy, Debug, PartialEq, Eq, Structural)]
pub struct DetectorConfig {
    /// Samples per detection window, the divisor of the window average.
    pub window_size: usize,
    /// A window is loud when its average amplitude is strictly above this.
    pub active_threshold: i16,
    /// Value the countdown is reset to by a loud window.
    pub hysteresis_windows: u32,
}

impl DetectorConfig {
    /// A configuration is usable when its window holds at least one sample.
    pub open spec fn valid(self) -> bool {
        self.window_size > 0
    }

    /// The configuration with the default window, threshold and hysteresis.
    pub fn standard() -> (config: DetectorConfig)
        ensures
            config.window_size == DEFAULT_WINDOW_SAMPLES,
            config.active_threshold == DEFAULT_ACTIVE_THRESHOLD,
            config.hysteresis_windows == DEFAULT_HYSTERESIS_WINDOWS,
            config.valid(),
    {
        DetectorConfig {
            window_size: DEFAULT_WINDOW_SAMPLES,
            active_threshold: DEFAULT_ACTIVE_THRESHOLD,
            hysteresis_windows: DEFAULT_HYSTERESIS_WINDOWS,
        }
    }
}

/// Number of samples in one window when a second of audio at `sample_rate`
/// is cut into `windows_per_second` windows, rounded down.
pub open spec fn window_samples_of(sample_rate: int, windows_per_second: int) -> int {
    sample_rate / windows_per_second
}

/// Derives the window size from the negotiated sample rate.
///
/// Gives `None` when the rate cannot be divided into windows of at least
/// one sample each.
pub fn window_samples(sample_rate: u32, windows_per_second: u32) -> (size: Option<usize>)
    ensures
        size.is_some() <==> 0 < windows_per_second <= sample_rate,
        size matches Some(n) ==> n > 0 && n == window_samples_of(
            sample_rate as int,
            windows_per_second as int,
        ),
{
    if windows_per_second == 0 || windows_per_second > sample_rate {
        None
    } else {
        let n: u32 = sample_rate / windows_per_second;
        assert(n > 0) by (nonlinear_arith)
            requires
                0 < windows_per_second <= sample_rate,
                n == sample_rate / windows_per_second,
        ;
        Some(n as usize)
    }
}

/// What is asked of the capture device; `None` leaves a setting at the
/// device's native value.
#[derive(Clone, Copy, Debug, PartialEq, Eq, Structural)]
pub struct CaptureOptions {
    pub sample_rate: Option<i32>,
    pub channels: Option<u8>,
    pub buffer_size: Option<u16>,
}

impl CaptureOptions {
    /// Every setting left to the device.
    pub fn device_native() -> (options: CaptureOptions)
        ensures
            options.sample_rate.is_none(),
            options.channels.is_none(),
            options.buffer_size.is_none(),
    {
        CaptureOptions { sample_rate: None, channels: None, buffer_size: None }
    }
}

} // verus!
