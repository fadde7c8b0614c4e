use voice_gate::config::{
    window_samples, CaptureOptions, DEFAULT_POLL_INTERVAL_MS, DEFAULT_WINDOWS_PER_SECOND,
    DEFAULT_WINDOW_SAMPLES,
};

#[test]
fn default_window_is_a_tenth_of_a_second() {
    assert_eq!(DEFAULT_WINDOWS_PER_SECOND, 10);
    assert_eq!(window_samples(44100, DEFAULT_WINDOWS_PER_SECOND), Some(DEFAULT_WINDOW_SAMPLES));
    assert_eq!(DEFAULT_POLL_INTERVAL_MS, 50);
}

#[test]
fn window_is_a_fraction_of_a_second() {
    assert_eq!(window_samples(44100, 10), Some(4410));
    assert_eq!(window_samples(44100, 4), Some(11025));
    assert_eq!(window_samples(48000, 10), Some(4800));
}

#[test]
fn window_size_rounds_down() {
    assert_eq!(window_samples(44100, 7), Some(6300));
    assert_eq!(window_samples(10, 3), Some(3));
    assert_eq!(window_samples(5, 5), Some(1));
    assert_eq!(window_samples(u32::MAX, 1), Some(u32::MAX as usize));
}

#[test]
fn window_needs_at_least_one_sample() {
    assert_eq!(window_samples(44100, 0), None);
    assert_eq!(window_samples(0, 10), None);
    assert_eq!(window_samples(0, 0), None);
    assert_eq!(window_samples(9, 10), None);
}

#[test]
fn capture_options_default_to_the_device() {
    let options = CaptureOptions::device_native();
    assert_eq!(options.sample_rate, None);
    assert_eq!(options.channels, None);
    assert_eq!(options.buffer_size, None);
}
