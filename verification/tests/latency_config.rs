use libereco::latency_config::{latency_frames, TARGET_LATENCY_MS};

#[test]
fn frames_at_48k_are_480() {
    assert_eq!(latency_frames(48000), 480);
}

#[test]
fn frames_at_44100_are_441() {
    assert_eq!(latency_frames(44100), 441);
}

#[test]
fn never_returns_zero() {
    // Integer division can give 0 for very low rates; the function must
    // still return at least one frame.
    assert_eq!(latency_frames(0), 1);
    assert_eq!(latency_frames(50), 1);
    assert_eq!(latency_frames(8000), 80);
}

#[test]
fn monotonic_in_sample_rate() {
    assert!(latency_frames(16000) < latency_frames(44100));
    assert!(latency_frames(44100) < latency_frames(48000));
}

#[test]
fn approximates_target_latency() {
    for rate in [8000u32, 16000, 44100, 48000] {
        let frames = latency_frames(rate);
        let ms = frames as f64 / rate as f64 * 1000.0;
        assert!(
            (ms - TARGET_LATENCY_MS as f64).abs() < 1.0,
            "rate {rate}: {ms:.3} ms ~= {TARGET_LATENCY_MS} ms"
        );
    }
}

#[test]
fn latency_frames_largest_accepted_rate() {
    // u32::MAX / 10 is the largest rate whose product with the target fits.
    assert_eq!(latency_frames(429_496_729), 4_294_967);
}

#[test]
fn latency_frames_is_rate_over_100_rounded_down() {
    assert_eq!(latency_frames(199), 1);
    assert_eq!(latency_frames(200), 2);
    assert_eq!(latency_frames(22050), 220);
    assert_eq!(latency_frames(96000), 960);
}
