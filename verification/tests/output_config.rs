use libereco::output_config::{
    build_fixed_config, default_input_config, fixed_rate_config, resolve_buffer_size, with_probe_result,
    BufferSize, StreamConfig,
};

#[test]
fn fixed_config_uses_small_fixed_buffer() {
    let cfg = build_fixed_config(48000, 2);
    match cfg.buffer_size {
        BufferSize::Fixed(n) => assert_eq!(n, 480),
        other => panic!("expected Fixed(480), got {other:?}"),
    }
    assert_eq!(cfg.sample_rate, 48000);
    assert_eq!(cfg.channels, 2);
}

#[test]
fn fixed_config_at_44100() {
    let cfg = build_fixed_config(44100, 1);
    match cfg.buffer_size {
        BufferSize::Fixed(n) => assert_eq!(n, 441),
        other => panic!("expected Fixed(441), got {other:?}"),
    }
}

#[test]
fn resolve_keeps_fixed_when_accepted() {
    let bs = resolve_buffer_size(true, 48000);
    match bs {
        BufferSize::Fixed(n) => assert_eq!(n, 480),
        other => panic!("expected Fixed(480), got {other:?}"),
    }
}

#[test]
fn resolve_falls_back_to_default_when_rejected() {
    let bs = resolve_buffer_size(false, 48000);
    assert!(matches!(bs, BufferSize::Default));

    // At another rate too: the default, unrelated to latency_frames.
    assert!(matches!(resolve_buffer_size(false, 16000), BufferSize::Default));
}

#[test]
fn probe_rejection_falls_back_to_default_buffer() {
    let cfg = build_fixed_config(48000, 2);
    assert_eq!(with_probe_result(cfg, true), cfg);
    let fallback = with_probe_result(cfg, false);
    assert_eq!(
        fallback,
        StreamConfig { channels: 2, sample_rate: 48000, buffer_size: BufferSize::Default }
    );
}

#[test]
fn input_configs_use_default_buffer() {
    assert_eq!(
        default_input_config(1, 44100),
        StreamConfig { channels: 1, sample_rate: 44100, buffer_size: BufferSize::Default }
    );
    assert_eq!(
        fixed_rate_config(2),
        StreamConfig { channels: 2, sample_rate: 48_000, buffer_size: BufferSize::Default }
    );
}
