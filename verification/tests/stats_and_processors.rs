use libereco::audio::{duration_nanos, sample_to_pcm_format, AudioFormat, AudioSpec, SampleFormat};
use libereco::encoded_audio::{Endianness, PcmFormat};
use libereco::pipeline::{LatencyMetric, LatencyStats};
use libereco::encoded_audio::EncodedAudioFormat;
use libereco::processor::{
    input_plan, output_plan, pipeline_step, ConversionStep, PipelineRun, ProcessorKind, RunEnd, SampleConversion,
    SampleConverter,
};

#[test]
fn latency_metric_tracks_min_max_sum_count_last() {
    let mut m = LatencyMetric::default();
    assert_eq!(m.min_us, u64::MAX);
    m.update(30);
    m.update(10);
    m.update(20);
    assert_eq!((m.min_us, m.max_us, m.sum_us, m.count, m.last_us), (10, 30, 60, 3, 20));
    m.update(u64::MAX);
    assert_eq!(m.sum_us, 59);
}

#[test]
fn dropped_counters_increment() {
    let mut s = LatencyStats::default();
    s.inc_dropped_output();
    assert_eq!(s.dropped_output, 1);
    s.set_output_active(true);
    assert!(s.output_active);
    s.inc_dropped_output();
    s.inc_dropped_input();
    s.inc_dropped_network();
    s.inc_dropped_network();
    assert_eq!((s.dropped_input, s.dropped_network, s.dropped_output), (1, 2, 2));
    s.set_output_active(false);
    s.inc_dropped_output();
    assert_eq!(s.dropped_output, 3);
}

#[test]
fn metric_after_several_updates() {
    let mut m = LatencyMetric::default();
    for v in [40u64, 7, 95, 12] {
        m.update(v);
    }
    assert_eq!((m.min_us, m.max_us, m.sum_us, m.count, m.last_us), (7, 95, 154, 4, 12));
    assert!(m.min_us <= m.last_us && m.last_us <= m.max_us);
}

#[test]
fn frame_size_and_sample_formats() {
    let f = AudioFormat { sample_rate: 48000, channels: 2, sample_format: PcmFormat::I24(Endianness::Little) };
    assert_eq!(f.frame_size(), 6);
    assert_eq!(f.spec(), AudioSpec { rate: 48000, channels: 2 });
    assert_eq!(sample_to_pcm_format(SampleFormat::I16), PcmFormat::I16(Endianness::Little));
    assert_eq!(sample_to_pcm_format(SampleFormat::U8), PcmFormat::U8);
    assert_eq!(sample_to_pcm_format(SampleFormat::DsdU32), PcmFormat::DsdU32(Endianness::Little));
}

#[test]
fn processor_kinds() {
    assert!(ProcessorKind::Identity.is_audio());
    assert!(!ProcessorKind::Identity.is_dsp());
    assert!(ProcessorKind::Pipeline.is_audio() && ProcessorKind::Pipeline.is_dsp());
    assert!(!ProcessorKind::Resampler.is_audio() && ProcessorKind::Resampler.is_dsp());
}

#[test]
fn pipeline_steps_convert_only_on_change() {
    let s = pipeline_step(false, ProcessorKind::Denoiser);
    assert!(s.to_pcm && !s.to_audio && !s.run_on_audio);
    let s = pipeline_step(true, ProcessorKind::Normalizer);
    assert!(!s.to_pcm && !s.to_audio && !s.run_on_audio);
    let s = pipeline_step(true, ProcessorKind::Identity);
    assert!(s.to_audio && !s.to_pcm && s.run_on_audio);
    let s = pipeline_step(false, ProcessorKind::Pipeline);
    assert!(!s.to_audio && !s.to_pcm && s.run_on_audio);
}

#[test]
fn sample_conversions() {
    assert_eq!(SampleConverter::new(SampleFormat::F32, SampleFormat::F32).conversion(), Some(SampleConversion::Passthrough));
    assert_eq!(SampleConverter::new(SampleFormat::F32, SampleFormat::I16).conversion(), Some(SampleConversion::F32ToI16));
    assert_eq!(SampleConverter::new(SampleFormat::I16, SampleFormat::F32).conversion(), Some(SampleConversion::I16ToF32));
    assert_eq!(SampleConverter::new(SampleFormat::U16, SampleFormat::F32).conversion(), None);
}

#[test]
fn conversion_plans_between_device_and_internal_formats() {
    let device = AudioFormat { sample_rate: 44100, channels: 2, sample_format: PcmFormat::U32(Endianness::Little) };
    let internal = AudioFormat::from(EncodedAudioFormat::internal_for_voice());
    assert_eq!(
        input_plan(device, internal),
        vec![
            ConversionStep::Channels(1),
            ConversionStep::Resample { input: AudioSpec { rate: 44100, channels: 1 }, output_rate: 48000 },
        ]
    );
    assert_eq!(
        output_plan(internal, device),
        vec![
            ConversionStep::Resample { input: AudioSpec { rate: 48000, channels: 1 }, output_rate: 44100 },
            ConversionStep::Channels(2),
        ]
    );
    assert!(input_plan(internal, internal).is_empty());
    assert!(output_plan(device, device).is_empty());
    let mono_44k = AudioFormat { channels: 1, ..device };
    assert_eq!(input_plan(device, mono_44k), vec![ConversionStep::Channels(1)]);
}

#[test]
fn durations_of_frame_counts() {
    assert_eq!(duration_nanos(480, 48_000), 10_000_000);
    assert_eq!(duration_nanos(1, 44_100), 22_675);
    assert_eq!(duration_nanos(0, 48_000), 0);
    assert_eq!(duration_nanos(1_000, 0), 0);
}

#[test]
fn test_predefined_pipelines() {
    let spec_44100_stereo =
        AudioFormat { sample_rate: 44100, channels: 2, sample_format: PcmFormat::U32(Endianness::Little) };
    let internal_format = AudioFormat::from(EncodedAudioFormat::internal_for_voice());
    let to_mono = input_plan(spec_44100_stereo, internal_format);
    assert!(!to_mono.is_empty());
    let from_mono = output_plan(internal_format, spec_44100_stereo);
    assert!(!from_mono.is_empty());
}

#[test]
fn duration_at_rate_zero_is_zero_for_any_count() {
    assert_eq!(duration_nanos(u64::MAX, 0), 0);
}

#[test]
fn pipeline_run_stops_at_first_processor_without_output() {
    let mut run = PipelineRun::start(false);
    let s = run.step(ProcessorKind::Denoiser);
    assert!(s.to_pcm && !s.run_on_audio);
    run.record(true);
    let s = run.step(ProcessorKind::Identity);
    assert!(s.to_audio && s.run_on_audio);
    run.record(true);
    let s = run.step(ProcessorKind::Resampler);
    assert!(s.to_pcm);
    run.record(true);
    assert_eq!(run.end_as_audio(), RunEnd::Output { to_audio: true });
    assert_eq!(run.end_as_pcm(), RunEnd::Output { to_audio: false });

    let mut run = PipelineRun::start(true);
    run.step(ProcessorKind::Resampler);
    run.record(false);
    assert!(run.is_stopped());
    assert_eq!(run.end_as_audio(), RunEnd::NeedsInput);
    assert_eq!(run.end_as_pcm(), RunEnd::NeedsInput);
}
