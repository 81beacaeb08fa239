use libereco::audio::AudioSpec;
use libereco::channel_converter::{ChannelConversion, ChannelConverter};
use libereco::pcm_audio::{write_interleaved, PcmAudio};

fn stereo(rate: u32) -> AudioSpec {
    AudioSpec { rate, channels: 2 }
}

#[test]
fn test_pcm_audio_resize_stereo_shrink() {
    let mut pcm = PcmAudio::<f32>::new(stereo(44100), 100);

    for i in 0..100 {
        pcm.data[i] = 1.0; // Left
        pcm.data[100 + i] = 2.0; // Right
    }

    pcm.resize(50, 2);

    assert_eq!(pcm.frames(), 50);
    assert_eq!(pcm.data.len(), 100);

    for i in 0..50 {
        assert_eq!(pcm.data[i], 1.0, "Left channel at {}", i);
        assert_eq!(pcm.data[50 + i], 2.0, "Right channel at {}", i);
    }
}

#[test]
fn test_pcm_audio_resize_stereo_grow() {
    let mut pcm = PcmAudio::<f32>::new(stereo(44100), 50);

    for i in 0..50 {
        pcm.data[i] = 1.0;
        pcm.data[50 + i] = 2.0;
    }

    pcm.resize(100, 2);

    assert_eq!(pcm.frames(), 100);
    assert_eq!(pcm.data.len(), 200);

    for i in 0..50 {
        assert_eq!(pcm.data[i], 1.0);
        assert_eq!(pcm.data[100 + i], 2.0);
    }
}

#[test]
fn resize_pads_with_zero_and_handles_channel_change() {
    let mut pcm = PcmAudio::<i32>::new(AudioSpec { rate: 8000, channels: 3 }, 2);
    pcm.data.copy_from_slice(&[1, 2, 3, 4, 5, 6]);
    pcm.resize(3, 3);
    assert_eq!(pcm.data, vec![1, 2, 0, 3, 4, 0, 5, 6, 0]);
    pcm.resize(1, 3);
    assert_eq!(pcm.data, vec![1, 3, 5]);
    pcm.resize(2, 1);
    assert_eq!(pcm.frames(), 2);
    assert_eq!(pcm.data, vec![1, 3]);
    assert_eq!(pcm.channel_count(), 3);
}

#[test]
fn channels_and_interleaving() {
    let mut pcm = PcmAudio::<i16>::new(stereo(48000), 3);
    pcm.data.copy_from_slice(&[1, 2, 3, 10, 20, 30]);
    assert_eq!(pcm.channel(0), &[1, 2, 3]);
    assert_eq!(pcm.channel(1), &[10, 20, 30]);
    pcm.channel_mut(1)[0] = 11;
    let mut out = vec![99];
    write_interleaved(&pcm, &mut out);
    assert_eq!(out, vec![1, 11, 2, 20, 3, 30]);
}

#[test]
fn test_mono_to_stereo_duplicates_planar() {
    let mut pcm = PcmAudio::<f32>::new(AudioSpec { rate: 48000, channels: 1 }, 12);
    for i in 0..12 {
        pcm.data[i] = 0.7;
    }
    let conv = ChannelConverter::new(2);
    assert_eq!(conv.conversion(pcm.channel_count()).unwrap(), ChannelConversion::MonoToStereo);
    conv.mono_to_stereo(&mut pcm);

    assert_eq!(pcm.channel_count(), 2);
    assert_eq!(pcm.frames(), 12);
    assert_eq!(pcm.data.len(), 24);
    for i in 0..12 {
        assert!((pcm.data[i] - 0.7).abs() < 1e-6, "ch0[{}] = {}", i, pcm.data[i]);
        assert!((pcm.data[12 + i] - 0.7).abs() < 1e-6, "ch1[{}] = {}", i, pcm.data[12 + i]);
    }
}

#[test]
fn test_stereo_to_stereo_is_passthrough() {
    let conv = ChannelConverter::new(2);
    assert_eq!(conv.conversion(2).unwrap(), ChannelConversion::Relabel);
    assert_eq!(ChannelConverter::new(1).conversion(2).unwrap(), ChannelConversion::StereoToMono);
    assert!(ChannelConverter::new(6).conversion(2).is_err());
}

fn stereo_pcm(ch0: f32, ch1: f32, frames: usize) -> PcmAudio<f32> {
    let mut pcm = PcmAudio::<f32>::new(AudioSpec { rate: 48000, channels: 2 }, frames);
    for i in 0..frames {
        pcm.data[i] = ch0;
        pcm.data[frames + i] = ch1;
    }
    pcm
}

fn average(left: f32, right: f32) -> f32 {
    (left + right) * 0.5
}

#[test]
fn test_stereo_to_mono_averages_planar() {
    let mut pcm = stereo_pcm(1.0, 0.0, 16);
    let conv = ChannelConverter::new(1);
    assert_eq!(conv.conversion(pcm.channel_count()).unwrap(), ChannelConversion::StereoToMono);
    conv.stereo_to_mono(&mut pcm, average);

    assert_eq!(pcm.channel_count(), 1);
    assert_eq!(pcm.frames(), 16);
    for i in 0..16 {
        assert!((pcm.data[i] - 0.5).abs() < 1e-6, "sample {} = {}", i, pcm.data[i]);
    }
}

#[test]
fn test_stereo_to_mono_preserves_levels() {
    let mut pcm = stereo_pcm(0.2, 0.4, 8);
    let conv = ChannelConverter::new(1);
    assert_eq!(conv.conversion(pcm.channel_count()).unwrap(), ChannelConversion::StereoToMono);
    conv.stereo_to_mono(&mut pcm, average);
    for i in 0..8 {
        assert!((pcm.data[i] - 0.3).abs() < 1e-6, "sample {} = {}", i, pcm.data[i]);
    }
}

#[test]
fn stereo_to_mono_mixes_each_frame_in_order() {
    let mut pcm = PcmAudio::<i32>::new(AudioSpec { rate: 8000, channels: 2 }, 3);
    pcm.data.copy_from_slice(&[1, 2, 3, 10, 20, 30]);
    ChannelConverter::new(1).stereo_to_mono(&mut pcm, |l, r| l * 100 + r);
    assert_eq!(pcm.data, vec![110, 220, 330]);
    assert_eq!(pcm.spec, AudioSpec { rate: 8000, channels: 1 });
}
