use libereco::audio::AudioFormat;
use libereco::device::{AudioDeviceId, AudioDirection};
use libereco::encoded_audio::{Endianness, PcmFormat};
use libereco::node_info::{
    decimal_string, default_audio_format, device_from_node, format_from_parts, media_direction, node_name,
    pcm_format_from_spa, SpaFormatIds,
};

#[test]
fn media_classes_of_endpoints() {
    assert_eq!(media_direction("Audio/Source"), Some(AudioDirection::Input));
    assert_eq!(media_direction("Stream/Input/Audio"), Some(AudioDirection::Input));
    assert_eq!(media_direction("Audio/Sink"), Some(AudioDirection::Output));
    assert_eq!(media_direction("Stream/Output/Audio"), Some(AudioDirection::Output));
    assert_eq!(media_direction("Video/Source"), None);
    assert_eq!(media_direction("Audio/Sink/Extra"), None);
    assert_eq!(media_direction(""), None);
}

#[test]
fn decimal_notation() {
    assert_eq!(decimal_string(0), "0");
    assert_eq!(decimal_string(7), "7");
    assert_eq!(decimal_string(10), "10");
    assert_eq!(decimal_string(4_294_967_295), "4294967295");
}

#[test]
fn node_name_fallbacks() {
    assert_eq!(node_name(5, Some("Speakers"), Some("spk"), Some("alsa_output")), "Speakers");
    assert_eq!(node_name(5, None, Some("spk"), Some("alsa_output")), "spk");
    assert_eq!(node_name(5, None, None, Some("alsa_output")), "alsa_output");
    assert_eq!(node_name(42, None, None, None), "Node 42");
}

#[test]
fn default_format_needs_all_parts() {
    let f32le = PcmFormat::F32(Endianness::Little);
    assert_eq!(
        format_from_parts(Some(44_100), Some(1), Some(f32le)),
        Some(AudioFormat { sample_rate: 44_100, channels: 1, sample_format: f32le })
    );
    assert_eq!(format_from_parts(None, Some(1), Some(f32le)), None);
    assert_eq!(format_from_parts(Some(44_100), None, Some(f32le)), None);
    assert_eq!(format_from_parts(Some(44_100), Some(1), None), None);
}

#[test]
fn device_of_a_hardware_source() {
    let info = device_from_node(31, Some("Audio/Source"), true, None, Some("Mic"), Some("alsa_input"), None).unwrap();
    assert_eq!(info.id, AudioDeviceId::Numeric(31));
    assert_eq!(info.name, "Mic");
    assert_eq!(info.direction, AudioDirection::Input);
    assert!(info.formats.is_empty());
    assert_eq!(info.default_format, default_audio_format());
    assert_eq!(default_audio_format().sample_rate, 48_000);
    assert_eq!(default_audio_format().channels, 2);
    assert!(!info.default);
    assert!(!info.virtual_device);
}

#[test]
fn device_of_a_virtual_sink_keeps_its_format() {
    let format = AudioFormat { sample_rate: 16_000, channels: 1, sample_format: PcmFormat::I16(Endianness::Little) };
    let info = device_from_node(8, Some("Audio/Sink"), false, None, None, None, Some(format)).unwrap();
    assert_eq!(info.name, "Node 8");
    assert_eq!(info.direction, AudioDirection::Output);
    assert_eq!(info.default_format, format);
    assert!(info.virtual_device);
}

#[test]
fn nodes_that_are_no_endpoints() {
    assert!(device_from_node(1, None, true, None, None, None, None).is_none());
    assert!(device_from_node(2, Some("Video/Source"), true, None, None, None, None).is_none());
}

#[test]
fn spa_sample_formats() {
    let ids = SpaFormatIds { f32_le: 11, s32_le: 12, s16_le: 13, u16_le: 14 };
    assert_eq!(pcm_format_from_spa(11, &ids), Some(PcmFormat::F32(Endianness::Little)));
    assert_eq!(pcm_format_from_spa(12, &ids), Some(PcmFormat::I32(Endianness::Little)));
    assert_eq!(pcm_format_from_spa(13, &ids), Some(PcmFormat::I16(Endianness::Little)));
    assert_eq!(pcm_format_from_spa(14, &ids), Some(PcmFormat::U16(Endianness::Little)));
    assert_eq!(pcm_format_from_spa(15, &ids), None);
}
