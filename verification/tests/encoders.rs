use libereco::audio::AudioSpec;
use libereco::audio_encoder::{AudioCodecs, AudioDecoder, AudioEncoder};
use libereco::encoded_audio::{
    AudioCodec, AudioContainer, BinaryEncoding, EncodedAudio, EncodedAudioFormat, Endianness, PcmFormat, PcmSample,
};
use libereco::encoders::{PcmBase64Decoder, PcmBase64Encoder, PcmBinaryDecoder, PcmBinaryEncoder};
use libereco::error::CoreError;

fn i16_format(encoding: BinaryEncoding, channels: usize) -> EncodedAudioFormat {
    EncodedAudioFormat::new(
        AudioContainer::Raw,
        AudioCodec::Pcm(PcmFormat::I16(Endianness::Little)),
        encoding,
        AudioSpec { rate: 16000, channels },
    )
}

#[test]
fn binary_encode_decode_roundtrip() {
    let format = i16_format(BinaryEncoding::Binary, 2);
    let encoder = PcmBinaryEncoder::new(&format).unwrap();
    let decoder = PcmBinaryDecoder::new(&format).unwrap();
    let samples = vec![PcmSample::I16(1), PcmSample::I16(-2), PcmSample::I16(300), PcmSample::I16(i16::MIN)];
    let mut bytes = vec![0xAA; 3];
    encoder.encode_samples(&samples, &mut bytes);
    assert_eq!(bytes, vec![1, 0, 0xFE, 0xFF, 0x2C, 0x01, 0x00, 0x80]);
    assert_eq!(decoder.decode_samples(&bytes), samples);
}

#[test]
fn decode_ignores_trailing_partial_sample() {
    let format = i16_format(BinaryEncoding::Binary, 1);
    let decoder = PcmBinaryDecoder::new(&format).unwrap();
    assert_eq!(decoder.decode_samples(&[1, 0, 2]), vec![PcmSample::I16(1)]);
}

#[test]
fn non_pcm_codec_is_unsupported() {
    let format = EncodedAudioFormat::new(
        AudioContainer::Raw,
        AudioCodec::Opus,
        BinaryEncoding::Binary,
        AudioSpec { rate: 48000, channels: 1 },
    );
    assert!(matches!(PcmBinaryEncoder::new(&format), Err(CoreError::UnsupportedAudioFormat(_))));
    assert!(matches!(PcmBinaryDecoder::new(&format), Err(CoreError::UnsupportedAudioFormat(_))));
    assert!(matches!(AudioCodecs::encoder(&format), Err(CoreError::UnsupportedAudioFormat(_))));
}

#[test]
fn codec_selection() {
    assert!(matches!(AudioCodecs::encoder(&i16_format(BinaryEncoding::Binary, 1)), Ok(AudioEncoder::Binary(_))));
    assert!(matches!(AudioCodecs::encoder(&i16_format(BinaryEncoding::Base64, 1)), Ok(AudioEncoder::Base64(_))));
    assert!(matches!(AudioCodecs::decoder(&i16_format(BinaryEncoding::Base64, 1)), Ok(AudioDecoder::Base64(_))));
    assert!(matches!(
        AudioCodecs::decoder(&i16_format(BinaryEncoding::Custom("hex".to_string()), 1)),
        Err(CoreError::UnsupportedAudioFormat(_))
    ));
    let wav = EncodedAudioFormat::new(
        AudioContainer::Wav,
        AudioCodec::Pcm(PcmFormat::U8),
        BinaryEncoding::Binary,
        AudioSpec { rate: 8000, channels: 1 },
    );
    assert!(AudioCodecs::decoder(&wav).is_err());
}

#[test]
fn internal_voice_format() {
    let f = EncodedAudioFormat::internal_for_voice();
    assert_eq!(f.container(), AudioContainer::Raw);
    assert_eq!(f.codec(), AudioCodec::Pcm(PcmFormat::F32(Endianness::Little)));
    assert_eq!(f.encoding(), BinaryEncoding::Binary);
    assert_eq!(f.spec(), AudioSpec { rate: 48_000, channels: 1 });
}

#[test]
fn encoded_audio_text_access() {
    let text = EncodedAudio::new(i16_format(BinaryEncoding::Base64, 1), b"AQD//w==".to_vec());
    assert_eq!(text.as_str().unwrap(), "AQD//w==");
    assert_eq!(text.bytes(), b"AQD//w==");
    assert_eq!(text.clone().into_string().unwrap(), "AQD//w==".to_string());
    let bad = EncodedAudio::new(i16_format(BinaryEncoding::Base64, 1), vec![0xFF, 0xFE]);
    assert!(matches!(bad.as_str(), Err(CoreError::InvalidUtf8)));
    let binary = EncodedAudio::new(i16_format(BinaryEncoding::Binary, 1), vec![1, 0]);
    assert!(matches!(binary.as_str(), Err(CoreError::NotText)));
    assert!(matches!(binary.into_string(), Err(CoreError::NotText)));
}

#[test]
fn formats_are_copied_whole() {
    let format = EncodedAudioFormat::new(
        AudioContainer::Custom("mkv".to_string()),
        AudioCodec::Pcm(PcmFormat::U24(Endianness::Big)),
        BinaryEncoding::Custom("hex".to_string()),
        AudioSpec { rate: 96_000, channels: 6 },
    );
    assert_eq!(format.container(), AudioContainer::Custom("mkv".to_string()));
    assert_eq!(format.codec(), AudioCodec::Pcm(PcmFormat::U24(Endianness::Big)));
    assert_eq!(format.encoding(), BinaryEncoding::Custom("hex".to_string()));
    let encoder = PcmBinaryEncoder::new(&format).unwrap();
    assert_eq!(encoder.format().container, format.container);
    assert_eq!(encoder.format().encoding, format.encoding);
    assert_eq!(encoder.format().spec, format.spec);
    let opus = EncodedAudioFormat::new(
        AudioContainer::Ogg,
        AudioCodec::Opus,
        BinaryEncoding::Base64,
        AudioSpec { rate: 48_000, channels: 2 },
    );
    match AudioCodecs::decoder(&opus) {
        Err(CoreError::UnsupportedAudioFormat(f)) => {
            assert_eq!(f.container, AudioContainer::Ogg);
            assert_eq!(f.codec, AudioCodec::Opus);
            assert_eq!(f.encoding, BinaryEncoding::Base64);
            assert_eq!(f.spec, opus.spec);
        }
        _ => panic!("expected an unsupported format"),
    }
}

#[test]
fn base64_encode_decode_roundtrip() {
    let format = i16_format(BinaryEncoding::Base64, 2);
    let encoder = PcmBase64Encoder::new(&format).unwrap();
    let decoder = PcmBase64Decoder::new(&format).unwrap();
    let samples = vec![PcmSample::I16(1), PcmSample::I16(-1)];
    let text = encoder.encode_samples(&samples);
    assert_eq!(text, "AQD//w==");
    assert_eq!(decoder.decode_samples(&text).unwrap(), samples);
    assert_eq!(decoder.decode_samples("").unwrap(), vec![]);
}

#[test]
fn base64_decode_errors() {
    let decoder = PcmBase64Decoder::new(&i16_format(BinaryEncoding::Base64, 2)).unwrap();
    assert!(matches!(decoder.decode_samples("not base64!"), Err(CoreError::InvalidBase64)));
    // one 16-bit sample is half a stereo frame
    assert!(matches!(decoder.decode_samples("AQA="), Err(CoreError::UndecodableSamples)));
    let no_channels = PcmBase64Decoder::new(&i16_format(BinaryEncoding::Base64, 0)).unwrap();
    assert!(matches!(no_channels.decode_samples("AQD//w=="), Err(CoreError::UndecodableSamples)));
}
