use audio_samples::ConvertTo;
use libereco::encoded_audio::{Endianness, PcmFormat, PcmSample};

const TEST_SAMPLES: &[f32] = &[-1.0, -0.75, -0.5, -0.25, 0.0, 0.25, 0.5, 0.75, 1.0];

/// The stored value of a float sample in `format` (the quantization of the
/// float encoder).
fn quantize(format: PcmFormat, sample: f32) -> PcmSample {
    let unit = ((sample.clamp(-1.0, 1.0) + 1.0) * 0.5) as f32;
    match format {
        PcmFormat::I8 => PcmSample::I8((sample.clamp(-1.0, 1.0) * 127.0).round() as i8),
        PcmFormat::I16(_) => PcmSample::I16(sample.convert_to()),
        PcmFormat::I24(_) => {
            let value: i32 = sample.convert_to();
            PcmSample::I24(value >> 8)
        }
        PcmFormat::I32(_) => PcmSample::I32(sample.convert_to()),
        PcmFormat::I64(_) => PcmSample::I64((sample.clamp(-1.0, 1.0) * i64::MAX as f32).round() as i64),
        PcmFormat::U8 => PcmSample::U8(sample.convert_to()),
        PcmFormat::U16(_) => PcmSample::U16((unit * u16::MAX as f32).round() as u16),
        PcmFormat::U24(_) => PcmSample::U24(((unit * ((1u32 << 24) - 1) as f32).round() as u32) & 0xFF_FFFF),
        PcmFormat::U32(_) => PcmSample::U32((unit * u32::MAX as f32).round() as u32),
        PcmFormat::U64(_) => PcmSample::U64(
            (((sample.clamp(-1.0, 1.0) as f64 + 1.0) * 0.5) * u64::MAX as f64).round() as u64,
        ),
        PcmFormat::F32(_) => PcmSample::F32(sample.to_bits()),
        PcmFormat::F64(_) => PcmSample::F64((sample as f64).to_bits()),
        _ => unreachable!("DSD PCM conversion is not supported"),
    }
}

/// The float sample that a stored value stands for (the float decoder's scaling).
fn dequantize(sample: PcmSample) -> f32 {
    match sample {
        PcmSample::I8(v) => v as f32 / 127.0,
        PcmSample::I16(v) => v.convert_to(),
        PcmSample::I24(v) => (v << 8).convert_to(),
        PcmSample::I32(v) => v.convert_to(),
        PcmSample::I64(v) => (v as f64 / i64::MAX as f64) as f32,
        PcmSample::U8(v) => v.convert_to(),
        PcmSample::U16(v) => v as f32 / u16::MAX as f32 * 2.0 - 1.0,
        PcmSample::U24(v) => v as f32 / ((1u32 << 24) - 1) as f32 * 2.0 - 1.0,
        PcmSample::U32(v) => v as f32 / u32::MAX as f32 * 2.0 - 1.0,
        PcmSample::U64(v) => (v as f64 / u64::MAX as f64 * 2.0 - 1.0) as f32,
        PcmSample::F32(bits) => f32::from_bits(bits),
        PcmSample::F64(bits) => f64::from_bits(bits) as f32,
    }
}

fn roundtrip(format: PcmFormat) {
    let mut buf = [0u8; 8];

    for &sample in TEST_SAMPLES {
        format.write_sample(quantize(format, sample), &mut buf);

        let decoded = dequantize(format.read_sample(&buf));

        let error = (decoded - sample).abs();

        assert!(error < 0.004, "{:?}: {} -> {} (error={})", format, sample, decoded, error,);
    }
}

#[test]
fn pcm_i8() {
    roundtrip(PcmFormat::I8);
}

#[test]
fn pcm_u8() {
    roundtrip(PcmFormat::U8);
}

#[test]
fn pcm_i16_le() {
    roundtrip(PcmFormat::I16(Endianness::Little));
}

#[test]
fn pcm_i16_be() {
    roundtrip(PcmFormat::I16(Endianness::Big));
}

#[test]
fn pcm_i24_le() {
    roundtrip(PcmFormat::I24(Endianness::Little));
}

#[test]
fn pcm_i24_be() {
    roundtrip(PcmFormat::I24(Endianness::Big));
}

#[test]
fn pcm_u24_le() {
    roundtrip(PcmFormat::U24(Endianness::Little));
}

#[test]
fn pcm_u24_be() {
    roundtrip(PcmFormat::U24(Endianness::Big));
}

#[test]
fn pcm_i32_le() {
    roundtrip(PcmFormat::I32(Endianness::Little));
}

#[test]
fn pcm_i32_be() {
    roundtrip(PcmFormat::I32(Endianness::Big));
}

#[test]
fn pcm_u32_le() {
    roundtrip(PcmFormat::U32(Endianness::Little));
}

#[test]
fn pcm_u32_be() {
    roundtrip(PcmFormat::U32(Endianness::Big));
}

#[test]
fn pcm_i64_le() {
    roundtrip(PcmFormat::I64(Endianness::Little));
}

#[test]
fn pcm_i64_be() {
    roundtrip(PcmFormat::I64(Endianness::Big));
}

#[test]
fn pcm_u64_le() {
    roundtrip(PcmFormat::U64(Endianness::Little));
}

#[test]
fn pcm_u64_be() {
    roundtrip(PcmFormat::U64(Endianness::Big));
}

#[test]
fn pcm_f32_le() {
    roundtrip(PcmFormat::F32(Endianness::Little));
}

#[test]
fn pcm_f32_be() {
    roundtrip(PcmFormat::F32(Endianness::Big));
}

#[test]
fn pcm_f64_le() {
    roundtrip(PcmFormat::F64(Endianness::Little));
}

#[test]
fn pcm_f64_be() {
    roundtrip(PcmFormat::F64(Endianness::Big));
}

#[test]
fn sample_sizes() {
    assert_eq!(PcmFormat::I8.sample_size(), 1);
    assert_eq!(PcmFormat::I16(Endianness::Big).sample_size(), 2);
    assert_eq!(PcmFormat::U24(Endianness::Little).sample_size(), 3);
    assert_eq!(PcmFormat::F32(Endianness::Little).sample_size(), 4);
    assert_eq!(PcmFormat::U64(Endianness::Big).sample_size(), 8);
    assert_eq!(PcmFormat::DsdU16(Endianness::Little).sample_size(), 2);
}

#[test]
fn byte_layouts() {
    let mut buf = [0xAAu8; 5];
    PcmFormat::I16(Endianness::Little).write_sample(PcmSample::I16(-2), &mut buf);
    assert_eq!(buf, [0xFE, 0xFF, 0xAA, 0xAA, 0xAA]);
    PcmFormat::I16(Endianness::Big).write_sample(PcmSample::I16(0x1234), &mut buf);
    assert_eq!(buf, [0x12, 0x34, 0xAA, 0xAA, 0xAA]);
    PcmFormat::I24(Endianness::Little).write_sample(PcmSample::I24(-0x80_0000), &mut buf);
    assert_eq!(buf, [0x00, 0x00, 0x80, 0xAA, 0xAA]);
    PcmFormat::U24(Endianness::Big).write_sample(PcmSample::U24(0x01_02_03), &mut buf);
    assert_eq!(buf, [0x01, 0x02, 0x03, 0xAA, 0xAA]);
    PcmFormat::U32(Endianness::Little).write_sample(PcmSample::U32(0xDEADBEEF), &mut buf);
    assert_eq!(buf, [0xEF, 0xBE, 0xAD, 0xDE, 0xAA]);
    let mut wide = [0u8; 8];
    PcmFormat::I64(Endianness::Big).write_sample(PcmSample::I64(i64::MIN), &mut wide);
    assert_eq!(wide, [0x80, 0, 0, 0, 0, 0, 0, 0]);
    assert_eq!(PcmFormat::I64(Endianness::Big).read_sample(&wide), PcmSample::I64(i64::MIN));
    PcmFormat::F32(Endianness::Little).write_sample(PcmSample::F32(1.0f32.to_bits()), &mut wide);
    assert_eq!(&wide[..4], &1.0f32.to_le_bytes());
}

#[test]
fn read_sample_signs() {
    assert_eq!(PcmFormat::I8.read_sample(&[0x80]), PcmSample::I8(-128));
    assert_eq!(PcmFormat::U8.read_sample(&[0x80]), PcmSample::U8(128));
    assert_eq!(PcmFormat::I24(Endianness::Big).read_sample(&[0xFF, 0xFF, 0xFE]), PcmSample::I24(-2));
    assert_eq!(PcmFormat::I32(Endianness::Little).read_sample(&[1, 0, 0, 0x80]), PcmSample::I32(i32::MIN + 1));
    assert_eq!(
        PcmFormat::U64(Endianness::Little).read_sample(&[0xFF; 8]),
        PcmSample::U64(u64::MAX)
    );
}
