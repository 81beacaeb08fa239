use libereco::convert::{base64_to_pcm16, pcm16_from_le_byte_pairs, pcm16_to_base64, pcm16_to_le_byte_pairs, Pcm16DecodeError};

#[test]
fn pcm16_base64_roundtrip() {
    let samples: Vec<i16> = vec![0, 1, -1, i16::MAX, i16::MIN, 1234, -4321];
    let text = pcm16_to_base64(&samples);
    assert_eq!(base64_to_pcm16(&text).unwrap(), samples);
}

#[test]
fn pcm16_to_base64_known_value() {
    // [1, -1] -> bytes 01 00 FF FF -> "AQD//w=="
    assert_eq!(pcm16_to_base64(&[1, -1]), "AQD//w==");
    assert_eq!(pcm16_to_base64(&[]), "");
}

#[test]
fn base64_to_pcm16_known_value() {
    assert_eq!(base64_to_pcm16("AQD//w==").unwrap(), vec![1, -1]);
    assert_eq!(base64_to_pcm16("").unwrap(), Vec::<i16>::new());
}

#[test]
fn base64_to_pcm16_odd_byte_count() {
    // "AQD/" decodes to three bytes.
    assert!(matches!(base64_to_pcm16("AQD/"), Err(Pcm16DecodeError::OddByteCount)));
}

#[test]
fn base64_to_pcm16_invalid_text() {
    assert!(matches!(base64_to_pcm16("not base64!"), Err(Pcm16DecodeError::Base64(_))));
}

#[test]
fn byte_pairs_are_little_endian() {
    assert_eq!(pcm16_to_le_byte_pairs(&[0x1234, -2]), vec![0x34, 0x12, 0xFE, 0xFF]);
    assert_eq!(pcm16_from_le_byte_pairs(&[0x34, 0x12, 0x00, 0x80]).unwrap(), vec![0x1234, i16::MIN]);
    assert!(matches!(pcm16_from_le_byte_pairs(&[1, 2, 3]), Err(Pcm16DecodeError::OddByteCount)));
}
