use mojentic::codec::{decode_base64_pcm16, encode_base64_pcm16, encode_base64_pcm16_bytes, CodecError};

#[test]
fn round_trip_pcm16() {
    let original: Vec<i16> = vec![0, 1, -1, 32_767, -32_768, 12_345];
    let encoded = encode_base64_pcm16(&original);
    let decoded = decode_base64_pcm16(&encoded).unwrap();
    assert_eq!(decoded, original);
}

#[test]
fn round_trip_pcm16_bytes() {
    let samples: Vec<i16> = vec![10, -10, 20, -20];
    let bytes: Vec<u8> = samples.iter().flat_map(|s| s.to_le_bytes()).collect();

    let encoded = encode_base64_pcm16_bytes(&bytes);
    let decoded = decode_base64_pcm16(&encoded).unwrap();

    assert_eq!(decoded, samples);
}

#[test]
fn pcm16_is_little_endian_base64() {
    assert_eq!(encode_base64_pcm16(&[1, -2]), "AQD+/w==");
    assert_eq!(decode_base64_pcm16("AQD+/w==").unwrap(), vec![1, -2]);
}

#[test]
fn trailing_odd_byte_is_ignored() {
    // three bytes: 0x01 0x00 0x07
    assert_eq!(decode_base64_pcm16("AQAH").unwrap(), vec![1]);
}

#[test]
fn invalid_base64_is_refused() {
    assert!(matches!(decode_base64_pcm16("not base64!"), Err(CodecError::InvalidBase64(_))));
}
