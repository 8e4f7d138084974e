use eva_core::audio::{AudioError, AudioPlayer};

#[test]
fn test_bytes_to_samples() {
    let player = AudioPlayer::new();

    // Test data: 4 bytes = 2 samples
    let bytes = vec![0x00, 0x00, 0xFF, 0x7F]; // [0, 32767]
    let raw = player.bytes_to_samples(&bytes);
    let samples: Vec<f32> = raw.iter().map(|s| *s as f32 / i16::MAX as f32).collect();

    assert_eq!(samples.len(), 2);
    assert_eq!(samples[0], 0.0);
    assert!((samples[1] - 1.0).abs() < 0.01);
}

#[test]
fn test_bytes_to_samples_odd_length() {
    let player = AudioPlayer::new();

    // Test data: 5 bytes (odd) - should not panic, truncate to 4
    let bytes = vec![0x00, 0x00, 0xFF, 0x7F, 0xAB];
    let samples = player.bytes_to_samples(&bytes);

    assert_eq!(samples.len(), 2); // Only 2 samples from 4 valid bytes
}

#[test]
fn test_bytes_to_samples_empty() {
    let player = AudioPlayer::new();

    // Empty input
    let samples = player.bytes_to_samples(&[]);
    assert!(samples.is_empty());

    // Single byte (odd, truncates to 0)
    let samples = player.bytes_to_samples(&[0x00]);
    assert!(samples.is_empty());
}

#[test]
fn test_bytes_to_samples_negative_sample() {
    let player = AudioPlayer::new();
    // 0x8000 little-endian is the most negative 16-bit sample.
    let samples = player.bytes_to_samples(&[0x00, 0x80]);
    assert_eq!(samples, vec![i16::MIN]);
}

#[test]
fn test_decode_response_decodes_base64() {
    let player = AudioPlayer::new();
    // "AAD/fw==" is the base64 of [0x00, 0x00, 0xFF, 0x7F].
    let samples = player.decode_response("AAD/fw==").unwrap();
    assert_eq!(samples, vec![0, 32767]);
}

#[test]
fn test_decode_response_rejects_bad_base64() {
    let player = AudioPlayer::new();
    let result = player.decode_response("!!!not base64!!!");
    assert_eq!(result.unwrap_err(), AudioError::InvalidBase64);
}
