use falcon_rust::codec::{decode, DecodeError};

#[test]
fn decode_two_coefficients() {
    // 1 = 0 0000001 1, -130 = 1 0000010 01, then five zero padding bits.
    assert_eq!(decode(&[0x01, 0xC1, 0x20], 2), Ok(vec![1i16, -130]));
}

#[test]
fn decode_largest_magnitude() {
    // 0 1111111, fifteen zeros, then the terminating one.
    assert_eq!(decode(&[0x7F, 0x00, 0x01], 1), Ok(vec![2047i16]));
    assert_eq!(decode(&[0xFF, 0x00, 0x01], 1), Ok(vec![-2047i16]));
}

#[test]
fn decode_rejects_magnitude_above_ceiling() {
    // Sixteen zeros before the terminating one: magnitude 2048 or more.
    assert_eq!(decode(&[0x00, 0x00, 0x00, 0x80], 1), Err(DecodeError::Malformed));
}

#[test]
fn decode_rejects_truncated_input() {
    assert_eq!(decode(&[0x01], 2), Err(DecodeError::Malformed));
    assert_eq!(decode(&[], 1), Err(DecodeError::Malformed));
    // The unary part never terminates.
    assert_eq!(decode(&[0x01, 0x00], 1), Err(DecodeError::Malformed));
}

#[test]
fn decode_rejects_nonzero_padding() {
    assert_eq!(decode(&[0x01, 0xC1, 0x21], 2), Err(DecodeError::Malformed));
    assert_eq!(decode(&[0x01, 0xC1, 0x20, 0x01], 2), Err(DecodeError::Malformed));
}

#[test]
fn decode_accepts_zero_padding_and_empty() {
    assert_eq!(decode(&[0x01, 0xC1, 0x20, 0x00, 0x00], 2), Ok(vec![1i16, -130]));
    assert_eq!(decode(&[], 0), Ok(vec![]));
    assert_eq!(decode(&[0x00, 0x00], 0), Ok(vec![]));
}

#[test]
fn decode_failure_is_stable_on_retry() {
    let bytes = vec![0x01u8, 0xC1, 0x21];
    let first = decode(&bytes, 2);
    for _ in 0..10 {
        assert_eq!(decode(&bytes, 2), first);
    }
    assert_eq!(first, Err(DecodeError::Malformed));
}
