use neural_drive::encoder::{decode_address, decode_prediction, decode_predictions, encode_address};

#[test]
fn encode_gives_bits_lsb_first() {
    let bits = encode_address(5);
    assert_eq!(bits.len(), 64);
    assert_eq!(bits[0], 1);
    assert_eq!(bits[1], 0);
    assert_eq!(bits[2], 1);
    for i in 3..64 {
        assert_eq!(bits[i], 0);
    }
}

#[test]
fn encode_decode_roundtrip_zero() {
    assert_eq!(decode_address(&encode_address(0)), 0);
}

#[test]
fn encode_decode_roundtrip_small() {
    for a in 0u64..300 {
        assert_eq!(decode_address(&encode_address(a)), a);
    }
}

#[test]
fn encode_decode_roundtrip_large() {
    for &a in &[
        0xDEAD_BEEF_u64,
        1 << 63,
        u64::MAX,
        u64::MAX - 1,
        0x0123_4567_89AB_CDEF,
    ] {
        assert_eq!(decode_address(&encode_address(a)), a);
    }
}

#[test]
fn clamp_negative_to_zero() {
    assert_eq!(decode_prediction(-5), 0);
    assert_eq!(decode_prediction(i64::MIN), 0);
}

#[test]
fn clamp_overflow_to_255() {
    assert_eq!(decode_prediction(300), 255);
    assert_eq!(decode_prediction(i64::MAX), 255);
}

#[test]
fn clamp_in_range_is_identity() {
    assert_eq!(decode_prediction(0), 0);
    assert_eq!(decode_prediction(127), 127);
    assert_eq!(decode_prediction(255), 255);
}

#[test]
fn decode_predictions_keeps_order() {
    let raw = vec![-3i64, 0, 42, 300, 255];
    let out = decode_predictions(&raw);
    assert_eq!(out, vec![0u8, 0, 42, 255, 255]);
}
