use ttl_backend::payload::{decode_i128, decode_u64};

#[test]
fn decode_u64_rejects_short_payloads() {
    assert_eq!(decode_u64(&[]), Err(()));
    assert_eq!(decode_u64(&[1, 2, 3, 4, 5, 6, 7]), Err(()));
}

#[test]
fn decode_u64_reads_little_endian() {
    assert_eq!(decode_u64(&[1, 2, 0, 0, 0, 0, 0, 0]), Ok(513));
    assert_eq!(decode_u64(&[0xff; 8]), Ok(u64::MAX));
    assert_eq!(decode_u64(&7_200u64.to_le_bytes()), Ok(7_200));
    let value = 0x0123_4567_89ab_cdefu64;
    assert_eq!(decode_u64(&value.to_le_bytes()), Ok(value));
}

#[test]
fn decode_u64_ignores_bytes_past_the_eighth() {
    let mut payload = 42u64.to_le_bytes().to_vec();
    payload.extend_from_slice(&[9, 9, 9, 9]);
    assert_eq!(decode_u64(&payload), Ok(42));
}

#[test]
fn decode_i128_rejects_short_payloads() {
    assert_eq!(decode_i128(&[]), Err(()));
    assert_eq!(decode_i128(&[0u8; 15]), Err(()));
    assert_eq!(decode_i128(&500u64.to_le_bytes()), Err(()));
}

#[test]
fn decode_i128_reads_a_withdrawal_amount() {
    let payload = 500i128.to_le_bytes();
    assert_eq!(decode_i128(&payload), Ok(500));
}

#[test]
fn decode_i128_reads_twos_complement() {
    assert_eq!(decode_i128(&[0xff; 16]), Ok(-1));
    assert_eq!(decode_i128(&i128::MIN.to_le_bytes()), Ok(i128::MIN));
    assert_eq!(decode_i128(&i128::MAX.to_le_bytes()), Ok(i128::MAX));
    assert_eq!(decode_i128(&(-1_000_000i128).to_le_bytes()), Ok(-1_000_000));
    assert_eq!(decode_i128(&0i128.to_le_bytes()), Ok(0));
}

#[test]
fn decode_i128_ignores_bytes_past_the_sixteenth() {
    let mut payload = (-77i128).to_le_bytes().to_vec();
    payload.push(1);
    payload.push(2);
    assert_eq!(decode_i128(&payload), Ok(-77));
}

#[test]
fn decoders_agree_with_std_on_many_values() {
    let mut x: u64 = 0x9e37_79b9_7f4a_7c15;
    for _ in 0..200 {
        x = x.wrapping_mul(6364136223846793005).wrapping_add(1442695040888963407);
        assert_eq!(decode_u64(&x.to_le_bytes()), Ok(x));
        let wide = ((x as i128) << 64) ^ (x.rotate_left(17) as i128);
        assert_eq!(decode_i128(&wide.to_le_bytes()), Ok(wide));
    }
}

#[test]
fn decoding_inverts_to_le_bytes_whatever_follows() {
    for tail in [&[][..], &[0u8][..], &[0xff, 1, 2, 3, 4, 5, 6, 7, 8, 9][..]] {
        for x in [0u64, 1, 255, 256, 7_200, u64::MAX, u64::MAX / 3] {
            assert_eq!(decode_u64(&[&x.to_le_bytes()[..], tail].concat()), Ok(x));
        }
        for x in [0i128, -1, 500, -500, i128::MIN, i128::MAX, i128::MIN + 1] {
            assert_eq!(decode_i128(&[&x.to_le_bytes()[..], tail].concat()), Ok(x));
        }
    }
}
