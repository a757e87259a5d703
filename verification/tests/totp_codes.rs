use zappka_esp::{
    calculate_totp, counter_message, extract_int_from_bytes, hex_to_bytes, hotp, totp_at,
    truncate_digest, CODE_MODULUS,
};

fn rfc_key() -> [u8; 32] {
    // The RFC 6238 SHA-1 seed, zero padded: HMAC pads short keys with zeros.
    let mut key = [0u8; 32];
    key[..20].copy_from_slice(b"12345678901234567890");
    key
}

#[test]
fn hex_decodes_pairs_high_nibble_first() {
    let key = hex_to_bytes("00ff10Ab7c");
    assert_eq!(&key[..5], &[0x00, 0xff, 0x10, 0xab, 0x7c]);
    assert!(key[5..].iter().all(|b| *b == 0));
}

#[test]
fn hex_missing_last_digit_counts_as_zero() {
    let key = hex_to_bytes("abc");
    assert_eq!(&key[..3], &[0xab, 0xc0, 0x00]);
}

#[test]
fn hex_treats_other_characters_as_zero() {
    let key = hex_to_bytes("zz1g-F");
    assert_eq!(&key[..3], &[0x00, 0x10, 0x0f]);
}

#[test]
fn hex_stops_after_thirty_two_bytes() {
    let text = "11".repeat(40);
    let key = hex_to_bytes(&text);
    assert_eq!(key, [0x11u8; 32]);
}

#[test]
fn hex_of_empty_text_is_zero_key() {
    assert_eq!(hex_to_bytes(""), [0u8; 32]);
}

#[test]
fn hex_roundtrip_of_a_key() {
    let bytes: Vec<u8> = (0..32u8).map(|i| i.wrapping_mul(37).wrapping_add(5)).collect();
    let text: String = bytes.iter().map(|b| format!("{:02x}", b)).collect();
    let key = hex_to_bytes(&text);
    assert_eq!(&key[..], &bytes[..]);
}

#[test]
fn extract_reads_big_endian_word() {
    let arr = [0xaa, 0x12, 0x34, 0x56, 0x78, 0xbb];
    assert_eq!(extract_int_from_bytes(&arr, 1), 0x1234_5678);
    assert_eq!(extract_int_from_bytes(&arr, 2), 0x3456_78bb);
}

#[test]
fn counter_message_is_big_endian() {
    assert_eq!(counter_message(1), [0, 0, 0, 0, 0, 0, 0, 1]);
    assert_eq!(counter_message(0x0102_0304_0506_0708), [1, 2, 3, 4, 5, 6, 7, 8]);
}

#[test]
fn counter_message_reads_back() {
    for c in [0u64, 1, 59, 0xdead_beef_cafe_f00d, u64::MAX] {
        assert_eq!(u64::from_be_bytes(counter_message(c)), c);
    }
}

#[test]
fn truncation_of_rfc4226_digest() {
    let digest: [u8; 20] = [
        0x1f, 0x86, 0x98, 0x69, 0x0e, 0x02, 0xca, 0x16, 0x61, 0x85, 0x50, 0xef, 0x7f, 0x19, 0xda,
        0x8e, 0x94, 0x5b, 0x55, 0x5a,
    ];
    assert_eq!(truncate_digest(&digest), 872921);
}

#[test]
fn truncation_drops_top_bit() {
    let mut digest = [0xffu8; 20];
    digest[19] = 0xf0;
    // offset 0: word 0xffffffff, masked 0x7fffffff = 2147483647
    assert_eq!(truncate_digest(&digest), 483647);
}

#[test]
fn hotp_matches_rfc4226_vectors() {
    let expected = [755224, 287082, 359152, 969429, 338314, 254676, 287922, 162583, 399871, 520489];
    for (c, want) in expected.iter().enumerate() {
        assert_eq!(hotp(&rfc_key(), c as u64), *want);
    }
}

#[test]
fn totp_matches_rfc6238_vectors() {
    let key = rfc_key();
    assert_eq!(totp_at(&key, 59), 287082);
    assert_eq!(totp_at(&key, 1111111109), 81804);
    assert_eq!(totp_at(&key, 1111111111), 50471);
    assert_eq!(totp_at(&key, 1234567890), 5924);
    assert_eq!(totp_at(&key, 2000000000), 279037);
}

#[test]
fn totp_of_a_full_length_key() {
    let key: [u8; 32] = core::array::from_fn(|i| i as u8);
    assert_eq!(totp_at(&key, 0), 414783);
    assert_eq!(totp_at(&key, 150), 903460);
}

#[test]
fn totp_is_constant_within_a_window() {
    let key = rfc_key();
    assert_eq!(totp_at(&key, 60), totp_at(&key, 89));
    assert_eq!(totp_at(&key, 1111111110), totp_at(&key, 1111111139));
}

#[test]
fn current_totp_has_six_digits() {
    let code = calculate_totp(&rfc_key()).expect("the clock reads after the epoch");
    assert!(code < CODE_MODULUS);
}
