use udppp::utils::checksum::{calculate_checksum, verify_checksum};

#[test]
fn checksum_of_empty_is_zero() {
    assert_eq!(calculate_checksum(&[]), 0);
}

#[test]
fn checksum_adds_bytes() {
    assert_eq!(calculate_checksum(&[1, 2, 3]), 6);
    assert_eq!(calculate_checksum(b"Fizz"), 70 + 105 + 122 + 122);
}

#[test]
fn checksum_wraps_at_32_bits() {
    // 16_843_010 bytes of 255 add up to 2^32 + 254.
    let data = vec![255u8; 16_843_010];
    assert_eq!(calculate_checksum(&data), 254);
}

#[test]
fn verify_checksum_compares() {
    assert!(verify_checksum(&[10, 20], 30));
    assert!(!verify_checksum(&[10, 20], 31));
    assert!(verify_checksum(&[], 0));
}
