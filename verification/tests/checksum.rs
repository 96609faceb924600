use woff2::checksum::{
    calculate_checksum, calculate_font_checksum_adjustment, set_checksum_adjustment,
    ChecksumError,
};

#[test]
fn checksum_of_nothing_is_zero() {
    assert_eq!(calculate_checksum(&[]), 0);
}

#[test]
fn checksum_sums_big_endian_words() {
    assert_eq!(calculate_checksum(&[0, 0, 0, 1, 0, 0, 0, 2]), 3);
    assert_eq!(calculate_checksum(&[0x12, 0x34, 0x56, 0x78]), 0x12345678);
}

#[test]
fn checksum_wraps() {
    assert_eq!(calculate_checksum(&[0xFF, 0xFF, 0xFF, 0xFF, 0, 0, 0, 2]), 1);
}

#[test]
fn checksum_pads_the_tail_with_zeros() {
    assert_eq!(calculate_checksum(&[1]), 0x0100_0000);
    assert_eq!(calculate_checksum(&[1, 2]), 0x0102_0000);
    assert_eq!(calculate_checksum(&[1, 2, 3]), 0x0102_0300);
    assert_eq!(calculate_checksum(&[0, 0, 0, 5, 1, 2, 3]), 0x0102_0305);
}

#[test]
fn checksum_ignores_zero_padding() {
    let b = [9u8, 8, 7, 6, 5];
    let padded = [9u8, 8, 7, 6, 5, 0, 0, 0];
    assert_eq!(calculate_checksum(&b), calculate_checksum(&padded));
}

#[test]
fn checksum_ignores_order_of_aligned_blocks() {
    let ab = [1u8, 2, 3, 4, 5, 6, 7, 8, 9, 10, 11, 12];
    let ba = [5u8, 6, 7, 8, 9, 10, 11, 12, 1, 2, 3, 4];
    assert_eq!(calculate_checksum(&ab), calculate_checksum(&ba));
    assert_eq!(
        calculate_font_checksum_adjustment(&ab),
        calculate_font_checksum_adjustment(&ba)
    );
}

#[test]
fn adjustment_is_minuend_less_checksum() {
    assert_eq!(calculate_font_checksum_adjustment(&[]), 0xB1B0AFBA);
    assert_eq!(calculate_font_checksum_adjustment(&[0, 0, 0, 1]), 0xB1B0AFB9);
    assert_eq!(
        calculate_font_checksum_adjustment(&[0xB1, 0xB0, 0xAF, 0xBB]),
        0xFFFF_FFFF
    );
}

#[test]
fn adjusted_font_sums_to_minuend() {
    let mut font = vec![0u8; 24];
    for (i, b) in font.iter_mut().enumerate() {
        *b = (i * 37 + 11) as u8;
    }
    for b in &mut font[8..12] {
        *b = 0;
    }
    let adjustment = calculate_font_checksum_adjustment(&font);
    set_checksum_adjustment(&mut font, adjustment).unwrap();
    assert_eq!(calculate_checksum(&font), 0xB1B0AFBA);
}

#[test]
fn set_checksum_adjustment_writes_bytes_8_to_11() {
    let mut head = vec![0xAAu8; 14];
    assert_eq!(set_checksum_adjustment(&mut head, 0x01020304), Ok(()));
    assert_eq!(
        head,
        vec![0xAA, 0xAA, 0xAA, 0xAA, 0xAA, 0xAA, 0xAA, 0xAA, 1, 2, 3, 4, 0xAA, 0xAA]
    );
}

#[test]
fn set_checksum_adjustment_rejects_short_head() {
    let mut head = vec![0xAAu8; 11];
    assert_eq!(
        set_checksum_adjustment(&mut head, 1),
        Err(ChecksumError::Truncated)
    );
    assert_eq!(head, vec![0xAAu8; 11]);
    assert_eq!(ChecksumError::Truncated.message(), "Truncated `head` table");
}
