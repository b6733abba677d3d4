use delta_2a_lidar::crc::CRC;

#[test]
fn checksum_of_header_and_length() {
    assert_eq!(0xB3, CRC::from_bytes(&[0xAA, 0x00, 0x09]).as_u16());
}

#[test]
fn checksum_of_nothing_is_zero() {
    assert_eq!(0, CRC::from_bytes(&[]).as_u16());
    assert_eq!(CRC::new(0), CRC::from_bytes(&[]));
}

#[test]
fn new_holds_the_byte() {
    assert_eq!(0xAA, CRC::new(0xAA).as_u16());
    assert_eq!(CRC::from_u16(0x00AA), CRC::new(0xAA));
}

#[test]
fn from_u16_holds_the_value() {
    assert_eq!(0xBEEF, CRC::from_u16(0xBEEF).as_u16());
}

#[test]
fn calculate_next_adds_the_byte() {
    assert_eq!(CRC::from_u16(0x010E), CRC::from_u16(0xAD).calculate_next(0x61));
    assert_eq!(CRC::from_u16(0x0208), CRC::from_u16(0x010E).calculate_next(0xFA));
}

#[test]
fn calculate_next_wraps_at_sixteen_bits() {
    assert_eq!(CRC::from_u16(0x0000), CRC::from_u16(0xFFFF).calculate_next(0x01));
    assert_eq!(CRC::from_u16(0x00FE), CRC::from_u16(0xFFFF).calculate_next(0xFF));
    assert_eq!(CRC::from_u16(0xFFFF), CRC::from_u16(0xFF00).calculate_next(0xFF));
}

#[test]
fn from_bytes_wraps_at_sixteen_bits() {
    // 258 bytes of 0xFF sum to 65790 = 0x100FE.
    assert_eq!(0x00FE, CRC::from_bytes(&[0xFF; 258]).as_u16());
}

#[test]
fn from_bytes_is_a_fold_of_calculate_next() {
    let bytes = [0x12, 0xFE, 0x00, 0x80, 0x7F];
    let folded = bytes.iter().fold(CRC::new(0), |acc, byte| acc.calculate_next(*byte));
    assert_eq!(folded, CRC::from_bytes(&bytes));
    assert_eq!(0x020F, folded.as_u16());
}
