use netpacket::bits::{split_bits, split_flags_offset, split_nibble};

#[test]
fn split_nibble_takes_high_and_low_four_bits() {
    assert_eq!(split_nibble(0x45), (4, 5));
    assert_eq!(split_nibble(0x00), (0, 0));
    assert_eq!(split_nibble(0xff), (15, 15));
    assert_eq!(split_nibble(0x6a), (6, 10));
}

#[test]
fn split_nibble_joins_back_for_every_byte() {
    for byte in 0..=255u8 {
        let (high, low) = split_nibble(byte);
        assert!(high < 16 && low < 16);
        assert_eq!((high << 4) | low, byte);
    }
}

#[test]
fn split_bits_cuts_dscp_from_ecn() {
    assert_eq!(split_bits(0b1011_1001, 6), (0b10_1110, 0b01));
    assert_eq!(split_bits(0xff, 6), (63, 3));
    assert_eq!(split_bits(0x02, 6), (0, 2));
    assert_eq!(split_bits(0x00, 6), (0, 0));
}

#[test]
fn split_bits_at_the_edges() {
    assert_eq!(split_bits(0xa7, 0), (0, 0xa7));
    assert_eq!(split_bits(0xa7, 8), (0xa7, 0));
    assert_eq!(split_bits(0xa7, 9), (0xa7, 0));
    assert_eq!(split_bits(0xa7, 255), (0xa7, 0));
    assert_eq!(split_bits(0xa7, 1), (1, 0x27));
    assert_eq!(split_bits(0xa7, 7), (0x53, 1));
}

#[test]
fn split_bits_in_the_middle_is_split_nibble() {
    for byte in 0..=255u8 {
        assert_eq!(split_bits(byte, 4), split_nibble(byte));
    }
}

#[test]
fn split_bits_parts_put_the_byte_together() {
    for byte in 0..=255u8 {
        for at in 0..=8u8 {
            let (high, low) = split_bits(byte, at);
            let width = 8 - at as u32;
            assert!((low as u32) < (1u32 << width));
            assert_eq!(((high as u32) << width) + low as u32, byte as u32);
        }
    }
}

#[test]
fn split_flags_offset_takes_three_and_thirteen_bits() {
    assert_eq!(split_flags_offset(0x4000), (2, 0));
    assert_eq!(split_flags_offset(0x2000), (1, 0));
    assert_eq!(split_flags_offset(0x8000), (4, 0));
    assert_eq!(split_flags_offset(0x1fff), (0, 0x1fff));
    assert_eq!(split_flags_offset(0xffff), (7, 0x1fff));
    assert_eq!(split_flags_offset(0x20b9), (1, 185));
    assert_eq!(split_flags_offset(0), (0, 0));
}

#[test]
fn split_flags_offset_joins_back_for_every_word() {
    for word in 0..=u16::MAX {
        let (flags, offset) = split_flags_offset(word);
        assert!(flags < 8 && offset < 0x2000);
        assert_eq!(((flags as u16) << 13) | offset, word);
    }
}
