use netpacket::checksum::{checksum, compute, fold, sum_words, verify, PseudoHeader};

const TCP_SEGMENT: [u8; 20] = [
    0x04, 0xd2, 0x00, 0x50, 0, 0, 0, 1, 0, 0, 0, 0, 0x50, 0x02, 0xff, 0xff, 0, 0, 0, 0,
];

const TCP_PSEUDO: PseudoHeader =
    PseudoHeader::V4 { src_ip: 0xc000_0201, dst_ip: 0xc000_0202, protocol: 6, length: 20 };

const V6_SRC: u128 = 0x2001_0db8_0000_0000_0000_0000_0000_0001;
const V6_DST: u128 = 0x2001_0db8_0000_0000_0000_0000_0000_0002;

#[test]
fn sum_words_adds_big_endian_words() {
    assert_eq!(sum_words(&[]), 0);
    assert_eq!(sum_words(&[0x12, 0x34]), 0x1234);
    assert_eq!(sum_words(&[0x00, 0x01, 0xf2, 0x03, 0xf4, 0xf5, 0xf6, 0xf7]), 0x2ddf0);
    assert_eq!(sum_words(&[0xff, 0xff, 0xff, 0xff, 0xff, 0xff]), 0x2fffd);
}

#[test]
fn sum_words_pads_an_odd_last_byte_with_zero() {
    assert_eq!(sum_words(&[0x12]), 0x1200);
    assert_eq!(sum_words(&[1, 2, 3]), 0x0102 + 0x0300);
}

#[test]
fn fold_adds_carries_back_in() {
    assert_eq!(fold(0), 0);
    assert_eq!(fold(0x1234), 0x1234);
    assert_eq!(fold(0xffff), 0xffff);
    assert_eq!(fold(0x1_0000), 1);
    assert_eq!(fold(0x1_ffff), 1);
    assert_eq!(fold(0x2_ddf0), 0xddf2);
    assert_eq!(fold(0x2_fffe), 1);
    assert_eq!(fold(0xffff_ffff), 0xffff);
    assert_eq!(fold(u128::MAX), 0xffff);
}

#[test]
fn checksum_is_the_complement_of_the_folded_sum() {
    assert_eq!(checksum(&[0x00, 0x01, 0xf2, 0x03, 0xf4, 0xf5, 0xf6, 0xf7]), 0x220d);
    assert_eq!(checksum(&[]), 0xffff);
    assert_eq!(checksum(&[0xff, 0xff]), 0);
    assert_eq!(checksum(&[0x12]), 0xedff);
    assert_eq!(checksum(&[0xff]), 0x00ff);
}

#[test]
fn pseudo_header_bytes_over_ipv4() {
    assert_eq!(TCP_PSEUDO.to_bytes(), vec![192, 0, 2, 1, 192, 0, 2, 2, 0, 6, 0, 20]);
    let udp = PseudoHeader::V4 { src_ip: 0x0a00_0001, dst_ip: 0x0a00_0002, protocol: 17, length: 0x1234 };
    assert_eq!(udp.to_bytes(), vec![10, 0, 0, 1, 10, 0, 0, 2, 0, 17, 0x12, 0x34]);
}

#[test]
fn pseudo_header_bytes_over_ipv6() {
    let pseudo =
        PseudoHeader::V6 { src_ip: V6_SRC, dst_ip: V6_DST, length: 0x0102_0304, next_header: 6 };
    let mut expected = vec![0x20, 0x01, 0x0d, 0xb8, 0, 0, 0, 0, 0, 0, 0, 0, 0, 0, 0, 1];
    expected.extend_from_slice(&[0x20, 0x01, 0x0d, 0xb8, 0, 0, 0, 0, 0, 0, 0, 0, 0, 0, 0, 2]);
    expected.extend_from_slice(&[1, 2, 3, 4, 0, 0, 0, 6]);
    assert_eq!(pseudo.to_bytes(), expected);
}

#[test]
fn pseudo_header_bytes_of_icmpv6_name_58() {
    let pseudo = PseudoHeader::Icmpv6 { src_ip: V6_SRC, dst_ip: V6_DST, length: 8 };
    let bytes = pseudo.to_bytes();
    assert_eq!(bytes.len(), 40);
    assert_eq!(&bytes[32..], &[0, 0, 0, 8, 0, 0, 0, 58]);
    let same = PseudoHeader::V6 { src_ip: V6_SRC, dst_ip: V6_DST, length: 8, next_header: 58 };
    assert_eq!(bytes, same.to_bytes());
}

#[test]
fn compute_gives_the_known_tcp_checksum() {
    assert_eq!(compute(&TCP_PSEUDO, &TCP_SEGMENT), 0x26bc);
}

#[test]
fn computed_checksum_put_in_place_verifies() {
    let sum = compute(&TCP_PSEUDO, &TCP_SEGMENT);
    let mut segment = TCP_SEGMENT;
    assert!(!verify(&TCP_PSEUDO, &segment));
    segment[16] = (sum >> 8) as u8;
    segment[17] = (sum & 0xff) as u8;
    assert!(verify(&TCP_PSEUDO, &segment));
}

#[test]
fn verify_fails_on_a_flipped_bit() {
    let mut segment = TCP_SEGMENT;
    segment[16] = 0x26;
    segment[17] = 0xbc;
    assert!(verify(&TCP_PSEUDO, &segment));
    segment[5] ^= 0x01;
    assert!(!verify(&TCP_PSEUDO, &segment));
}

#[test]
fn verify_fails_under_another_pseudo_header() {
    let mut segment = TCP_SEGMENT;
    segment[16] = 0x26;
    segment[17] = 0xbc;
    let other =
        PseudoHeader::V4 { src_ip: 0xc000_0201, dst_ip: 0xc000_0203, protocol: 6, length: 20 };
    assert!(!verify(&other, &segment));
    let udp =
        PseudoHeader::V4 { src_ip: 0xc000_0201, dst_ip: 0xc000_0202, protocol: 17, length: 20 };
    assert!(!verify(&udp, &segment));
}

#[test]
fn compute_pads_an_odd_segment() {
    let pseudo =
        PseudoHeader::V4 { src_ip: 0x0a00_0001, dst_ip: 0x0a00_0002, protocol: 17, length: 11 };
    let mut segment = [0x30, 0x39, 0x00, 0x35, 0x00, 0x0b, 0, 0, 0x61, 0x62, 0x63];
    assert_eq!(compute(&pseudo, &segment), 0xf704);
    segment[6] = 0xf7;
    segment[7] = 0x04;
    assert!(verify(&pseudo, &segment));
    assert_eq!(segment.len(), 11);
}

#[test]
fn compute_over_ipv6() {
    let pseudo = PseudoHeader::V6 { src_ip: V6_SRC, dst_ip: V6_DST, length: 11, next_header: 17 };
    let mut segment = [0x30, 0x39, 0x00, 0x35, 0x00, 0x0b, 0, 0, 0x61, 0x62, 0x63];
    assert_eq!(compute(&pseudo, &segment), 0xaf92);
    segment[6] = 0xaf;
    segment[7] = 0x92;
    assert!(verify(&pseudo, &segment));
}

#[test]
fn compute_for_icmpv6() {
    let pseudo = PseudoHeader::Icmpv6 { src_ip: V6_SRC, dst_ip: V6_DST, length: 8 };
    let mut message = [128, 0, 0, 0, 0x12, 0x34, 0x00, 0x01];
    assert_eq!(compute(&pseudo, &message), 0x1213);
    message[2] = 0x12;
    message[3] = 0x13;
    assert!(verify(&pseudo, &message));
}

#[test]
fn compute_of_an_empty_segment_sums_the_pseudo_header_alone() {
    let pseudo = PseudoHeader::V4 { src_ip: 0, dst_ip: 0, protocol: 0, length: 0 };
    assert_eq!(compute(&pseudo, &[]), 0xffff);
    assert!(!verify(&pseudo, &[]));
    assert!(verify(&pseudo, &[0xff, 0xff]));
}
