use netpacket::checksum::compute;
use netpacket::error::DecodeError;
use netpacket::ipv4::Ipv4Packet;
use netpacket::ipv6::Ipv6Packet;
use netpacket::packet::Packet;

const SRC: u128 = 0x2001_0db8_0000_0000_0000_0000_0000_0001;
const DST: u128 = 0x2001_0db8_0000_0000_0000_0000_0000_0002;

/// An IPv4 datagram that carries a TCP segment with the right checksum.
fn tcp_over_ipv4() -> Vec<u8> {
    let mut datagram = vec![
        0x45, 0, 0, 40, 0x1c, 0x46, 0x40, 0x00, 64, 6, 0x9a, 0x86, 192, 0, 2, 1, 192, 0, 2, 2,
    ];
    datagram.extend_from_slice(&[
        0x04, 0xd2, 0x00, 0x50, 0, 0, 0, 1, 0, 0, 0, 0, 0x50, 0x02, 0xff, 0xff, 0x26, 0xbc, 0, 0,
    ]);
    datagram
}

/// An IPv4 datagram that carries a UDP datagram of odd length with the right
/// checksum.
fn udp_over_ipv4() -> Vec<u8> {
    let mut datagram =
        vec![0x45, 0, 0, 31, 0, 0, 0, 0, 64, 17, 0, 0, 10, 0, 0, 1, 10, 0, 0, 2];
    datagram.extend_from_slice(&[0x30, 0x39, 0x00, 0x35, 0x00, 0x0b, 0xf7, 0x04, 0x61, 0x62, 0x63]);
    datagram
}

/// An IPv6 datagram with the given next header and payload.
fn over_ipv6(next_header: u8, payload: &[u8]) -> Vec<u8> {
    let mut datagram = vec![0x60, 0, 0, 0, 0, payload.len() as u8, next_header, 64];
    datagram.extend_from_slice(&SRC.to_be_bytes());
    datagram.extend_from_slice(&DST.to_be_bytes());
    datagram.extend_from_slice(payload);
    datagram
}

#[test]
fn packet_version_four_decodes_as_ipv4() {
    let datagram = tcp_over_ipv4();
    let packet = Packet::from_bytes(&datagram).unwrap();
    assert_eq!(packet, Packet::V4(Ipv4Packet::from_bytes(&datagram).unwrap()));
    match packet {
        Packet::V4(inner) => assert_eq!(inner.protocol(), 6),
        Packet::V6(_) => panic!("decoded as IPv6"),
    }
}

#[test]
fn packet_version_six_decodes_as_ipv6() {
    let datagram = over_ipv6(59, &[]);
    let packet = Packet::from_bytes(&datagram).unwrap();
    assert_eq!(packet, Packet::V6(Ipv6Packet::from_bytes(&datagram).unwrap()));
    match packet {
        Packet::V6(inner) => assert_eq!(inner.next_header(), 59),
        Packet::V4(_) => panic!("decoded as IPv4"),
    }
}

#[test]
fn packet_version_seven_is_unsupported() {
    let mut datagram = tcp_over_ipv4();
    datagram[0] = 0x75;
    assert_eq!(Packet::from_bytes(&datagram), Err(DecodeError::UnsupportedVersion(7)));
    assert_eq!(Packet::from_bytes(&[0x70]), Err(DecodeError::UnsupportedVersion(7)));
}

#[test]
fn packet_every_other_version_is_unsupported() {
    for version in 0..16u8 {
        if version == 4 || version == 6 {
            continue;
        }
        let mut datagram = tcp_over_ipv4();
        datagram[0] = version << 4 | 5;
        assert_eq!(Packet::from_bytes(&datagram), Err(DecodeError::UnsupportedVersion(version)));
    }
}

#[test]
fn packet_empty_buffer_is_truncated() {
    assert_eq!(Packet::from_bytes(&[]), Err(DecodeError::Truncated { needed: 1, available: 0 }));
}

#[test]
fn packet_hands_on_the_errors_of_the_version() {
    assert_eq!(
        Packet::from_bytes(&[0x45; 19]),
        Err(DecodeError::Truncated { needed: 20, available: 19 })
    );
    assert_eq!(
        Packet::from_bytes(&[0x60; 39]),
        Err(DecodeError::Truncated { needed: 40, available: 39 })
    );
    let mut datagram = tcp_over_ipv4();
    datagram[3] = 41;
    assert_eq!(
        Packet::from_bytes(&datagram),
        Err(DecodeError::LengthMismatch { declared: 41, actual: 40 })
    );
    let mut datagram = over_ipv6(17, &[1, 2]);
    datagram[5] = 1;
    assert_eq!(
        Packet::from_bytes(&datagram),
        Err(DecodeError::LengthMismatch { declared: 1, actual: 2 })
    );
}

#[test]
fn packet_payload_and_bytes_come_from_the_variant() {
    let datagram = tcp_over_ipv4();
    let packet = Packet::from_bytes(&datagram).unwrap();
    assert_eq!(packet.payload(), &datagram[20..]);
    assert_eq!(packet.as_bytes(), &datagram[..]);
    let datagram = over_ipv6(17, &[1, 2, 3]);
    let packet = Packet::from_bytes(&datagram).unwrap();
    assert_eq!(packet.payload(), &[1, 2, 3]);
    assert_eq!(packet.as_bytes(), &datagram[..]);
    assert_eq!(Packet::from_bytes(packet.as_bytes()), Ok(packet));
}

#[test]
fn packet_tcp_checksum_over_ipv4() {
    let datagram = tcp_over_ipv4();
    assert!(Packet::from_bytes(&datagram).unwrap().tcp_ip_checksum());
    let mut changed = datagram.clone();
    changed[25] ^= 0x10;
    assert!(!Packet::from_bytes(&changed).unwrap().tcp_ip_checksum());
    let mut moved = datagram.clone();
    moved[19] = 3;
    assert!(!Packet::from_bytes(&moved).unwrap().tcp_ip_checksum());
}

#[test]
fn packet_tcp_checksum_with_a_zeroed_field_does_not_hold() {
    let mut datagram = tcp_over_ipv4();
    datagram[36] = 0;
    datagram[37] = 0;
    assert!(!Packet::from_bytes(&datagram).unwrap().tcp_ip_checksum());
}

#[test]
fn packet_udp_checksum_over_ipv4_pads_the_odd_byte() {
    let datagram = udp_over_ipv4();
    let packet = Packet::from_bytes(&datagram).unwrap();
    assert_eq!(packet.payload().len(), 11);
    assert!(packet.udp_ip_checksum());
    let mut changed = datagram.clone();
    changed[30] = 0x64;
    assert!(!Packet::from_bytes(&changed).unwrap().udp_ip_checksum());
}

#[test]
fn packet_udp_checksum_over_ipv6() {
    let datagram =
        over_ipv6(17, &[0x30, 0x39, 0x00, 0x35, 0x00, 0x0b, 0xaf, 0x92, 0x61, 0x62, 0x63]);
    let packet = Packet::from_bytes(&datagram).unwrap();
    assert!(packet.udp_ip_checksum());
    assert!(packet.tcp_ip_checksum());
    assert!(!packet.icmp_ip_checksum());
}

#[test]
fn packet_icmp_checksum_over_ipv6() {
    let datagram = over_ipv6(58, &[128, 0, 0x12, 0x13, 0x12, 0x34, 0x00, 0x01]);
    let packet = Packet::from_bytes(&datagram).unwrap();
    assert!(packet.icmp_ip_checksum());
    let mut changed = datagram.clone();
    changed[47] = 2;
    assert!(!Packet::from_bytes(&changed).unwrap().icmp_ip_checksum());
}

#[test]
fn packet_icmp_checksum_names_58_whatever_the_header_says() {
    let datagram = over_ipv6(17, &[128, 0, 0x12, 0x13, 0x12, 0x34, 0x00, 0x01]);
    let packet = Packet::from_bytes(&datagram).unwrap();
    assert!(packet.icmp_ip_checksum());
    assert!(!packet.udp_ip_checksum());
}

#[test]
fn packet_icmp_checksum_never_holds_over_ipv4() {
    let datagram = tcp_over_ipv4();
    assert!(!Packet::from_bytes(&datagram).unwrap().icmp_ip_checksum());
    let mut echo = vec![0x45, 0, 0, 28, 0, 0, 0, 0, 64, 1, 0, 0, 10, 0, 0, 1, 10, 0, 0, 2];
    echo.extend_from_slice(&[8, 0, 0xf7, 0xff, 0, 0, 0, 0]);
    assert!(!Packet::from_bytes(&echo).unwrap().icmp_ip_checksum());
}

#[test]
fn packet_computed_checksum_put_in_place_holds() {
    let mut datagram = tcp_over_ipv4();
    datagram[36] = 0;
    datagram[37] = 0;
    let sum = {
        let packet = Ipv4Packet::from_bytes(&datagram).unwrap();
        compute(&packet.pseudo_header(), packet.payload())
    };
    assert_eq!(sum, 0x26bc);
    datagram[36] = (sum >> 8) as u8;
    datagram[37] = (sum & 0xff) as u8;
    assert!(Packet::from_bytes(&datagram).unwrap().tcp_ip_checksum());
}

#[test]
fn packet_computed_checksum_put_in_place_holds_over_ipv6() {
    let mut datagram = over_ipv6(58, &[129, 0, 0, 0, 0xab, 0xcd, 0x00, 0x07, 1, 2, 3]);
    let sum = {
        let packet = Ipv6Packet::from_bytes(&datagram).unwrap();
        compute(&packet.icmpv6_pseudo_header(), packet.payload())
    };
    datagram[42] = (sum >> 8) as u8;
    datagram[43] = (sum & 0xff) as u8;
    let packet = Packet::from_bytes(&datagram).unwrap();
    assert!(packet.icmp_ip_checksum());
    assert!(packet.tcp_ip_checksum());
}
