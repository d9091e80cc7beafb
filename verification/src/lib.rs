//! Zero-copy decoding and validation of IPv4 and IPv6 datagram headers,
//! together with the Internet checksum over the pseudo-headers of the
//! transport protocols they carry.
//!
//! A datagram is decoded from a borrowed buffer by [`packet::Packet`], or by
//! [`ipv4::Ipv4Packet`] and [`ipv6::Ipv6Packet`] where the version is known.
//! What a decoder returns is stated over the bytes of the buffer alone:
//! `ipv4::ipv4_decode`, `ipv6::ipv6_decode` and `packet::packet_decode` say
//! which buffers are datagrams, what their fields are, and which error every
//! other buffer earns.

pub mod bits;
pub mod bytes;
pub mod checksum;
pub mod endian;
pub mod error;
pub mod ipv4;
pub mod ipv6;
pub mod options;
pub mod packet;
