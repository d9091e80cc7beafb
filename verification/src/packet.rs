//! A datagram of either IP version, told apart by the version nibble of its
//! first byte.

use crate::bits::{split_nibble, split_nibble_spec};
use crate::checksum::{checksum_holds, verify};
use crate::error::DecodeError;
use crate::ipv4::{ipv4_decode, ipv4_pseudo_header, Ipv4Packet, Ipv4View};
use crate::ipv6::{icmpv6_pseudo_header, ipv6_decode, ipv6_pseudo_header, Ipv6Packet, Ipv6View};
use vstd::prelude::*;
use vstd::std_specs::cmp::PartialEqSpecImpl;

verus! {

/// A decoded datagram: an IPv4 or an IPv6 one.
#[derive(Debug, Clone, Copy, Eq)]
pub enum Packet<'a> {
    V4(Ipv4Packet<'a>),
    V6(Ipv6Packet<'a>),
}

impl<'a> PartialEq for Packet<'a> {
    /// Compares the packets of two datagrams of the same version; datagrams
    /// of different versions differ.
    fn eq(&self, other: &Self) -> (equal: bool) {
        match (self, other) {
            (Packet::V4(left), Packet::V4(right)) => left == right,
            (Packet::V6(left), Packet::V6(right)) => left == right,
            _ => false,
        }
    }
}

impl<'a> PartialEqSpecImpl for Packet<'a> {
    open spec fn obeys_eq_spec() -> bool {
        true
    }

    /// Equality of packets is equality of variant and fields.
    open spec fn eq_spec(&self, other: &Self) -> bool {
        *self == *other
    }
}

/// What a datagram of either version says.
pub enum PacketView {
    V4(Ipv4View),
    V6(Ipv6View),
}

impl PacketView {
    /// The bytes behind the header.
    pub open spec fn payload(self) -> Seq<u8> {
        match self {
            PacketView::V4(packet) => packet.payload,
            PacketView::V6(packet) => packet.payload,
        }
    }

    /// Whether the payload, taken as a TCP or UDP segment with its checksum
    /// in place, sums to all ones under the pseudo-header of its datagram.
    pub open spec fn transport_checksum_holds(self) -> bool {
        match self {
            PacketView::V4(packet) => checksum_holds(
                ipv4_pseudo_header(packet).wire() + packet.payload,
            ),
            PacketView::V6(packet) => checksum_holds(
                ipv6_pseudo_header(packet).wire() + packet.payload,
            ),
        }
    }

    /// Whether the payload, taken as an ICMPv6 message with its checksum in
    /// place, sums to all ones under the ICMPv6 pseudo-header of its
    /// datagram. ICMPv6 travels over IPv6 only: under an IPv4 header no such
    /// checksum holds.
    pub open spec fn icmpv6_checksum_holds(self) -> bool {
        match self {
            PacketView::V4(_) => false,
            PacketView::V6(packet) => checksum_holds(
                icmpv6_pseudo_header(packet).wire() + packet.payload,
            ),
        }
    }
}

/// Decoding of a datagram of either version. The version nibble of byte 0
/// picks the header to decode; a buffer without a first byte is truncated.
pub open spec fn packet_decode(bytes: Seq<u8>) -> Result<PacketView, DecodeError> {
    if bytes.len() == 0 {
        Err(DecodeError::Truncated { needed: 1, available: 0 })
    } else if split_nibble_spec(bytes[0]).0 == 4 {
        match ipv4_decode(bytes) {
            Ok(packet) => Ok(PacketView::V4(packet)),
            Err(error) => Err(error),
        }
    } else if split_nibble_spec(bytes[0]).0 == 6 {
        match ipv6_decode(bytes) {
            Ok(packet) => Ok(PacketView::V6(packet)),
            Err(error) => Err(error),
        }
    } else {
        Err(DecodeError::UnsupportedVersion(split_nibble_spec(bytes[0]).0))
    }
}

impl<'a> View for Packet<'a> {
    type V = PacketView;

    open spec fn view(&self) -> PacketView {
        match self {
            Packet::V4(packet) => PacketView::V4(packet@),
            Packet::V6(packet) => PacketView::V6(packet@),
        }
    }
}

impl<'a> Packet<'a> {
    /// The datagram that the packet was decoded from.
    pub open spec fn wire(&self) -> Seq<u8> {
        match self {
            Packet::V4(packet) => packet.wire(),
            Packet::V6(packet) => packet.wire(),
        }
    }

    /// Whether `decoded` is the outcome of decoding `bytes`: the packet that
    /// holds the fields of `bytes` and `bytes` themselves, or the error that
    /// `bytes` earn.
    pub open spec fn decodes(bytes: Seq<u8>, decoded: Result<Packet<'a>, DecodeError>) -> bool {
        match decoded {
            Ok(packet) => {
                &&& packet_decode(bytes) == Ok::<PacketView, DecodeError>(packet@)
                &&& packet.wire() == bytes
            },
            Err(error) => packet_decode(bytes) == Err::<PacketView, DecodeError>(error),
        }
    }

    /// Decodes the datagram that fills `buf`, as IPv4 or IPv6 according to
    /// the version nibble of its first byte.
    ///
    /// Fails with `Truncated` on an empty buffer, with `UnsupportedVersion`
    /// on a version other than 4 and 6, and else as the decoder of that
    /// version does.
    pub fn from_bytes(buf: &'a [u8]) -> (decoded: Result<Packet<'a>, DecodeError>)
        ensures
            Self::decodes(buf@, decoded),
    {
        if buf.len() == 0 {
            return Err(DecodeError::Truncated { needed: 1, available: 0 });
        }
        let version = split_nibble(buf[0]).0;
        if version == 4 {
            match Ipv4Packet::from_bytes(buf) {
                Ok(packet) => Ok(Packet::V4(packet)),
                Err(error) => Err(error),
            }
        } else if version == 6 {
            match Ipv6Packet::from_bytes(buf) {
                Ok(packet) => Ok(Packet::V6(packet)),
                Err(error) => Err(error),
            }
        } else {
            Err(DecodeError::UnsupportedVersion(version))
        }
    }

    /// The datagram, byte for byte as it was decoded: decoding it again
    /// gives this packet.
    pub fn as_bytes(&self) -> (bytes: &'a [u8])
        ensures
            bytes@ == self.wire(),
            packet_decode(bytes@) == Ok::<PacketView, DecodeError>(self@),
    {
        match self {
            Packet::V4(packet) => packet.as_bytes(),
            Packet::V6(packet) => packet.as_bytes(),
        }
    }

    /// The bytes behind the header, borrowed from the datagram.
    pub fn payload(&self) -> (payload: &'a [u8])
        ensures
            payload@ == self@.payload(),
    {
        match self {
            Packet::V4(packet) => packet.payload(),
            Packet::V6(packet) => packet.payload(),
        }
    }

    /// Whether the TCP segment that the datagram carries holds the right
    /// checksum: whether the pseudo-header of the datagram and the payload,
    /// its checksum field as it stands, sum to all ones.
    pub fn tcp_ip_checksum(&self) -> (holds: bool)
        ensures
            holds == self@.transport_checksum_holds(),
    {
        self.transport_checksum()
    }

    /// Whether the UDP datagram that the datagram carries holds the right
    /// checksum. UDP is summed under the same pseudo-header as TCP, with the
    /// protocol number that the header names.
    pub fn udp_ip_checksum(&self) -> (holds: bool)
        ensures
            holds == self@.transport_checksum_holds(),
    {
        self.transport_checksum()
    }

    /// Whether the ICMPv6 message that the datagram carries holds the right
    /// checksum under the ICMPv6 pseudo-header. False for an IPv4 datagram,
    /// which carries no ICMPv6.
    pub fn icmp_ip_checksum(&self) -> (holds: bool)
        ensures
            holds == self@.icmpv6_checksum_holds(),
    {
        match self {
            Packet::V4(_) => false,
            Packet::V6(packet) => verify(&packet.icmpv6_pseudo_header(), packet.payload()),
        }
    }

    /// The test that TCP and UDP share: the payload under the pseudo-header
    /// of its datagram.
    fn transport_checksum(&self) -> (holds: bool)
        ensures
            holds == self@.transport_checksum_holds(),
    {
        match self {
            Packet::V4(packet) => verify(&packet.pseudo_header(), packet.payload()),
            Packet::V6(packet) => verify(&packet.pseudo_header(), packet.payload()),
        }
    }
}

/// Decoding is a function of the bytes: whatever two decodings of the same
/// bytes give is equal, in variant and field for field.
pub proof fn lemma_decode_twice<'a>(
    bytes: Seq<u8>,
    first: Result<Packet<'a>, DecodeError>,
    second: Result<Packet<'a>, DecodeError>,
)
    requires
        Packet::decodes(bytes, first),
        Packet::decodes(bytes, second),
    ensures
        first == second,
{
    match (first, second) {
        (Ok(Packet::V4(one)), Ok(Packet::V4(other))) => {
            crate::ipv4::lemma_decode_twice(
                bytes,
                Ok::<Ipv4Packet<'a>, DecodeError>(one),
                Ok::<Ipv4Packet<'a>, DecodeError>(other),
            );
        },
        (Ok(Packet::V6(one)), Ok(Packet::V6(other))) => {
            crate::ipv6::lemma_decode_twice(
                bytes,
                Ok::<Ipv6Packet<'a>, DecodeError>(one),
                Ok::<Ipv6Packet<'a>, DecodeError>(other),
            );
        },
        _ => {},
    }
}

/// A datagram decodes to the variant that its version nibble names, and to
/// nothing when the nibble names neither: a decoded packet is an IPv4 one
/// exactly when the nibble is 4 and an IPv6 one exactly when it is 6, and
/// any other nibble is reported with its value.
pub proof fn lemma_dispatch_by_version(bytes: Seq<u8>)
    requires
        bytes.len() > 0,
    ensures
        ({
            let version = split_nibble_spec(bytes[0]).0;
            &&& packet_decode(bytes) matches Ok(packet) ==> {
                &&& packet is V4 <==> version == 4
                &&& packet is V6 <==> version == 6
                &&& packet matches PacketView::V4(inner) ==> ipv4_decode(bytes) == Ok::<
                    Ipv4View,
                    DecodeError,
                >(inner)
                &&& packet matches PacketView::V6(inner) ==> ipv6_decode(bytes) == Ok::<
                    Ipv6View,
                    DecodeError,
                >(inner)
            }
            &&& version != 4 && version != 6 ==> packet_decode(bytes) == Err::<
                PacketView,
                DecodeError,
            >(DecodeError::UnsupportedVersion(version))
        }),
{
}

} // verus!
