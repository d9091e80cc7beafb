//! The fixed IPv6 header: forty bytes, then the payload. Extension headers
//! are not walked; the next-header number is handed on as it stands.

use crate::bits::{split_nibble, split_nibble_spec};
use crate::bytes::same_bytes;
use crate::checksum::{PseudoHeader, ICMPV6_NEXT_HEADER};
use crate::endian::{
    be_bytes_u32, be_value, lemma_be_bytes_of_value, lemma_be_value_bound, lemma_be_value_two,
    read_u128_at, read_u16_at, read_u32_at,
};
use crate::error::DecodeError;
use vstd::prelude::*;
use vstd::slice::slice_subrange;
use vstd::std_specs::cmp::PartialEqSpecImpl;

verus! {

/// What an IPv6 datagram says, field by field.
pub struct Ipv6View {
    /// Version nibble; 6 in every decoded header.
    pub version: u8,
    pub traffic_class: u8,
    /// Flow label, twenty bits.
    pub flow_label: u32,
    /// Length in bytes of what follows the fixed header.
    pub payload_length: u16,
    /// Number of the header or protocol that follows.
    pub next_header: u8,
    pub hop_limit: u8,
    pub src_ip: u128,
    pub dst_ip: u128,
    /// The bytes behind the fixed header.
    pub payload: Seq<u8>,
}

/// The fields of the datagram `bytes`, each read at its place in the header.
/// The first 32-bit word holds the version in its top four bits, the traffic
/// class in the next eight and the flow label in the low twenty.
pub open spec fn ipv6_fields(bytes: Seq<u8>) -> Ipv6View
    recommends
        bytes.len() >= 40,
{
    let first = be_value(bytes.subrange(0, 4));
    Ipv6View {
        version: split_nibble_spec(bytes[0]).0,
        traffic_class: ((first / 0x10_0000) % 0x100) as u8,
        flow_label: (first % 0x10_0000) as u32,
        payload_length: be_value(bytes.subrange(4, 6)) as u16,
        next_header: bytes[6],
        hop_limit: bytes[7],
        src_ip: be_value(bytes.subrange(8, 24)) as u128,
        dst_ip: be_value(bytes.subrange(24, 40)) as u128,
        payload: bytes.subrange(40, bytes.len() as int),
    }
}

/// Decoding of an IPv6 datagram: the first of its checks that fails decides
/// the error, and a buffer that passes them all yields its fields.
pub open spec fn ipv6_decode(bytes: Seq<u8>) -> Result<Ipv6View, DecodeError> {
    if bytes.len() < 40 {
        Err(DecodeError::Truncated { needed: 40, available: bytes.len() as usize })
    } else if split_nibble_spec(bytes[0]).0 != 6 {
        Err(DecodeError::WrongVersion { expected: 6, found: split_nibble_spec(bytes[0]).0 })
    } else if bytes.len() - 40 != be_value(bytes.subrange(4, 6)) {
        Err(
            DecodeError::LengthMismatch {
                declared: be_value(bytes.subrange(4, 6)) as usize,
                actual: (bytes.len() - 40) as usize,
            },
        )
    } else {
        Ok(ipv6_fields(bytes))
    }
}

/// Length of the payload as the 32-bit number that a pseudo-header holds.
pub open spec fn upper_layer_length(packet: Ipv6View) -> u32 {
    packet.payload.len() as u32
}

/// The pseudo-header under which a TCP or UDP segment carried by an IPv6
/// datagram is summed: the addresses and the next-header number of the
/// header, and the length of the payload.
pub open spec fn ipv6_pseudo_header(packet: Ipv6View) -> PseudoHeader {
    PseudoHeader::V6 {
        src_ip: packet.src_ip,
        dst_ip: packet.dst_ip,
        length: upper_layer_length(packet),
        next_header: packet.next_header,
    }
}

/// The pseudo-header under which an ICMPv6 message carried by an IPv6
/// datagram is summed: the addresses of the header and the length of the
/// payload.
pub open spec fn icmpv6_pseudo_header(packet: Ipv6View) -> PseudoHeader {
    PseudoHeader::Icmpv6 {
        src_ip: packet.src_ip,
        dst_ip: packet.dst_ip,
        length: upper_layer_length(packet),
    }
}

/// A decoded IPv6 datagram. The fields are read once, when the datagram is
/// decoded; the payload is borrowed from the buffer.
#[derive(Debug, Clone, Copy, Eq)]
pub struct Ipv6Packet<'a> {
    version: u8,
    traffic_class: u8,
    flow_label: u32,
    payload_length: u16,
    next_header: u8,
    hop_limit: u8,
    src_ip: u128,
    dst_ip: u128,
    payload: &'a [u8],
    datagram: &'a [u8],
}

impl<'a> View for Ipv6Packet<'a> {
    type V = Ipv6View;

    closed spec fn view(&self) -> Ipv6View {
        Ipv6View {
            version: self.version,
            traffic_class: self.traffic_class,
            flow_label: self.flow_label,
            payload_length: self.payload_length,
            next_header: self.next_header,
            hop_limit: self.hop_limit,
            src_ip: self.src_ip,
            dst_ip: self.dst_ip,
            payload: self.payload@,
        }
    }
}

impl<'a> PartialEq for Ipv6Packet<'a> {
    /// Compares the datagrams: packets of equal datagrams are equal in every
    /// field.
    fn eq(&self, other: &Self) -> (equal: bool) {
        proof {
            use_type_invariant(self);
            use_type_invariant(other);
            if self.datagram@ == other.datagram@ {
                lemma_decode_twice(
                    self.datagram@,
                    Ok::<Ipv6Packet<'a>, DecodeError>(*self),
                    Ok::<Ipv6Packet<'a>, DecodeError>(*other),
                );
            }
        }
        same_bytes(self.datagram, other.datagram)
    }
}

impl<'a> PartialEqSpecImpl for Ipv6Packet<'a> {
    open spec fn obeys_eq_spec() -> bool {
        true
    }

    /// Equality of packets is equality of all their fields.
    open spec fn eq_spec(&self, other: &Self) -> bool {
        *self == *other
    }
}

impl<'a> Ipv6Packet<'a> {
    /// The datagram that the packet was decoded from.
    pub closed spec fn wire(&self) -> Seq<u8> {
        self.datagram@
    }

    /// Every packet holds the fields of its own datagram.
    #[verifier::type_invariant]
    closed spec fn well_formed(&self) -> bool {
        ipv6_decode(self.datagram@) == Ok::<Ipv6View, DecodeError>(self@)
    }

    /// Whether `decoded` is the outcome of decoding `bytes`: the packet that
    /// holds the fields of `bytes` and `bytes` themselves, or the error that
    /// `bytes` earn.
    pub open spec fn decodes(
        bytes: Seq<u8>,
        decoded: Result<Ipv6Packet<'a>, DecodeError>,
    ) -> bool {
        match decoded {
            Ok(packet) => {
                &&& ipv6_decode(bytes) == Ok::<Ipv6View, DecodeError>(packet@)
                &&& packet.wire() == bytes
            },
            Err(error) => ipv6_decode(bytes) == Err::<Ipv6View, DecodeError>(error),
        }
    }

    /// Decodes the IPv6 datagram that fills `buf`.
    ///
    /// Fails with `Truncated` on fewer than forty bytes, with `WrongVersion`
    /// when the version nibble is not 6, and with `LengthMismatch` when the
    /// payload length is not the number of bytes behind the header, in this
    /// order.
    pub fn from_bytes(buf: &'a [u8]) -> (decoded: Result<Ipv6Packet<'a>, DecodeError>)
        ensures
            Self::decodes(buf@, decoded),
    {
        let len = buf.len();
        if len < Self::min_size() {
            return Err(DecodeError::Truncated { needed: Self::min_size(), available: len });
        }
        let version = split_nibble(buf[0]).0;
        if version != 6 {
            return Err(DecodeError::WrongVersion { expected: 6, found: version });
        }
        let first = read_u32_at(buf, 0);
        assert((first >> 20) & 0xff == (first / 0x10_0000) % 0x100) by (bit_vector);
        assert(first & 0xf_ffff == first % 0x10_0000) by (bit_vector);
        let traffic_class = ((first >> 20) & 0xff) as u8;
        let flow_label = first & 0xf_ffff;
        let payload_length = read_u16_at(buf, 4);
        let next_header = buf[6];
        let hop_limit = buf[7];
        let src_ip = read_u128_at(buf, 8);
        let dst_ip = read_u128_at(buf, 24);
        if len - Self::min_size() != payload_length as usize {
            return Err(
                DecodeError::LengthMismatch {
                    declared: payload_length as usize,
                    actual: len - Self::min_size(),
                },
            );
        }
        Ok(
            Ipv6Packet {
                version,
                traffic_class,
                flow_label,
                payload_length,
                next_header,
                hop_limit,
                src_ip,
                dst_ip,
                payload: slice_subrange(buf, Self::min_size(), len),
                datagram: buf,
            },
        )
    }

    /// The datagram, byte for byte as it was decoded: decoding it again
    /// gives this packet.
    pub fn as_bytes(&self) -> (bytes: &'a [u8])
        ensures
            bytes@ == self.wire(),
            ipv6_decode(bytes@) == Ok::<Ipv6View, DecodeError>(self@),
    {
        proof {
            use_type_invariant(self);
        }
        self.datagram
    }

    /// Length of the fixed header.
    pub fn min_size() -> (size: usize)
        ensures
            size == 40,
    {
        40
    }

    /// The version nibble.
    pub fn version(&self) -> (version: u8)
        ensures
            version == self@.version,
    {
        self.version
    }

    /// The traffic class.
    pub fn traffic_class(&self) -> (class: u8)
        ensures
            class == self@.traffic_class,
    {
        self.traffic_class
    }

    /// The flow label.
    pub fn flow_label(&self) -> (label: u32)
        ensures
            label == self@.flow_label,
    {
        self.flow_label
    }

    /// The length in bytes of what follows the fixed header.
    pub fn payload_length(&self) -> (length: u16)
        ensures
            length == self@.payload_length,
    {
        self.payload_length
    }

    /// The number of the header or protocol that follows.
    pub fn next_header(&self) -> (number: u8)
        ensures
            number == self@.next_header,
    {
        self.next_header
    }

    /// The remaining hop count.
    pub fn hop_limit(&self) -> (limit: u8)
        ensures
            limit == self@.hop_limit,
    {
        self.hop_limit
    }

    /// The source address.
    pub fn src_ip(&self) -> (address: u128)
        ensures
            address == self@.src_ip,
    {
        self.src_ip
    }

    /// The destination address.
    pub fn dst_ip(&self) -> (address: u128)
        ensures
            address == self@.dst_ip,
    {
        self.dst_ip
    }

    /// The bytes behind the fixed header, borrowed from the datagram, as
    /// many as the payload length says.
    pub fn payload(&self) -> (payload: &'a [u8])
        ensures
            payload@ == self@.payload,
            payload@ == self.wire().subrange(40, self.wire().len() as int),
            payload@.len() == self@.payload_length,
    {
        proof {
            use_type_invariant(self);
            lemma_be_value_two(self.datagram@.subrange(4, 6));
        }
        self.payload
    }

    /// The payload length widened to 32 bits, which is the length of the
    /// payload itself.
    fn upper_layer_length(&self) -> (length: u32)
        ensures
            length == upper_layer_length(self@),
            self@.payload.len() <= 0xffff,
    {
        proof {
            use_type_invariant(self);
            lemma_be_value_two(self.datagram@.subrange(4, 6));
        }
        self.payload_length as u32
    }

    /// The pseudo-header for the checksum of the TCP or UDP segment that the
    /// datagram carries.
    pub fn pseudo_header(&self) -> (pseudo: PseudoHeader)
        ensures
            pseudo == ipv6_pseudo_header(self@),
    {
        PseudoHeader::V6 {
            src_ip: self.src_ip,
            dst_ip: self.dst_ip,
            length: self.upper_layer_length(),
            next_header: self.next_header,
        }
    }

    /// The pseudo-header for the checksum of the ICMPv6 message that the
    /// datagram carries.
    pub fn icmpv6_pseudo_header(&self) -> (pseudo: PseudoHeader)
        ensures
            pseudo == icmpv6_pseudo_header(self@),
    {
        PseudoHeader::Icmpv6 {
            src_ip: self.src_ip,
            dst_ip: self.dst_ip,
            length: self.upper_layer_length(),
        }
    }
}

/// What holds of every decoded header: the version is 6 and the flow label
/// is within its twenty bits; the header takes forty bytes, and the payload
/// is all that follows them, as long as the payload length says.
pub proof fn lemma_decoded_header(bytes: Seq<u8>)
    requires
        ipv6_decode(bytes) is Ok,
    ensures
        ({
            let packet = ipv6_decode(bytes)->Ok_0;
            &&& packet.version == 6
            &&& packet.flow_label <= 0xf_ffff
            &&& packet.payload == bytes.subrange(40, bytes.len() as int)
            &&& packet.payload.len() == packet.payload_length
            &&& bytes.len() == 40 + packet.payload_length
        }),
{
    lemma_be_value_two(bytes.subrange(4, 6));
}

/// The pseudo-headers of a decoded datagram start with the bytes of its
/// header that spell the two addresses, followed by the length of the payload
/// in four bytes; then come three zero bytes and the next-header number, for
/// ICMPv6 the number 58 in place of the one in the header.
pub proof fn lemma_pseudo_header_bytes(bytes: Seq<u8>)
    requires
        ipv6_decode(bytes) is Ok,
    ensures
        ({
            let packet = ipv6_decode(bytes)->Ok_0;
            let front = bytes.subrange(8, 40) + be_bytes_u32(upper_layer_length(packet));
            &&& ipv6_pseudo_header(packet).wire() == front + seq![0u8, 0u8, 0u8, bytes[6]]
            &&& icmpv6_pseudo_header(packet).wire() == front + seq![
                0u8,
                0u8,
                0u8,
                ICMPV6_NEXT_HEADER,
            ]
        }),
{
    let source = bytes.subrange(8, 24);
    let destination = bytes.subrange(24, 40);
    lemma_be_value_bound(source);
    lemma_be_value_bound(destination);
    lemma_be_bytes_of_value(source);
    lemma_be_bytes_of_value(destination);
    assert(source + destination =~= bytes.subrange(8, 40));
}

/// Decoding is a function of the bytes: whatever two decodings of the same
/// bytes give is equal, field for field.
pub proof fn lemma_decode_twice<'a>(
    bytes: Seq<u8>,
    first: Result<Ipv6Packet<'a>, DecodeError>,
    second: Result<Ipv6Packet<'a>, DecodeError>,
)
    requires
        Ipv6Packet::decodes(bytes, first),
        Ipv6Packet::decodes(bytes, second),
    ensures
        first == second,
{
    if let Ok(one) = first {
        let other = second->Ok_0;
        assert(one.datagram =~= other.datagram);
        assert(one.payload =~= other.payload);
    }
}

/// A buffer of at least forty bytes whose version nibble is 6 and whose
/// payload length field counts the bytes behind the fortieth is decoded.
pub proof fn lemma_decode_succeeds(bytes: Seq<u8>)
    requires
        bytes.len() >= 40,
        split_nibble_spec(bytes[0]).0 == 6,
        be_value(bytes.subrange(4, 6)) == bytes.len() - 40,
    ensures
        ipv6_decode(bytes) is Ok,
{
}

} // verus!
