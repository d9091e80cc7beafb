//! The IPv4 header (RFC 791): its fixed twenty bytes, the options that may
//! follow them, and the payload behind the header.

use crate::bits::{
    lemma_split_bits_joins, split_bits, split_bits_spec, split_flags_offset,
    split_flags_offset_spec, split_nibble, split_nibble_spec,
};
use crate::bytes::same_bytes;
use crate::checksum::{
    checksum_holds, fold, internet_checksum, lemma_checksum_holds_iff, lemma_word_sum_concat,
    sum_words, word_sum, PseudoHeader,
};
use crate::endian::{
    be_bytes_u16, be_value, lemma_be_bytes_of_value, lemma_be_value_bound, lemma_be_value_two,
    read_u16_at, read_u32_at,
};
use crate::error::DecodeError;
use crate::options::{options_len, Options};
use vstd::arithmetic::power2::lemma2_to64;
use vstd::prelude::*;
use vstd::slice::slice_subrange;
use vstd::std_specs::cmp::PartialEqSpecImpl;

verus! {

/// What an IPv4 datagram says, field by field.
pub struct Ipv4View {
    /// Version nibble; 4 in every decoded header.
    pub version: u8,
    /// Header length in 32-bit words.
    pub ihl: u8,
    /// Differentiated services code point, six bits.
    pub dscp: u8,
    /// Explicit congestion notification, two bits.
    pub ecn: u8,
    /// Length of the datagram in bytes, header included.
    pub total_length: u16,
    pub identification: u16,
    /// Reserved, don't-fragment and more-fragments bits.
    pub flags: u8,
    /// Fragment offset in units of eight bytes, thirteen bits.
    pub fragment_offset: u16,
    pub time_to_live: u8,
    /// Protocol number of the payload.
    pub protocol: u8,
    pub header_checksum: u16,
    pub src_ip: u32,
    pub dst_ip: u32,
    /// The options region with its padding; there when `ihl` exceeds 5.
    pub options: Option<Seq<u8>>,
    /// The bytes behind the header.
    pub payload: Seq<u8>,
}

/// Length in bytes of a header of `ihl` 32-bit words.
pub open spec fn header_len(ihl: u8) -> nat {
    ihl as nat * 4
}

/// The fields of the datagram `bytes`, each read at its place in the header.
/// Meant for buffers that hold the header that byte 0 declares.
pub open spec fn ipv4_fields(bytes: Seq<u8>) -> Ipv4View
    recommends
        bytes.len() >= 20,
        bytes.len() >= header_len(split_nibble_spec(bytes[0]).1),
{
    let ihl = split_nibble_spec(bytes[0]).1;
    let flags_offset = be_value(bytes.subrange(6, 8)) as u16;
    Ipv4View {
        version: split_nibble_spec(bytes[0]).0,
        ihl,
        dscp: split_bits_spec(bytes[1], 6).0,
        ecn: split_bits_spec(bytes[1], 6).1,
        total_length: be_value(bytes.subrange(2, 4)) as u16,
        identification: be_value(bytes.subrange(4, 6)) as u16,
        flags: split_flags_offset_spec(flags_offset).0,
        fragment_offset: split_flags_offset_spec(flags_offset).1,
        time_to_live: bytes[8],
        protocol: bytes[9],
        header_checksum: be_value(bytes.subrange(10, 12)) as u16,
        src_ip: be_value(bytes.subrange(12, 16)) as u32,
        dst_ip: be_value(bytes.subrange(16, 20)) as u32,
        options: if ihl > 5 {
            Some(bytes.subrange(20, header_len(ihl) as int))
        } else {
            None
        },
        payload: bytes.subrange(header_len(ihl) as int, bytes.len() as int),
    }
}

/// Decoding of an IPv4 datagram: the first of its checks that fails decides
/// the error, and a buffer that passes them all yields its fields.
pub open spec fn ipv4_decode(bytes: Seq<u8>) -> Result<Ipv4View, DecodeError> {
    if bytes.len() < 20 {
        Err(DecodeError::Truncated { needed: 20, available: bytes.len() as usize })
    } else if split_nibble_spec(bytes[0]).0 != 4 {
        Err(DecodeError::WrongVersion { expected: 4, found: split_nibble_spec(bytes[0]).0 })
    } else if bytes.len() < header_len(split_nibble_spec(bytes[0]).1) {
        Err(
            DecodeError::Truncated {
                needed: header_len(split_nibble_spec(bytes[0]).1) as usize,
                available: bytes.len() as usize,
            },
        )
    } else if bytes.len() != be_value(bytes.subrange(2, 4)) {
        Err(
            DecodeError::LengthMismatch {
                declared: be_value(bytes.subrange(2, 4)) as usize,
                actual: bytes.len() as usize,
            },
        )
    } else {
        Ok(ipv4_fields(bytes))
    }
}

/// Number of leading bytes that the header checksum covers: the fixed twenty
/// bytes, and the options where the header length declares any.
pub open spec fn checksummed_len(ihl: u8) -> nat {
    if ihl > 5 {
        header_len(ihl)
    } else {
        20
    }
}

/// The header of the datagram `bytes` as it is summed for its checksum: with
/// the checksum field, bytes 10 and 11, taken as zero.
pub open spec fn checksummed_header(bytes: Seq<u8>) -> Seq<u8>
    recommends
        bytes.len() >= 20,
        bytes.len() >= header_len(split_nibble_spec(bytes[0]).1),
{
    bytes.subrange(0, checksummed_len(split_nibble_spec(bytes[0]).1) as int).update(
        10,
        0,
    ).update(11, 0)
}

/// Whether the checksum that the header of `bytes` stores is the Internet
/// checksum of that header.
pub open spec fn header_checksum_holds(bytes: Seq<u8>) -> bool
    recommends
        bytes.len() >= 20,
        bytes.len() >= header_len(split_nibble_spec(bytes[0]).1),
{
    internet_checksum(checksummed_header(bytes)) == be_value(bytes.subrange(10, 12))
}

/// The pseudo-header under which a TCP or UDP segment carried by an IPv4
/// datagram is summed: the addresses and the protocol of the header, and the
/// length of the payload.
pub open spec fn ipv4_pseudo_header(packet: Ipv4View) -> PseudoHeader {
    PseudoHeader::V4 {
        src_ip: packet.src_ip,
        dst_ip: packet.dst_ip,
        protocol: packet.protocol,
        length: packet.payload.len() as u16,
    }
}

/// A decoded IPv4 datagram. The fields are read once, when the datagram is
/// decoded; options and payload are borrowed from the buffer.
#[derive(Debug, Clone, Copy, Eq)]
pub struct Ipv4Packet<'a> {
    version_ihl: u8,
    dscp_ecn: u8,
    total_length: u16,
    identification: u16,
    flags_fragment_offset: u16,
    time_to_live: u8,
    protocol: u8,
    header_checksum: u16,
    src_ip: u32,
    dst_ip: u32,
    options: Option<Options<'a>>,
    payload: &'a [u8],
    datagram: &'a [u8],
}

impl<'a> View for Ipv4Packet<'a> {
    type V = Ipv4View;

    closed spec fn view(&self) -> Ipv4View {
        Ipv4View {
            version: split_nibble_spec(self.version_ihl).0,
            ihl: split_nibble_spec(self.version_ihl).1,
            dscp: split_bits_spec(self.dscp_ecn, 6).0,
            ecn: split_bits_spec(self.dscp_ecn, 6).1,
            total_length: self.total_length,
            identification: self.identification,
            flags: split_flags_offset_spec(self.flags_fragment_offset).0,
            fragment_offset: split_flags_offset_spec(self.flags_fragment_offset).1,
            time_to_live: self.time_to_live,
            protocol: self.protocol,
            header_checksum: self.header_checksum,
            src_ip: self.src_ip,
            dst_ip: self.dst_ip,
            options: match self.options {
                Some(options) => Some(options@),
                None => None,
            },
            payload: self.payload@,
        }
    }
}

impl<'a> PartialEq for Ipv4Packet<'a> {
    /// Compares the datagrams: packets of equal datagrams are equal in every
    /// field.
    fn eq(&self, other: &Self) -> (equal: bool) {
        proof {
            use_type_invariant(self);
            use_type_invariant(other);
            if self.datagram@ == other.datagram@ {
                lemma_decode_twice(
                    self.datagram@,
                    Ok::<Ipv4Packet<'a>, DecodeError>(*self),
                    Ok::<Ipv4Packet<'a>, DecodeError>(*other),
                );
            }
        }
        same_bytes(self.datagram, other.datagram)
    }
}

impl<'a> PartialEqSpecImpl for Ipv4Packet<'a> {
    open spec fn obeys_eq_spec() -> bool {
        true
    }

    /// Equality of packets is equality of all their fields.
    open spec fn eq_spec(&self, other: &Self) -> bool {
        *self == *other
    }
}

impl<'a> Ipv4Packet<'a> {
    /// The datagram that the packet was decoded from.
    pub closed spec fn wire(&self) -> Seq<u8> {
        self.datagram@
    }

    /// Every packet holds the fields of its own datagram.
    #[verifier::type_invariant]
    closed spec fn well_formed(&self) -> bool {
        ipv4_decode(self.datagram@) == Ok::<Ipv4View, DecodeError>(self@)
    }

    /// Whether `decoded` is the outcome of decoding `bytes`: the packet that
    /// holds the fields of `bytes` and `bytes` themselves, or the error that
    /// `bytes` earn.
    pub open spec fn decodes(
        bytes: Seq<u8>,
        decoded: Result<Ipv4Packet<'a>, DecodeError>,
    ) -> bool {
        match decoded {
            Ok(packet) => {
                &&& ipv4_decode(bytes) == Ok::<Ipv4View, DecodeError>(packet@)
                &&& packet.wire() == bytes
            },
            Err(error) => ipv4_decode(bytes) == Err::<Ipv4View, DecodeError>(error),
        }
    }

    /// Decodes the IPv4 datagram that fills `buf`.
    ///
    /// Fails with `Truncated` on fewer than twenty bytes, with `WrongVersion`
    /// when the version nibble is not 4, with `Truncated` when the options
    /// that the header length declares do not fit, and with `LengthMismatch`
    /// when the total length is not that of `buf`, in this order.
    pub fn from_bytes(buf: &'a [u8]) -> (decoded: Result<Ipv4Packet<'a>, DecodeError>)
        ensures
            Self::decodes(buf@, decoded),
    {
        let len = buf.len();
        if len < Self::min_size() {
            return Err(DecodeError::Truncated { needed: Self::min_size(), available: len });
        }
        let version_ihl = buf[0];
        let (version, ihl) = split_nibble(version_ihl);
        if version != 4 {
            return Err(DecodeError::WrongVersion { expected: 4, found: version });
        }
        let dscp_ecn = buf[1];
        let total_length = read_u16_at(buf, 2);
        let identification = read_u16_at(buf, 4);
        let flags_fragment_offset = read_u16_at(buf, 6);
        let time_to_live = buf[8];
        let protocol = buf[9];
        let header_checksum = read_u16_at(buf, 10);
        let src_ip = read_u32_at(buf, 12);
        let dst_ip = read_u32_at(buf, 16);

        let (options, header_length) = if ihl > 5 {
            match Options::parse(slice_subrange(buf, Self::min_size(), len), ihl) {
                Ok((options, consumed)) => {
                    assert(options@ =~= buf@.subrange(20, header_len(ihl) as int));
                    (Some(options), Self::min_size() + consumed)
                },
                Err(_) => {
                    return Err(
                        DecodeError::Truncated { needed: ihl as usize * 4, available: len },
                    );
                },
            }
        } else {
            (None, ihl as usize * 4)
        };
        if len != total_length as usize {
            return Err(
                DecodeError::LengthMismatch { declared: total_length as usize, actual: len },
            );
        }
        Ok(
            Ipv4Packet {
                version_ihl,
                dscp_ecn,
                total_length,
                identification,
                flags_fragment_offset,
                time_to_live,
                protocol,
                header_checksum,
                src_ip,
                dst_ip,
                options,
                payload: slice_subrange(buf, header_length, len),
                datagram: buf,
            },
        )
    }

    /// The datagram, byte for byte as it was decoded: decoding it again
    /// gives this packet.
    pub fn as_bytes(&self) -> (bytes: &'a [u8])
        ensures
            bytes@ == self.wire(),
            ipv4_decode(bytes@) == Ok::<Ipv4View, DecodeError>(self@),
    {
        proof {
            use_type_invariant(self);
        }
        self.datagram
    }

    /// Length of the fixed part of the header, the least that a datagram
    /// holds.
    pub fn min_size() -> (size: usize)
        ensures
            size == 20,
    {
        20
    }

    /// The version nibble.
    pub fn version(&self) -> (version: u8)
        ensures
            version == self@.version,
    {
        split_nibble(self.version_ihl).0
    }

    /// The header length in 32-bit words.
    pub fn ihl(&self) -> (ihl: u8)
        ensures
            ihl == self@.ihl,
    {
        split_nibble(self.version_ihl).1
    }

    /// The differentiated services code point.
    pub fn dscp(&self) -> (dscp: u8)
        ensures
            dscp == self@.dscp,
    {
        split_bits(self.dscp_ecn, 6).0
    }

    /// The explicit congestion notification bits.
    pub fn ecn(&self) -> (ecn: u8)
        ensures
            ecn == self@.ecn,
    {
        split_bits(self.dscp_ecn, 6).1
    }

    /// The length of the datagram in bytes, header included.
    pub fn total_length(&self) -> (length: u16)
        ensures
            length == self@.total_length,
    {
        self.total_length
    }

    /// The identification of the datagram among the fragments in flight.
    pub fn identification(&self) -> (identification: u16)
        ensures
            identification == self@.identification,
    {
        self.identification
    }

    /// The three flag bits: reserved, don't fragment, more fragments.
    pub fn flags(&self) -> (flags: u8)
        ensures
            flags == self@.flags,
    {
        split_flags_offset(self.flags_fragment_offset).0
    }

    /// The fragment offset in units of eight bytes.
    pub fn fragment_offset(&self) -> (offset: u16)
        ensures
            offset == self@.fragment_offset,
    {
        split_flags_offset(self.flags_fragment_offset).1
    }

    /// The remaining hop count.
    pub fn time_to_live(&self) -> (ttl: u8)
        ensures
            ttl == self@.time_to_live,
    {
        self.time_to_live
    }

    /// The protocol number of the payload.
    pub fn protocol(&self) -> (protocol: u8)
        ensures
            protocol == self@.protocol,
    {
        self.protocol
    }

    /// The checksum that the header stores.
    pub fn header_checksum(&self) -> (checksum: u16)
        ensures
            checksum == self@.header_checksum,
    {
        self.header_checksum
    }

    /// The source address.
    pub fn src_ip(&self) -> (address: u32)
        ensures
            address == self@.src_ip,
    {
        self.src_ip
    }

    /// The destination address.
    pub fn dst_ip(&self) -> (address: u32)
        ensures
            address == self@.dst_ip,
    {
        self.dst_ip
    }

    /// The options region: there exactly when the header is longer than five
    /// words, and then four bytes long for each word beyond the fifth.
    pub fn options(&self) -> (options: &Option<Options<'a>>)
        ensures
            match *options {
                Some(region) => {
                    &&& self@.options == Some(region@)
                    &&& self@.ihl > 5
                    &&& region@.len() == (self@.ihl - 5) * 4
                },
                None => self@.options is None && self@.ihl <= 5,
            },
    {
        proof {
            use_type_invariant(self);
        }
        &self.options
    }

    /// The bytes behind the header, borrowed from the datagram: all that
    /// follows the `ihl` words of the header.
    pub fn payload(&self) -> (payload: &'a [u8])
        ensures
            payload@ == self@.payload,
            payload@ == self.wire().subrange(
                header_len(self@.ihl) as int,
                self.wire().len() as int,
            ),
    {
        proof {
            use_type_invariant(self);
        }
        self.payload
    }

    /// The pseudo-header for the checksum of the transport segment that the
    /// datagram carries.
    pub fn pseudo_header(&self) -> (pseudo: PseudoHeader)
        ensures
            pseudo == ipv4_pseudo_header(self@),
            self@.payload.len() <= 0xffff,
    {
        proof {
            use_type_invariant(self);
            lemma_be_value_two(self.datagram@.subrange(2, 4));
        }
        PseudoHeader::V4 {
            src_ip: self.src_ip,
            dst_ip: self.dst_ip,
            protocol: self.protocol,
            length: self.payload.len() as u16,
        }
    }

    /// Whether the header checksum is right: recomputes the Internet checksum
    /// over the header, its checksum field taken as zero, and compares it
    /// with the one stored.
    pub fn verifying(&self) -> (holds: bool)
        ensures
            holds == header_checksum_holds(self.wire()),
            holds == (internet_checksum(checksummed_header(self.wire()))
                == self@.header_checksum),
    {
        proof {
            use_type_invariant(self);
        }
        let ihl = split_nibble(self.version_ihl).1;
        let covered: usize = if ihl > 5 {
            ihl as usize * 4
        } else {
            20
        };
        let front = slice_subrange(self.datagram, 0, 10);
        let back = slice_subrange(self.datagram, 12, covered);
        proof {
            let zeroes = seq![0u8, 0u8];
            assert(checksummed_header(self.datagram@) =~= (front@ + zeroes) + back@);
            assert(word_sum(zeroes) == 0) by {
                reveal_with_fuel(word_sum, 2);
            }
            lemma_be_value_two(self.datagram@.subrange(10, 12));
            lemma_word_sum_concat(front@, zeroes);
            lemma_word_sum_concat(front@ + zeroes, back@);
        }
        let total: u128 = sum_words(front) + sum_words(back);
        0xffff - fold(total) == self.header_checksum
    }
}

/// A buffer of at least twenty bytes whose version nibble is 4, whose total
/// length field is its own length and which is as long as the header that it
/// declares, is decoded, and the payload is what follows that header.
pub proof fn lemma_decode_succeeds(bytes: Seq<u8>)
    requires
        bytes.len() >= 20,
        split_nibble_spec(bytes[0]).0 == 4,
        be_value(bytes.subrange(2, 4)) == bytes.len(),
        header_len(split_nibble_spec(bytes[0]).1) <= bytes.len(),
    ensures
        ipv4_decode(bytes) matches Ok(packet) && packet.payload == bytes.subrange(
            header_len(split_nibble_spec(bytes[0]).1) as int,
            bytes.len() as int,
        ),
{
}

/// What holds of every decoded header: the version is 4 and each bit field
/// is within its width; the total length is the length of the datagram, and
/// header and payload make it up; options are there exactly when the header
/// is longer than five words, and fill what the header length declares beyond
/// the fixed twenty bytes.
pub proof fn lemma_decoded_header(bytes: Seq<u8>)
    requires
        ipv4_decode(bytes) is Ok,
    ensures
        ({
            let packet = ipv4_decode(bytes)->Ok_0;
            &&& packet.version == 4
            &&& packet.ihl <= 15
            &&& packet.dscp <= 63
            &&& packet.ecn <= 3
            &&& packet.flags <= 7
            &&& packet.fragment_offset <= 0x1fff
            &&& packet.total_length == bytes.len()
            &&& header_len(packet.ihl) + packet.payload.len() == packet.total_length
            &&& packet.options is Some <==> packet.ihl > 5
            &&& packet.ihl >= 5 ==> 20 + options_len(packet.ihl) == header_len(packet.ihl)
        }),
{
    lemma_be_value_two(bytes.subrange(2, 4));
    lemma_split_bits_joins(bytes[1], 6);
    lemma2_to64();
}

/// The options of a decoded header that is longer than five words take four
/// bytes for each word beyond the fifth.
pub proof fn lemma_options_length(bytes: Seq<u8>)
    requires
        ipv4_decode(bytes) is Ok,
        ipv4_decode(bytes)->Ok_0.ihl > 5,
    ensures
        ({
            let packet = ipv4_decode(bytes)->Ok_0;
            &&& packet.options matches Some(options)
            &&& options.len() == (packet.ihl - 5) * 4
            &&& options == bytes.subrange(20, 20 + (packet.ihl - 5) * 4)
        }),
{
}

/// Writing the checksum of a header, computed with the checksum field taken
/// as zero, into that field gives a header whose checksum holds.
pub proof fn lemma_written_checksum_holds(bytes: Seq<u8>)
    requires
        bytes.len() >= 20,
        bytes.len() >= header_len(split_nibble_spec(bytes[0]).1),
    ensures
        ({
            let sum = internet_checksum(checksummed_header(bytes));
            header_checksum_holds(
                bytes.update(10, (sum / 256) as u8).update(11, (sum % 256) as u8),
            )
        }),
{
    let sum = internet_checksum(checksummed_header(bytes));
    let written = bytes.update(10, (sum / 256) as u8).update(11, (sum % 256) as u8);
    assert(checksummed_header(written) =~= checksummed_header(bytes));
    lemma_be_value_two(written.subrange(10, 12));
}

/// A header whose checksum holds sums to all ones when it is summed as it
/// stands, checksum field included, which is how a receiver sums it.
pub proof fn lemma_header_sums_to_ones(bytes: Seq<u8>)
    requires
        bytes.len() >= 20,
        bytes.len() >= header_len(split_nibble_spec(bytes[0]).1),
        header_checksum_holds(bytes),
    ensures
        checksum_holds(bytes.subrange(0, checksummed_len(split_nibble_spec(bytes[0]).1) as int)),
{
    let header = bytes.subrange(0, checksummed_len(split_nibble_spec(bytes[0]).1) as int);
    let zeroed = checksummed_header(bytes);
    let stored = internet_checksum(zeroed);
    lemma_be_value_two(bytes.subrange(10, 12));
    lemma_checksum_holds_iff(zeroed, 10, stored);
    assert(zeroed.update(10, (stored / 256) as u8).update(11, (stored % 256) as u8) =~= header);
}

/// The pseudo-header of a decoded datagram is made of the bytes of its
/// header: the two addresses as the header spells them, a zero byte and the
/// protocol byte, followed by the length of the payload in two bytes.
pub proof fn lemma_pseudo_header_bytes(bytes: Seq<u8>)
    requires
        ipv4_decode(bytes) is Ok,
    ensures
        ({
            let packet = ipv4_decode(bytes)->Ok_0;
            ipv4_pseudo_header(packet).wire() == bytes.subrange(12, 20) + seq![0u8, bytes[9]]
                + be_bytes_u16(packet.payload.len() as u16)
        }),
{
    let source = bytes.subrange(12, 16);
    let destination = bytes.subrange(16, 20);
    lemma_be_value_bound(source);
    lemma_be_value_bound(destination);
    lemma_be_bytes_of_value(source);
    lemma_be_bytes_of_value(destination);
    assert(source + destination =~= bytes.subrange(12, 20));
}

/// Decoding is a function of the bytes: whatever two decodings of the same
/// bytes give is equal, field for field.
pub proof fn lemma_decode_twice<'a>(
    bytes: Seq<u8>,
    first: Result<Ipv4Packet<'a>, DecodeError>,
    second: Result<Ipv4Packet<'a>, DecodeError>,
)
    requires
        Ipv4Packet::decodes(bytes, first),
        Ipv4Packet::decodes(bytes, second),
    ensures
        first == second,
{
    if let Ok(one) = first {
        let other = second->Ok_0;
        assert(one.datagram =~= other.datagram);
        assert(one.payload =~= other.payload);
        assert(one.version_ihl == other.version_ihl);
        assert(one.dscp_ecn == other.dscp_ecn) by {
            lemma_split_bits_joins(one.dscp_ecn, 6);
            lemma_split_bits_joins(other.dscp_ecn, 6);
        }
        assert(one.flags_fragment_offset == other.flags_fragment_offset);
        match (one.options, other.options) {
            (Some(left), Some(right)) => {
                assert(left@ == right@);
                left.lemma_same_bytes(right);
            },
            _ => {},
        }
        assert(one.options == other.options);
    }
}

} // verus!
