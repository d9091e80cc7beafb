//! The Internet checksum (RFC 1071) and the pseudo-headers that bind a
//! transport segment to the IP header it travels under.

use crate::endian::{be_bytes_u128, be_bytes_u16, be_bytes_u32, lemma_be_bytes_len, push_be_bytes};
use vstd::arithmetic::div_mod::lemma_mod_multiples_vanish;
use vstd::prelude::*;

verus! {

/// Next-header number of ICMPv6, which its pseudo-header always names.
pub const ICMPV6_NEXT_HEADER: u8 = 58;

/// Sum of the big-endian 16-bit words of `bytes`, as a number without bound.
/// A last byte without a partner counts as the high byte of a word whose low
/// byte is zero.
pub open spec fn word_sum(bytes: Seq<u8>) -> nat
    decreases bytes.len(),
{
    if bytes.len() == 0 {
        0
    } else if bytes.len() == 1 {
        bytes[0] as nat * 256
    } else {
        bytes[0] as nat * 256 + bytes[1] as nat + word_sum(bytes.skip(2))
    }
}

/// One's-complement reduction of a sum to 16 bits: whatever is carried out of
/// the low 16 bits is added back in, until nothing is carried.
pub open spec fn fold_carries(sum: nat) -> nat
    decreases sum,
{
    if sum <= 0xffff {
        sum
    } else {
        fold_carries(sum / 0x1_0000 + sum % 0x1_0000)
    }
}

/// The Internet checksum of `bytes`: the complement of the one's-complement
/// sum of their 16-bit words.
pub open spec fn internet_checksum(bytes: Seq<u8>) -> u16 {
    (0xffff - fold_carries(word_sum(bytes))) as u16
}

/// Whether `bytes`, which hold their own checksum, sum to all ones.
pub open spec fn checksum_holds(bytes: Seq<u8>) -> bool {
    fold_carries(word_sum(bytes)) == 0xffff
}

/// The synthetic header that is summed in front of a transport segment. It is
/// built for one computation and never sent.
#[derive(Debug, Clone, Copy, PartialEq, Eq)]
#[allow(inconsistent_fields)]
pub enum PseudoHeader {
    /// TCP or UDP over IPv4.
    V4 { src_ip: u32, dst_ip: u32, protocol: u8, length: u16 },
    /// TCP or UDP over IPv6.
    V6 { src_ip: u128, dst_ip: u128, length: u32, next_header: u8 },
    /// ICMPv6, whose next-header field always holds 58.
    Icmpv6 { src_ip: u128, dst_ip: u128, length: u32 },
}

impl PseudoHeader {
    /// The bytes of the pseudo-header in the order in which they are summed.
    pub open spec fn wire(self) -> Seq<u8> {
        match self {
            PseudoHeader::V4 { src_ip, dst_ip, protocol, length } => be_bytes_u32(src_ip)
                + be_bytes_u32(dst_ip) + seq![0u8, protocol] + be_bytes_u16(length),
            PseudoHeader::V6 { src_ip, dst_ip, length, next_header } => be_bytes_u128(src_ip)
                + be_bytes_u128(dst_ip) + be_bytes_u32(length) + seq![0u8, 0u8, 0u8, next_header],
            PseudoHeader::Icmpv6 { src_ip, dst_ip, length } => be_bytes_u128(src_ip)
                + be_bytes_u128(dst_ip) + be_bytes_u32(length) + seq![
                0u8,
                0u8,
                0u8,
                ICMPV6_NEXT_HEADER,
            ],
        }
    }

    /// A pseudo-header is a whole number of 16-bit words: twelve bytes over
    /// IPv4, forty over IPv6.
    pub proof fn lemma_wire_len(self)
        ensures
            self.wire().len() == (if self is V4 {
                12nat
            } else {
                40nat
            }),
    {
        match self {
            PseudoHeader::V4 { src_ip, dst_ip, protocol, length } => {
                lemma_len_u32(src_ip);
                lemma_len_u32(dst_ip);
                lemma_len_u16(length);
            },
            PseudoHeader::V6 { src_ip, dst_ip, length, next_header } => {
                lemma_len_u128(src_ip);
                lemma_len_u128(dst_ip);
                lemma_len_u32(length);
            },
            PseudoHeader::Icmpv6 { src_ip, dst_ip, length } => {
                lemma_len_u128(src_ip);
                lemma_len_u128(dst_ip);
                lemma_len_u32(length);
            },
        }
    }

    /// Writes the pseudo-header out.
    pub fn to_bytes(&self) -> (bytes: Vec<u8>)
        ensures
            bytes@ == self.wire(),
    {
        let mut bytes: Vec<u8> = Vec::new();
        match *self {
            PseudoHeader::V4 { src_ip, dst_ip, protocol, length } => {
                push_u32(&mut bytes, src_ip);
                push_u32(&mut bytes, dst_ip);
                bytes.push(0);
                bytes.push(protocol);
                push_u16(&mut bytes, length);
            },
            PseudoHeader::V6 { src_ip, dst_ip, length, next_header } => {
                push_u128(&mut bytes, src_ip);
                push_u128(&mut bytes, dst_ip);
                push_u32(&mut bytes, length);
                bytes.push(0);
                bytes.push(0);
                bytes.push(0);
                bytes.push(next_header);
            },
            PseudoHeader::Icmpv6 { src_ip, dst_ip, length } => {
                push_u128(&mut bytes, src_ip);
                push_u128(&mut bytes, dst_ip);
                push_u32(&mut bytes, length);
                bytes.push(0);
                bytes.push(0);
                bytes.push(0);
                bytes.push(ICMPV6_NEXT_HEADER);
            },
        }
        assert(bytes@ =~= self.wire());
        bytes
    }
}

/// A 16-bit number is spelt with two bytes.
proof fn lemma_len_u16(value: u16)
    ensures
        be_bytes_u16(value).len() == 2,
{
    lemma_be_bytes_len(value as nat, 2);
}

/// A 32-bit number is spelt with four bytes.
proof fn lemma_len_u32(value: u32)
    ensures
        be_bytes_u32(value).len() == 4,
{
    lemma_be_bytes_len(value as nat, 4);
}

/// A 128-bit number is spelt with sixteen bytes.
proof fn lemma_len_u128(value: u128)
    ensures
        be_bytes_u128(value).len() == 16,
{
    lemma_be_bytes_len(value as nat, 16);
}

/// Appends the two bytes of `value`, most significant first.
fn push_u16(out: &mut Vec<u8>, value: u16)
    ensures
        final(out)@ == old(out)@ + be_bytes_u16(value),
{
    push_be_bytes(out, value as u128, 2);
}

/// Appends the four bytes of `value`, most significant first.
fn push_u32(out: &mut Vec<u8>, value: u32)
    ensures
        final(out)@ == old(out)@ + be_bytes_u32(value),
{
    push_be_bytes(out, value as u128, 4);
}

/// Appends the sixteen bytes of `value`, most significant first.
fn push_u128(out: &mut Vec<u8>, value: u128)
    ensures
        final(out)@ == old(out)@ + be_bytes_u128(value),
{
    push_be_bytes(out, value, 16);
}

/// Sum of the big-endian 16-bit words of `bytes`, an odd last byte padded
/// with a zero byte.
pub fn sum_words(bytes: &[u8]) -> (sum: u128)
    ensures
        sum == word_sum(bytes@),
        sum <= 0xffff * bytes.len(),
{
    let len = bytes.len();
    let mut sum: u128 = 0;
    let mut at: usize = 0;
    assert(bytes@.skip(0) =~= bytes@);
    while len - at >= 2
        invariant
            len == bytes@.len(),
            at <= len,
            sum + word_sum(bytes@.skip(at as int)) == word_sum(bytes@),
            sum <= 0xffff * at,
        decreases len - at,
    {
        assert(bytes@.skip(at as int).skip(2) =~= bytes@.skip(at + 2));
        let word: u128 = bytes[at] as u128 * 256 + bytes[at + 1] as u128;
        sum = sum + word;
        at = at + 2;
    }
    if at < len {
        sum = sum + bytes[at] as u128 * 256;
    }
    sum
}

/// Folds the carries of a sum of words back into its low 16 bits.
pub fn fold(sum: u128) -> (folded: u16)
    ensures
        folded == fold_carries(sum as nat),
{
    let mut rest: u128 = sum;
    while rest > 0xffff
        invariant
            fold_carries(rest as nat) == fold_carries(sum as nat),
        decreases rest,
    {
        rest = rest / 0x1_0000 + rest % 0x1_0000;
    }
    rest as u16
}

/// The Internet checksum of `bytes`.
pub fn checksum(bytes: &[u8]) -> (sum: u16)
    ensures
        sum == internet_checksum(bytes@),
{
    0xffff - fold(sum_words(bytes))
}

/// The checksum that belongs in the checksum field of `transport` under the
/// pseudo-header `pseudo`, computed over the pseudo-header followed by the
/// segment. The field itself is summed as it stands, so the caller zeroes it
/// first.
pub fn compute(pseudo: &PseudoHeader, transport: &[u8]) -> (sum: u16)
    ensures
        sum == internet_checksum(pseudo.wire() + transport@),
{
    let head = pseudo.to_bytes();
    proof {
        pseudo.lemma_wire_len();
        lemma_word_sum_concat(head@, transport@);
    }
    let total: u128 = sum_words(head.as_slice()) + sum_words(transport);
    0xffff - fold(total)
}

/// Whether the checksum that `transport` carries is the right one under the
/// pseudo-header `pseudo`: whether pseudo-header and segment, the checksum
/// field as it stands, sum to all ones.
pub fn verify(pseudo: &PseudoHeader, transport: &[u8]) -> (holds: bool)
    ensures
        holds == checksum_holds(pseudo.wire() + transport@),
{
    let head = pseudo.to_bytes();
    proof {
        pseudo.lemma_wire_len();
        lemma_word_sum_concat(head@, transport@);
    }
    let total: u128 = sum_words(head.as_slice()) + sum_words(transport);
    fold(total) == 0xffff
}

/// The words of two runs of bytes add up, as long as the first run does not
/// end in the middle of a word.
pub proof fn lemma_word_sum_concat(first: Seq<u8>, second: Seq<u8>)
    requires
        first.len() % 2 == 0,
    ensures
        word_sum(first + second) == word_sum(first) + word_sum(second),
    decreases first.len(),
{
    if first.len() == 0 {
        assert(first + second =~= second);
    } else {
        assert((first + second).skip(2) =~= first.skip(2) + second);
        lemma_word_sum_concat(first.skip(2), second);
    }
}

/// Folding the carries of a sum takes it to its residue modulo `0xffff`,
/// where a sum other than zero that is a multiple of `0xffff` folds to
/// `0xffff` itself and only zero folds to zero.
pub proof fn lemma_fold_carries_residue(sum: nat)
    ensures
        fold_carries(sum) == (if sum == 0 {
            0
        } else {
            (sum - 1) % 0xffff + 1
        }),
    decreases sum,
{
    if sum > 0xffff {
        let carried = sum / 0x1_0000;
        let next = carried + sum % 0x1_0000;
        lemma_fold_carries_residue(next);
        assert(sum - 1 == 0xffff * carried + (next - 1));
        lemma_mod_multiples_vanish(carried as int, next - 1, 0xffff);
    }
}

/// Writing a word over an aligned word of a message changes the sum of its
/// words by the difference of the two.
pub proof fn lemma_word_sum_update(bytes: Seq<u8>, at: int, high: u8, low: u8)
    requires
        0 <= at,
        at % 2 == 0,
        at + 2 <= bytes.len(),
    ensures
        word_sum(bytes.update(at, high).update(at + 1, low)) + bytes[at] * 256 + bytes[at + 1]
            == word_sum(bytes) + high * 256 + low,
    decreases at,
{
    let written = bytes.update(at, high).update(at + 1, low);
    if at == 0 {
        assert(written.skip(2) =~= bytes.skip(2));
    } else {
        assert(written.skip(2) =~= bytes.skip(2).update(at - 2, high).update(at - 1, low));
        lemma_word_sum_update(bytes.skip(2), at - 2, high, low);
    }
}

/// A message with an aligned checksum field sums to all ones exactly when
/// the field holds the checksum of the message with the field zeroed. The
/// one exception is the other spelling of zero: where that checksum is 0, a
/// field of `0xffff` sums to all ones as well.
pub proof fn lemma_checksum_holds_iff(bytes: Seq<u8>, at: int, stored: u16)
    requires
        0 <= at,
        at % 2 == 0,
        at + 2 <= bytes.len(),
        bytes[at] == 0,
        bytes[at + 1] == 0,
    ensures
        checksum_holds(bytes.update(at, (stored / 256) as u8).update(at + 1, (stored % 256) as u8))
            <==> (stored == internet_checksum(bytes) || (stored == 0xffff && internet_checksum(
            bytes,
        ) == 0)),
{
    let total = word_sum(bytes);
    lemma_fold_carries_residue(total);
    lemma_word_sum_update(bytes, at, (stored / 256) as u8, (stored % 256) as u8);
    let sealed: nat = total + stored as nat;
    lemma_fold_carries_residue(sealed);
    if total > 0 {
        let turns = (total - 1) / 0xffff;
        let residue = (total - 1) % 0xffff;
        assert(total - 1 == 0xffff * turns + residue);
        assert(sealed - 1 == 0xffff * turns + (residue + stored));
        lemma_mod_multiples_vanish(turns, residue + stored, 0xffff);
        if residue + stored >= 0xffff {
            lemma_mod_multiples_vanish(1, residue + stored - 0xffff, 0xffff);
        }
    }
}

/// A message with an aligned, zeroed checksum field holds its checksum once
/// the checksum computed over it is written into that field, high byte
/// first.
pub proof fn lemma_checksum_verifies(bytes: Seq<u8>, at: int)
    requires
        0 <= at,
        at % 2 == 0,
        at + 2 <= bytes.len(),
        bytes[at] == 0,
        bytes[at + 1] == 0,
    ensures
        ({
            let sum = internet_checksum(bytes);
            checksum_holds(bytes.update(at, (sum / 256) as u8).update(at + 1, (sum % 256) as u8))
        }),
{
    lemma_checksum_holds_iff(bytes, at, internet_checksum(bytes));
}

/// A transport segment with an aligned, zeroed checksum field passes
/// `verify` once the checksum that `compute` gives for it is written into
/// that field, high byte first.
pub proof fn lemma_computed_checksum_verifies(pseudo: PseudoHeader, transport: Seq<u8>, at: int)
    requires
        0 <= at,
        at % 2 == 0,
        at + 2 <= transport.len(),
        transport[at] == 0,
        transport[at + 1] == 0,
    ensures
        ({
            let sum = internet_checksum(pseudo.wire() + transport);
            checksum_holds(
                pseudo.wire() + transport.update(at, (sum / 256) as u8).update(
                    at + 1,
                    (sum % 256) as u8,
                ),
            )
        }),
{
    let head = pseudo.wire();
    let sum = internet_checksum(head + transport);
    pseudo.lemma_wire_len();
    lemma_checksum_verifies(head + transport, head.len() + at);
    assert((head + transport).update(head.len() + at, (sum / 256) as u8).update(
        head.len() + at + 1,
        (sum % 256) as u8,
    ) =~= head + transport.update(at, (sum / 256) as u8).update(at + 1, (sum % 256) as u8));
}

} // verus!
