//! Extraction of the bit fields that the IP headers pack into single bytes
//! and 16-bit words.

use vstd::arithmetic::power2::{lemma2_to64, pow2};
use vstd::bits::{lemma_u8_shl_is_mul, lemma_u8_shr_is_div};
use vstd::prelude::*;

verus! {

/// Number of bits left to the low part when a byte is cut after its `at` most
/// significant bits. A cut at 8 or beyond leaves nothing to the low part.
pub open spec fn low_width(at: u8) -> nat {
    if at >= 8 {
        0
    } else {
        (8 - at) as nat
    }
}

/// The high and the low four bits of `byte`.
pub open spec fn split_nibble_spec(byte: u8) -> (u8, u8) {
    (byte / 16, byte % 16)
}

/// The `at` most significant bits of `byte`, and the bits below them.
pub open spec fn split_bits_spec(byte: u8, at: u8) -> (u8, u8) {
    (
        (byte as nat / pow2(low_width(at))) as u8,
        (byte as nat % pow2(low_width(at))) as u8,
    )
}

/// The three flag bits at the top of `word` and the thirteen offset bits
/// below them.
pub open spec fn split_flags_offset_spec(word: u16) -> (u8, u16) {
    ((word / 0x2000) as u8, word % 0x2000)
}

/// Splits a byte into its high and low nibble.
pub fn split_nibble(byte: u8) -> (parts: (u8, u8))
    ensures
        parts == split_nibble_spec(byte),
{
    assert(byte >> 4 == byte / 16) by (bit_vector);
    assert(byte & 0x0f == byte % 16) by (bit_vector);
    (byte >> 4, byte & 0x0f)
}

/// Splits a byte after its `at` most significant bits. The first part holds
/// those bits, the second the remaining ones, each as a number of its own.
/// A cut at 0 leaves the whole byte in the low part, a cut at 8 or beyond
/// leaves it in the high part.
pub fn split_bits(byte: u8, at: u8) -> (parts: (u8, u8))
    ensures
        parts == split_bits_spec(byte, at),
{
    proof {
        lemma2_to64();
    }
    if at >= 8 {
        proof {
            lemma_split_arith(byte as nat, pow2(0));
        }
        (byte, 0)
    } else if at == 0 {
        proof {
            lemma_split_arith(byte as nat, pow2(8));
        }
        (0, byte)
    } else {
        let width: u8 = 8 - at;
        let high: u8 = byte >> width;
        proof {
            lemma_u8_shr_is_div(byte, width);
            lemma_split_arith(byte as nat, pow2(width as nat));
            lemma_u8_shl_is_mul(high, width);
        }
        let low: u8 = byte - (high << width);
        (high, low)
    }
}

/// Splits the 16-bit flags and fragment offset word of an IPv4 header.
pub fn split_flags_offset(word: u16) -> (parts: (u8, u16))
    ensures
        parts == split_flags_offset_spec(word),
{
    assert(word >> 13 == word / 0x2000) by (bit_vector);
    assert(word & 0x1fff == word % 0x2000) by (bit_vector);
    ((word >> 13) as u8, word & 0x1fff)
}

/// Quotient and remainder by `unit` take `value` apart and bound each other.
proof fn lemma_split_arith(value: nat, unit: nat)
    by (nonlinear_arith)
    requires
        unit > 0,
    ensures
        (value / unit) * unit <= value,
        value - (value / unit) * unit == value % unit,
        value % unit < unit,
        value / unit <= value,
        unit == 1 ==> value / unit == value,
        value < unit ==> value / unit == 0,
{
}

/// The nibbles of a byte, the high one shifted back into place, join to the
/// byte they were taken from.
pub proof fn lemma_split_nibble_joins(byte: u8)
    ensures
        ({
            let (high, low) = split_nibble_spec(byte);
            (high << 4) | low == byte
        }),
{
    assert(((byte / 16) << 4) | (byte % 16) == byte) by (bit_vector);
}

/// The flags and the fragment offset of a word, the flags shifted back to the
/// top three bits, join to the word they were taken from.
pub proof fn lemma_split_flags_offset_joins(word: u16)
    ensures
        ({
            let (flags, offset) = split_flags_offset_spec(word);
            ((flags as u16) << 13) | offset == word
        }),
{
    assert((((word / 0x2000) as u8) as u16) << 13 | (word % 0x2000) == word) by (bit_vector);
}

/// The two parts of a split byte are in range for their widths and put the
/// byte together again: the high part counts units of `2^low_width(at)`.
pub proof fn lemma_split_bits_joins(byte: u8, at: u8)
    ensures
        ({
            let (high, low) = split_bits_spec(byte, at);
            &&& low < pow2(low_width(at))
            &&& high * pow2(low_width(at)) + low == byte
        }),
{
    lemma2_to64();
    let unit = pow2(low_width(at));
    lemma_split_arith(byte as nat, unit);
}

/// Cutting a byte after six bits gives its quotient and remainder by four:
/// the code point and the congestion bits of the traffic class byte.
pub proof fn lemma_split_bits_at_six(byte: u8)
    ensures
        split_bits_spec(byte, 6) == (byte / 4, byte % 4),
{
    lemma2_to64();
}

/// Cutting a byte in the middle gives its nibbles.
pub proof fn lemma_split_bits_at_four(byte: u8)
    ensures
        split_bits_spec(byte, 4) == split_nibble_spec(byte),
{
    lemma2_to64();
}

} // verus!
