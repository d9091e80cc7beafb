//! Big-endian numbers: what a run of bytes spells, and the bytes that spell
//! a number.
//!
//! Header fields are read with the `byteorder` crate. The three functions
//! that call it are the only ones here whose contracts are taken on trust;
//! each says which function it calls and what it takes from it.

use byteorder::{BigEndian, ByteOrder};
use vstd::prelude::*;
use vstd::slice::slice_subrange;

verus! {

/// The number that `bytes` spell in base 256, most significant byte first.
pub open spec fn be_value(bytes: Seq<u8>) -> nat
    decreases bytes.len(),
{
    if bytes.len() == 0 {
        0
    } else {
        be_value(bytes.drop_last()) * 256 + bytes.last() as nat
    }
}

/// The `width` least significant base-256 digits of `value`, most significant
/// digit first.
pub open spec fn be_bytes(value: nat, width: nat) -> Seq<u8>
    decreases width,
{
    if width == 0 {
        Seq::empty()
    } else {
        be_bytes(value / 256, (width - 1) as nat).push((value % 256) as u8)
    }
}

/// The two bytes of a 16-bit number, most significant first.
pub open spec fn be_bytes_u16(value: u16) -> Seq<u8> {
    be_bytes(value as nat, 2)
}

/// The four bytes of a 32-bit number, most significant first.
pub open spec fn be_bytes_u32(value: u32) -> Seq<u8> {
    be_bytes(value as nat, 4)
}

/// The sixteen bytes of a 128-bit number, most significant first.
pub open spec fn be_bytes_u128(value: u128) -> Seq<u8> {
    be_bytes(value as nat, 16)
}

/// A number is spelt with as many bytes as were asked for.
pub proof fn lemma_be_bytes_len(value: nat, width: nat)
    ensures
        be_bytes(value, width).len() == width,
    decreases width,
{
    if width > 0 {
        lemma_be_bytes_len(value / 256, (width - 1) as nat);
    }
}

/// The number of values that `width` bytes can spell: 256 to the power of
/// `width`.
pub open spec fn be_limit(width: nat) -> nat
    decreases width,
{
    if width == 0 {
        1
    } else {
        256 * be_limit((width - 1) as nat)
    }
}

/// A run of bytes spells a number below the limit of its length. Two bytes
/// stay within 16 bits, four within 32 and sixteen within 128.
pub proof fn lemma_be_value_bound(bytes: Seq<u8>)
    ensures
        be_value(bytes) < be_limit(bytes.len()),
        bytes.len() == 2 ==> be_value(bytes) <= u16::MAX,
        bytes.len() == 4 ==> be_value(bytes) <= u32::MAX,
        bytes.len() == 16 ==> be_value(bytes) <= u128::MAX,
    decreases bytes.len(),
{
    if bytes.len() > 0 {
        lemma_be_value_bound(bytes.drop_last());
    }
    assert(be_limit(2) == 0x1_0000 && be_limit(4) == 0x1_0000_0000) by {
        reveal_with_fuel(be_limit, 5);
    }
    assert(be_limit(16) == 0x1_0000_0000_0000_0000_0000_0000_0000_0000) by {
        reveal_with_fuel(be_limit, 17);
    }
}

/// Spelling the number that `bytes` spell, with as many bytes, gives `bytes`
/// back.
pub proof fn lemma_be_bytes_of_value(bytes: Seq<u8>)
    ensures
        be_bytes(be_value(bytes), bytes.len()) == bytes,
    decreases bytes.len(),
{
    if bytes.len() > 0 {
        lemma_be_bytes_of_value(bytes.drop_last());
        assert(bytes.drop_last().push(bytes.last()) =~= bytes);
    }
}

/// Two bytes spell `256 * first + second`.
pub proof fn lemma_be_value_two(bytes: Seq<u8>)
    requires
        bytes.len() == 2,
    ensures
        be_value(bytes) == bytes[0] as nat * 256 + bytes[1] as nat,
{
    reveal_with_fuel(be_value, 3);
    assert(bytes.drop_last().drop_last().len() == 0);
}

/// Calls `byteorder::ByteOrder::read_u16` of `byteorder::BigEndian`. Taken on
/// trust from the crate: the result is the number that the first two bytes
/// of `bytes` spell, most significant byte first. The call panics on fewer
/// than two bytes, which the precondition leaves out.
#[verifier::external_body]
pub(crate) fn read_u16_be(bytes: &[u8]) -> (value: u16)
    requires
        bytes@.len() >= 2,
    ensures
        value as nat == be_value(bytes@.subrange(0, 2)),
{
    BigEndian::read_u16(bytes)
}

/// Calls `byteorder::ByteOrder::read_u32` of `byteorder::BigEndian`. Taken on
/// trust from the crate: the result is the number that the first four bytes
/// of `bytes` spell, most significant byte first. The call panics on fewer
/// than four bytes, which the precondition leaves out.
#[verifier::external_body]
pub(crate) fn read_u32_be(bytes: &[u8]) -> (value: u32)
    requires
        bytes@.len() >= 4,
    ensures
        value as nat == be_value(bytes@.subrange(0, 4)),
{
    BigEndian::read_u32(bytes)
}

/// Calls `byteorder::ByteOrder::read_u128` of `byteorder::BigEndian`. Taken
/// on trust from the crate: the result is the number that the first sixteen
/// bytes of `bytes` spell, most significant byte first. The call panics on
/// fewer than sixteen bytes, which the precondition leaves out.
#[verifier::external_body]
pub(crate) fn read_u128_be(bytes: &[u8]) -> (value: u128)
    requires
        bytes@.len() >= 16,
    ensures
        value as nat == be_value(bytes@.subrange(0, 16)),
{
    BigEndian::read_u128(bytes)
}

/// The big-endian 16-bit field that starts at byte `at` of `buf`.
pub(crate) fn read_u16_at(buf: &[u8], at: usize) -> (value: u16)
    requires
        at + 2 <= buf.len(),
    ensures
        value as nat == be_value(buf@.subrange(at as int, at + 2)),
{
    let field = slice_subrange(buf, at, at + 2);
    assert(field@.subrange(0, 2) =~= field@);
    read_u16_be(field)
}

/// The big-endian 32-bit field that starts at byte `at` of `buf`.
pub(crate) fn read_u32_at(buf: &[u8], at: usize) -> (value: u32)
    requires
        at + 4 <= buf.len(),
    ensures
        value as nat == be_value(buf@.subrange(at as int, at + 4)),
{
    let field = slice_subrange(buf, at, at + 4);
    assert(field@.subrange(0, 4) =~= field@);
    read_u32_be(field)
}

/// The big-endian 128-bit field that starts at byte `at` of `buf`.
pub(crate) fn read_u128_at(buf: &[u8], at: usize) -> (value: u128)
    requires
        at + 16 <= buf.len(),
    ensures
        value as nat == be_value(buf@.subrange(at as int, at + 16)),
{
    let field = slice_subrange(buf, at, at + 16);
    assert(field@.subrange(0, 16) =~= field@);
    read_u128_be(field)
}

/// Appends the `width` least significant bytes of `value` to `out`, most
/// significant byte first.
pub fn push_be_bytes(out: &mut Vec<u8>, value: u128, width: usize)
    ensures
        final(out)@ == old(out)@ + be_bytes(value as nat, width as nat),
    decreases width,
{
    if width > 0 {
        push_be_bytes(out, value / 256, width - 1);
        out.push((value % 256) as u8);
        assert(final(out)@ =~= old(out)@ + be_bytes(value as nat, width as nat));
    } else {
        assert(final(out)@ =~= old(out)@ + be_bytes(value as nat, width as nat));
    }
}

} // verus!
