//! The ways in which a buffer can fail to be a datagram.

use vstd::prelude::*;

verus! {

/// Why a buffer was not decoded. Each kind carries what was expected and what
/// was found, so that a caller can report the offending datagram.
#[derive(Debug, Clone, Copy, PartialEq, Eq, Structural)]
pub enum DecodeError {
    /// The buffer ends before a length that a header implies: `needed` bytes
    /// had to be there, counted from the start of the buffer, and only
    /// `available` were.
    Truncated { needed: usize, available: usize },
    /// The version nibble is not the one of the header that was asked for.
    WrongVersion { expected: u8, found: u8 },
    /// The version nibble names neither IPv4 nor IPv6.
    UnsupportedVersion(u8),
    /// A length field of the header disagrees with the bytes that are there:
    /// the header declares `declared` bytes where the buffer holds `actual`.
    LengthMismatch { declared: usize, actual: usize },
}

} // verus!
