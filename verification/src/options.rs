//! The options region of an IPv4 header, kept as the bytes it occupies.

use crate::bytes::same_bytes;
use crate::error::DecodeError;
use vstd::prelude::*;
use vstd::slice::slice_subrange;
use vstd::std_specs::cmp::PartialEqSpecImpl;

verus! {

/// Length in bytes of the options region, padding included, that a header
/// length of `ihl` 32-bit words declares: whatever exceeds the five words of
/// the fixed header.
pub open spec fn options_len(ihl: u8) -> nat {
    if ihl > 5 {
        ((ihl - 5) * 4) as nat
    } else {
        0
    }
}

/// The options of an IPv4 header with their padding, borrowed from the
/// datagram. Their kinds are left to the caller to interpret.
#[derive(Debug, Clone, Copy, Eq)]
pub struct Options<'a> {
    bytes: &'a [u8],
}

impl<'a> PartialEq for Options<'a> {
    /// Compares the bytes of the two regions.
    fn eq(&self, other: &Self) -> (equal: bool) {
        proof {
            if self@ == other@ {
                self.lemma_same_bytes(*other);
            }
        }
        same_bytes(self.bytes, other.bytes)
    }
}

impl<'a> PartialEqSpecImpl for Options<'a> {
    open spec fn obeys_eq_spec() -> bool {
        true
    }

    /// Equality of regions is equality of their bytes.
    open spec fn eq_spec(&self, other: &Self) -> bool {
        *self == *other
    }
}

impl<'a> View for Options<'a> {
    type V = Seq<u8>;

    closed spec fn view(&self) -> Seq<u8> {
        self.bytes@
    }
}

impl<'a> Options<'a> {
    /// Takes the options region off the front of `bytes`, the span that
    /// follows the fixed header, for a header length of `ihl` words. Returns
    /// the region and the number of bytes it occupies, or `Truncated` when
    /// `bytes` ends before the region does.
    pub fn parse(bytes: &'a [u8], ihl: u8) -> (parsed: Result<(Options<'a>, usize), DecodeError>)
        ensures
            match parsed {
                Ok((options, consumed)) => {
                    &&& options_len(ihl) <= bytes@.len()
                    &&& consumed == options_len(ihl)
                    &&& options@ == bytes@.subrange(0, options_len(ihl) as int)
                },
                Err(error) => {
                    &&& bytes@.len() < options_len(ihl)
                    &&& error == (DecodeError::Truncated {
                        needed: options_len(ihl) as usize,
                        available: bytes@.len() as usize,
                    })
                },
            },
    {
        let declared: usize = if ihl > 5 {
            (ihl as usize - 5) * 4
        } else {
            0
        };
        if bytes.len() < declared {
            Err(DecodeError::Truncated { needed: declared, available: bytes.len() })
        } else {
            Ok((Options { bytes: slice_subrange(bytes, 0, declared) }, declared))
        }
    }

    /// Two regions of the same bytes are the same region.
    pub proof fn lemma_same_bytes(self, other: Options<'a>)
        requires
            self@ == other@,
        ensures
            self == other,
    {
        assert(self.bytes =~= other.bytes);
    }

    /// Number of bytes in the region.
    pub fn len(&self) -> (len: usize)
        ensures
            len == self@.len(),
    {
        self.bytes.len()
    }

    /// The bytes of the region.
    pub fn as_bytes(&self) -> (bytes: &'a [u8])
        ensures
            bytes@ == self@,
    {
        self.bytes
    }
}

} // verus!
