//! Compact sizes.
//!
//! ```text
//! size <  253        -- 1 byte
//! size <= u16::MAX   -- 3 bytes  (253 + 2 bytes)
//! size <= u32::MAX   -- 5 bytes  (254 + 4 bytes)
//! size >  u32::MAX   -- 9 bytes  (255 + 8 bytes)
//! ```
//!
//! Decoding takes any of the four forms for any value: a number that would
//! have fitted a shorter form is accepted in a longer one.

use vstd::prelude::*;

use crate::bytes::{
    le_bytes, le_value, lemma_le_round_trip, lemma_le_value_bound, lemma_radix_values,
    read_u16_le, read_u32_le, read_u64_le, slice_range, spec_read_le, write_le,
};
use crate::error::Error;

verus! {

/// A size as it stands in front of a list or as an index.
#[derive(Debug, Clone, Copy, PartialEq, Eq, PartialOrd, Ord, Structural)]
pub struct CompactSize(pub u64);

/// The encoding of `n`: the shortest of the four forms that holds it.
pub open spec fn spec_encode(n: nat) -> Seq<u8> {
    if n < 253 {
        seq![n as u8]
    } else if n <= 0xffff {
        seq![253u8] + le_bytes(n, 2)
    } else if n <= 0xffff_ffff {
        seq![254u8] + le_bytes(n, 4)
    } else {
        seq![255u8] + le_bytes(n, 8)
    }
}

/// The count of bytes that follow the prefix byte `prefix`.
pub open spec fn payload_width(prefix: u8) -> nat {
    if prefix < 253 {
        0
    } else if prefix == 253 {
        2
    } else if prefix == 254 {
        4
    } else {
        8
    }
}

/// The size at the start of `s` and the count of bytes it takes.
pub open spec fn spec_decode(s: Seq<u8>) -> Result<(u64, nat), Error> {
    if s.len() == 0 {
        Err(Error::UnexpectedEof)
    } else if s[0] < 253 {
        Ok((s[0] as u64, 1))
    } else {
        match spec_read_le(s.skip(1), payload_width(s[0])) {
            Ok(v) => Ok((v as u64, 1 + payload_width(s[0]))),
            Err(e) => Err(e),
        }
    }
}

impl CompactSize {
    /// The compact size of `value`.
    pub fn new(value: u64) -> (v: Self)
        ensures
            v == CompactSize(value),
    {
        Self(value)
    }

    /// Encodes the size in the shortest form that holds it.
    pub fn consensus_encode(&self) -> (bytes: Vec<u8>)
        ensures
            bytes@ == spec_encode(self.0 as nat),
    {
        let mut bytes: Vec<u8> = Vec::new();
        if self.0 < 253 {
            bytes.push(self.0 as u8);
            assert(bytes@ == seq![self.0 as u8]);
        } else if self.0 <= u16::MAX as u64 {
            bytes.push(253);
            assert(bytes@ == seq![253u8]);
            write_le(&mut bytes, self.0, 2);
        } else if self.0 <= u32::MAX as u64 {
            bytes.push(254);
            assert(bytes@ == seq![254u8]);
            write_le(&mut bytes, self.0, 4);
        } else {
            bytes.push(255);
            assert(bytes@ == seq![255u8]);
            write_le(&mut bytes, self.0, 8);
        }
        bytes
    }

    /// Decodes the size at the start of `input` and says how many bytes it
    /// took.
    pub fn consensus_decode(input: &[u8]) -> (r: Result<(CompactSize, usize), Error>)
        ensures
            match r {
                Ok((v, used)) => spec_decode(input@) == Ok::<(u64, nat), Error>(
                    (v.0, used as nat),
                ) && used <= input.len(),
                Err(e) => spec_decode(input@) == Err::<(u64, nat), Error>(e),
            },
    {
        if input.len() == 0 {
            return Err(Error::UnexpectedEof);
        }
        let size = input[0];
        let payload = slice_range(input, 1, input.len());
        assert(payload@ == input@.skip(1));
        if size < 253 {
            Ok((CompactSize(size as u64), 1))
        } else if size == 253 {
            match read_u16_le(payload) {
                Ok(num) => Ok((CompactSize(num as u64), 3)),
                Err(e) => Err(e),
            }
        } else if size == 254 {
            match read_u32_le(payload) {
                Ok(num) => Ok((CompactSize(num as u64), 5)),
                Err(e) => Err(e),
            }
        } else {
            match read_u64_le(payload) {
                Ok(num) => Ok((CompactSize(num), 9)),
                Err(e) => Err(e),
            }
        }
    }
}

/// Decoding inverts encoding: whatever follows the encoding of `n`, decoding
/// gives `n` back and takes exactly the bytes of the encoding.
pub proof fn lemma_decode_encode(n: u64, rest: Seq<u8>)
    ensures
        spec_decode(spec_encode(n as nat) + rest) == Ok::<(u64, nat), Error>(
            (n, spec_encode(n as nat).len()),
        ),
{
    let s = spec_encode(n as nat) + rest;
    lemma_radix_values();
    if n < 253 {
        assert(s[0] == n);
    } else {
        let width: nat = if n <= 0xffff {
            2
        } else if n <= 0xffff_ffff {
            4
        } else {
            8
        };
        lemma_le_round_trip(n as nat, width);
        assert(payload_width(s[0]) == width);
        assert(s.skip(1).take(width as int) == le_bytes(n as nat, width));
    }
}

/// A decoded size in one of the three long forms is the number that its
/// payload spells, whether or not a shorter form would have held it.
pub proof fn lemma_decode_accepts_long_forms(s: Seq<u8>)
    requires
        s.len() >= 1 + payload_width(s[0]),
        s[0] >= 253,
    ensures
        spec_decode(s) == Ok::<(u64, nat), Error>(
            (
                le_value(s.skip(1).take(payload_width(s[0]) as int)) as u64,
                1 + payload_width(s[0]),
            ),
        ),
        le_value(s.skip(1).take(payload_width(s[0]) as int)) <= u64::MAX,
{
    lemma_radix_values();
    lemma_le_value_bound(s.skip(1).take(payload_width(s[0]) as int));
}

/// Decoding takes no more bytes than there are, and at least one.
pub proof fn lemma_decode_in_bounds(s: Seq<u8>)
    ensures
        spec_decode(s) matches Ok((_, used)) ==> 1 <= used <= s.len(),
{
}

impl From<CompactSize> for u64 {
    fn from(compact_size: CompactSize) -> (r: u64) {
        compact_size.0
    }
}

impl vstd::std_specs::convert::FromSpecImpl<CompactSize> for u64 {
    open spec fn obeys_from_spec() -> bool {
        true
    }

    open spec fn from_spec(compact_size: CompactSize) -> u64 {
        compact_size.0
    }
}

impl From<u64> for CompactSize {
    fn from(value: u64) -> (r: CompactSize) {
        Self(value)
    }
}

impl vstd::std_specs::convert::FromSpecImpl<u64> for CompactSize {
    open spec fn obeys_from_spec() -> bool {
        true
    }

    open spec fn from_spec(value: u64) -> CompactSize {
        CompactSize(value)
    }
}

impl From<u32> for CompactSize {
    fn from(value: u32) -> (r: CompactSize) {
        Self(value as u64)
    }
}

impl vstd::std_specs::convert::FromSpecImpl<u32> for CompactSize {
    open spec fn obeys_from_spec() -> bool {
        true
    }

    open spec fn from_spec(value: u32) -> CompactSize {
        CompactSize(value as u64)
    }
}

impl From<u16> for CompactSize {
    fn from(value: u16) -> (r: CompactSize) {
        Self(value as u64)
    }
}

impl vstd::std_specs::convert::FromSpecImpl<u16> for CompactSize {
    open spec fn obeys_from_spec() -> bool {
        true
    }

    open spec fn from_spec(value: u16) -> CompactSize {
        CompactSize(value as u64)
    }
}

impl From<u8> for CompactSize {
    fn from(value: u8) -> (r: CompactSize) {
        Self(value as u64)
    }
}

impl vstd::std_specs::convert::FromSpecImpl<u8> for CompactSize {
    open spec fn obeys_from_spec() -> bool {
        true
    }

    open spec fn from_spec(value: u8) -> CompactSize {
        CompactSize(value as u64)
    }
}

} // verus!
