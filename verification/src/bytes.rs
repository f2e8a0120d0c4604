//! Fixed-width fields: little-endian integers and byte runs.

use vstd::prelude::*;
use vstd::slice::slice_subrange;

use crate::error::Error;

verus! {

/// The number that the bytes of `s` spell, least significant byte first.
pub open spec fn le_value(s: Seq<u8>) -> nat
    decreases s.len(),
{
    if s.len() == 0 {
        0
    } else {
        s[0] as nat + 256 * le_value(s.drop_first())
    }
}

/// The `width` low bytes of `n`, least significant byte first.
pub open spec fn le_bytes(n: nat, width: nat) -> Seq<u8>
    decreases width,
{
    if width == 0 {
        Seq::empty()
    } else {
        seq![(n % 256) as u8] + le_bytes(n / 256, (width - 1) as nat)
    }
}

/// The count of numbers that `width` bytes can spell.
pub open spec fn radix(width: nat) -> nat
    decreases width,
{
    if width == 0 {
        1
    } else {
        256 * radix((width - 1) as nat)
    }
}

/// The little-endian integer of `width` bytes at the start of `s`.
pub open spec fn spec_read_le(s: Seq<u8>, width: nat) -> Result<nat, Error> {
    if s.len() < width {
        Err(Error::UnexpectedEof)
    } else {
        Ok(le_value(s.take(width as int)))
    }
}

/// The run of `len` bytes at the start of `s`.
pub open spec fn spec_read_exact(s: Seq<u8>, len: nat) -> Result<Seq<u8>, Error> {
    if s.len() < len {
        Err(Error::UnexpectedEof)
    } else {
        Ok(s.take(len as int))
    }
}

/// Reading back the bytes of a number that fits in them gives the number.
pub proof fn lemma_le_round_trip(n: nat, width: nat)
    requires
        n < radix(width),
    ensures
        le_bytes(n, width).len() == width,
        le_value(le_bytes(n, width)) == n,
    decreases width,
{
    if width > 0 {
        lemma_le_round_trip(n / 256, (width - 1) as nat);
        assert(le_bytes(n, width).drop_first() == le_bytes(n / 256, (width - 1) as nat));
    }
}

/// Bytes spell a number below the radix of their count.
pub proof fn lemma_le_value_bound(s: Seq<u8>)
    ensures
        le_value(s) < radix(s.len()),
    decreases s.len(),
{
    if s.len() > 0 {
        lemma_le_value_bound(s.drop_first());
    }
}

/// The sizes of the fields that occur in a snapshot.
pub proof fn lemma_radix_values()
    ensures
        radix(1) == 0x100,
        radix(2) == 0x1_0000,
        radix(4) == 0x1_0000_0000,
        radix(8) == 0x1_0000_0000_0000_0000,
{
    reveal_with_fuel(radix, 9);
}

/// Reads a 16-bit little-endian integer from the start of `input`.
pub fn read_u16_le(input: &[u8]) -> (r: Result<u16, Error>)
    ensures
        match r {
            Ok(v) => spec_read_le(input@, 2) == Ok::<nat, Error>(v as nat),
            Err(e) => spec_read_le(input@, 2) == Err::<nat, Error>(e),
        },
{
    if input.len() < 2 {
        return Err(Error::UnexpectedEof);
    }
    proof {
        reveal_with_fuel(le_value, 3);
        let s = input@.take(2);
        assert(s[0] == input@[0] && s.drop_first()[0] == input@[1]);
    }
    Ok(input[0] as u16 + 256 * (input[1] as u16))
}

/// Reads a 32-bit little-endian integer from the start of `input`.
pub fn read_u32_le(input: &[u8]) -> (r: Result<u32, Error>)
    ensures
        match r {
            Ok(v) => spec_read_le(input@, 4) == Ok::<nat, Error>(v as nat),
            Err(e) => spec_read_le(input@, 4) == Err::<nat, Error>(e),
        },
{
    if input.len() < 4 {
        return Err(Error::UnexpectedEof);
    }
    let mut value: u32 = 0;
    let mut i: usize = 4;
    while i > 0
        invariant
            i <= 4 <= input.len(),
            value == le_value(input@.subrange(i as int, 4)),
            value < radix((4 - i) as nat),
        decreases i,
    {
        i -= 1;
        proof {
            reveal_with_fuel(radix, 5);
            let s = input@.subrange(i as int, 4);
            assert(s.drop_first() == input@.subrange(i + 1, 4));
        }
        value = value * 256 + input[i] as u32;
    }
    assert(input@.subrange(0, 4) == input@.take(4));
    Ok(value)
}

/// Reads a 64-bit little-endian integer from the start of `input`.
pub fn read_u64_le(input: &[u8]) -> (r: Result<u64, Error>)
    ensures
        match r {
            Ok(v) => spec_read_le(input@, 8) == Ok::<nat, Error>(v as nat),
            Err(e) => spec_read_le(input@, 8) == Err::<nat, Error>(e),
        },
{
    if input.len() < 8 {
        return Err(Error::UnexpectedEof);
    }
    let mut value: u64 = 0;
    let mut i: usize = 8;
    while i > 0
        invariant
            i <= 8 <= input.len(),
            value == le_value(input@.subrange(i as int, 8)),
            value < radix((8 - i) as nat),
        decreases i,
    {
        i -= 1;
        proof {
            reveal_with_fuel(radix, 9);
            let s = input@.subrange(i as int, 8);
            assert(s.drop_first() == input@.subrange(i + 1, 8));
        }
        value = value * 256 + input[i] as u64;
    }
    assert(input@.subrange(0, 8) == input@.take(8));
    Ok(value)
}

/// Appends the `width` low bytes of `value`, least significant byte first.
pub fn write_le(out: &mut Vec<u8>, value: u64, width: usize)
    ensures
        final(out)@ == old(out)@ + le_bytes(value as nat, width as nat),
{
    let mut rest = value;
    let mut i: usize = 0;
    while i < width
        invariant
            i <= width,
            old(out)@ + le_bytes(value as nat, width as nat) == out@ + le_bytes(
                rest as nat,
                (width - i) as nat,
            ),
        decreases width - i,
    {
        let ghost before = out@;
        let ghost tail = le_bytes((rest / 256) as nat, (width - i - 1) as nat);
        out.push((rest % 256) as u8);
        assert(before + (seq![(rest % 256) as u8] + tail) == before.push((rest % 256) as u8)
            + tail);
        rest = rest / 256;
        i += 1;
    }
    assert(out@ + le_bytes(rest as nat, 0) == out@);
}

/// The bytes of `input` from `start` to `end`.
pub fn slice_range(input: &[u8], start: usize, end: usize) -> (out: &[u8])
    requires
        start <= end <= input.len(),
    ensures
        out@ == input@.subrange(start as int, end as int),
{
    slice_subrange(input, start, end)
}

/// The bytes of `input` from `start` on; nothing when `start` is past the end.
pub fn slice_from(input: &[u8], start: usize) -> (out: &[u8])
    ensures
        out@ == spec_skip(input@, start as nat),
{
    if start <= input.len() {
        slice_subrange(input, start, input.len())
    } else {
        slice_subrange(input, input.len(), input.len())
    }
}

/// What is left of `s` after its first `n` bytes.
pub open spec fn spec_skip(s: Seq<u8>, n: nat) -> Seq<u8> {
    if n <= s.len() {
        s.subrange(n as int, s.len() as int)
    } else {
        Seq::empty()
    }
}

/// Copies a byte run into a vector of its own.
pub fn to_vec(input: &[u8]) -> (out: Vec<u8>)
    ensures
        out@ == input@,
{
    let mut out: Vec<u8> = Vec::new();
    let mut i: usize = 0;
    while i < input.len()
        invariant
            i <= input.len(),
            out@ == input@.take(i as int),
        decreases input.len() - i,
    {
        out.push(input[i]);
        i += 1;
        assert(input@.take(i as int) == input@.take(i - 1).push(input@[i - 1]));
    }
    assert(input@.take(input.len() as int) == input@);
    out
}

/// Appends a byte run to a vector.
pub fn append(out: &mut Vec<u8>, input: &[u8])
    ensures
        final(out)@ == old(out)@ + input@,
{
    let mut i: usize = 0;
    while i < input.len()
        invariant
            i <= input.len(),
            out@ == old(out)@ + input@.take(i as int),
        decreases input.len() - i,
    {
        out.push(input[i]);
        i += 1;
        assert(input@.take(i as int) == input@.take(i - 1).push(input@[i - 1]));
    }
    assert(input@.take(input.len() as int) == input@);
}

/// The first 32 bytes of `input` as an array.
pub fn array_32(input: &[u8]) -> (out: [u8; 32])
    requires
        input.len() >= 32,
    ensures
        out@ == input@.take(32),
{
    let mut out = [0u8; 32];
    let mut i: usize = 0;
    while i < 32
        invariant
            i <= 32 <= input.len(),
            out@.len() == 32,
            forall|j: int| 0 <= j < i ==> out@[j] == input@[j],
        decreases 32 - i,
    {
        out[i] = input[i];
        i += 1;
    }
    out
}

} // verus!
