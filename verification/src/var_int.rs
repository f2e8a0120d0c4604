//! Variable-length integers.
//!
//! Bytes are a most-significant-first base-128 encoding of the number. The
//! high bit of each byte says whether another digit follows. To make the
//! encoding one-to-one, one is subtracted from all but the last digit.
//!
//! ```text
//! 0:         [0x00]  256:        [0x81 0x00]
//! 1:         [0x01]  16383:      [0xFE 0x7F]
//! 127:       [0x7F]  16384:      [0xFF 0x00]
//! 128:  [0x80 0x00]  16511:      [0xFF 0x7F]
//! 255:  [0x80 0x7F]  65535: [0x82 0xFE 0x7F]
//! 2^32:           [0x8E 0xFE 0xFE 0xFF 0x00]
//! ```

use vstd::prelude::*;

use crate::error::Error;

verus! {

/// The largest accumulator that can take in one more digit.
pub const MAX_SHIFTABLE: u64 = 0x01ff_ffff_ffff_ffff;

/// A variable-length integer.
#[derive(Debug, Clone, Copy, PartialEq, Eq, PartialOrd, Ord, Structural)]
pub struct VarInt(pub u64);

/// The digits that stand before the last one: each carries the continuation
/// bit, and together they stand for `n + 1` groups of 128.
pub open spec fn leading_digits(n: nat) -> Seq<u8>
    decreases n,
{
    if n < 128 {
        seq![(n + 128) as u8]
    } else {
        leading_digits((n / 128 - 1) as nat).push((n % 128 + 128) as u8)
    }
}

/// The encoding of `n`.
pub open spec fn spec_encode(n: nat) -> Seq<u8> {
    if n < 128 {
        seq![n as u8]
    } else {
        leading_digits((n / 128 - 1) as nat).push((n % 128) as u8)
    }
}

/// Decoding resumed at byte `i` of `s` with the value `acc` accumulated so
/// far. On success the result holds the number and the index after its last
/// byte.
pub open spec fn decode_from(s: Seq<u8>, i: nat, acc: nat) -> Result<(u64, nat), Error>
    decreases s.len() - i,
{
    if i >= s.len() {
        Err(Error::UnexpectedEof)
    } else if acc > MAX_SHIFTABLE {
        Err(Error::NonMinimalVarInt)
    } else {
        let n = acc * 128 + s[i as int] % 128;
        if s[i as int] >= 128 {
            if n == u64::MAX {
                Err(Error::NonMinimalVarInt)
            } else {
                decode_from(s, i + 1, (n + 1) as nat)
            }
        } else {
            Ok((n as u64, i + 1))
        }
    }
}

/// The number at the start of `s` and the count of bytes it takes.
pub open spec fn spec_decode(s: Seq<u8>) -> Result<(u64, nat), Error> {
    decode_from(s, 0, 0)
}

/// What remains to be written while encoding: the whole encoding of `num`
/// before the first byte is out, its leading digits afterwards.
spec fn pending(num: nat, first: bool) -> Seq<u8> {
    if first {
        spec_encode(num)
    } else {
        leading_digits(num)
    }
}

impl VarInt {
    /// The variable-length integer of `value`.
    pub fn new(value: u64) -> (v: Self)
        ensures
            v == VarInt(value),
    {
        Self(value)
    }

    /// Encodes the number, most significant digit first.
    pub fn consensus_encode(&self) -> (bytes: Vec<u8>)
        ensures
            bytes@ == spec_encode(self.0 as nat),
    {
        let mut num = self.0;
        let mut bytes: Vec<u8> = Vec::new();
        let mut first = true;
        loop
            invariant_except_break
                spec_encode(self.0 as nat) == pending(num as nat, first) + bytes@,
            ensures
                spec_encode(self.0 as nat) == bytes@,
            decreases num,
        {
            let low = num & 0x7f;
            let tmp = low | if first { 0x00 } else { 0x80 };
            assert(low == num % 128 && (low | 0x00) == low && (low | 0x80) == low + 128) by (bit_vector)
                requires
                    low == num & 0x7f,
            ;
            let ghost before = bytes@;
            bytes.insert(0, tmp as u8);
            assert(bytes@ == seq![tmp as u8] + before);
            if num <= 0x7f {
                assert(pending(num as nat, first) == seq![tmp as u8]);
                break ;
            }
            let ghost digit = pending(num as nat, first);
            assert(num >> 7 == num / 128 && num >> 7 >= 1) by (bit_vector)
                requires
                    num > 0x7f,
            ;
            num = (num >> 7) - 1;
            first = false;
            assert(digit == leading_digits(num as nat).push(tmp as u8));
            assert(digit + before == leading_digits(num as nat) + (seq![tmp as u8] + before));
        }
        bytes
    }

    /// Decodes the number at the start of `input` and says how many bytes it
    /// took.
    pub fn consensus_decode(input: &[u8]) -> (r: Result<(VarInt, usize), Error>)
        ensures
            match r {
                Ok((v, used)) => spec_decode(input@) == Ok::<(u64, nat), Error>(
                    (v.0, used as nat),
                ) && used <= input.len(),
                Err(e) => spec_decode(input@) == Err::<(u64, nat), Error>(e),
            },
    {
        let mut n: u64 = 0;
        let mut i: usize = 0;
        loop
            invariant
                i <= input.len(),
                spec_decode(input@) == decode_from(input@, i as nat, n as nat),
            decreases input.len() - i,
        {
            if i >= input.len() {
                return Err(Error::UnexpectedEof);
            }
            let b = input[i] as u64;
            if n > u64::MAX >> 7 {
                assert(u64::MAX >> 7 == MAX_SHIFTABLE) by (bit_vector);
                return Err(Error::NonMinimalVarInt);
            }
            assert(u64::MAX >> 7 == MAX_SHIFTABLE) by (bit_vector);
            let ghost acc = n;
            n = (n << 7) | (b & 0x7f);
            assert(n == acc * 128 + b % 128 && ((b & 0x80) != 0 <==> b >= 128)) by (bit_vector)
                requires
                    n == (acc << 7) | (b & 0x7f),
                    acc <= 0x01ff_ffff_ffff_ffff,
                    b < 256,
            ;
            if (b & 0x80) != 0 {
                if n == u64::MAX {
                    return Err(Error::NonMinimalVarInt);
                }
                n += 1;
                i += 1;
            } else {
                return Ok((VarInt(n), i + 1));
            }
        }
    }
}


/// Decoding a sequence that starts with the leading digits of `m` passes over
/// them and arrives at the accumulator `m + 1`.
proof fn lemma_decode_leading_digits(s: Seq<u8>, m: nat)
    requires
        m < u64::MAX,
        leading_digits(m).len() <= s.len(),
        s.take(leading_digits(m).len() as int) == leading_digits(m),
    ensures
        spec_decode(s) == decode_from(s, leading_digits(m).len(), m + 1),
    decreases m,
{
    let digits = leading_digits(m);
    if m < 128 {
        assert(s[0] == s.take(1)[0]);
    } else {
        let high = (m / 128 - 1) as nat;
        let len = leading_digits(high).len();
        assert(s.take(len as int) == s.take((len + 1) as int).take(len as int));
        assert(digits.take(len as int) == leading_digits(high));
        lemma_decode_leading_digits(s, high);
        assert(s[len as int] == s.take((len + 1) as int)[len as int]);
        assert(m / 128 <= MAX_SHIFTABLE);
        assert((m / 128) * 128 + (m % 128 + 128) % 128 == m);
    }
}

/// Decoding inverts encoding: whatever follows the encoding of `n`, decoding
/// gives `n` back and takes exactly the bytes of the encoding.
pub proof fn lemma_decode_encode(n: u64, rest: Seq<u8>)
    ensures
        spec_decode(spec_encode(n as nat) + rest) == Ok::<(u64, nat), Error>(
            (n, spec_encode(n as nat).len()),
        ),
{
    let s = spec_encode(n as nat) + rest;
    if n < 128 {
        assert(s[0] == n);
    } else {
        let high = (n / 128 - 1) as nat;
        let len = leading_digits(high).len();
        assert(s.take(len as int) == leading_digits(high));
        lemma_decode_leading_digits(s, high);
        assert(s[len as int] == (n % 128) as u8);
        assert((n / 128) * 128 + (n % 128) % 128 == n);
    }
}

/// The bytes passed over so far are the leading digits of the accumulator.
spec fn digits_so_far(s: Seq<u8>, i: nat, acc: nat) -> bool {
    if i == 0 {
        acc == 0
    } else {
        acc >= 1 && s.take(i as int) == leading_digits((acc - 1) as nat)
    }
}

proof fn lemma_decode_from_canonical(s: Seq<u8>, i: nat, acc: nat)
    requires
        i <= s.len(),
        digits_so_far(s, i, acc),
    ensures
        decode_from(s, i, acc) matches Ok((n, used)) ==> used <= s.len() && s.take(used as int)
            == spec_encode(n as nat),
    decreases s.len() - i,
{
    if i < s.len() && acc <= MAX_SHIFTABLE {
        let byte = s[i as int];
        let n = (acc * 128 + byte % 128) as nat;
        assert(s.take((i + 1) as int) == s.take(i as int).push(byte));
        if i > 0 {
            assert(n / 128 == acc && n % 128 == byte % 128);
        }
        if byte >= 128 {
            if n != u64::MAX {
                assert(byte == (byte % 128 + 128) as u8);
                assert(s.take((i + 1) as int) == leading_digits(n));
                lemma_decode_from_canonical(s, i + 1, n + 1);
            }
        } else {
            assert(byte == (byte % 128) as u8);
            assert(s.take((i + 1) as int) == spec_encode(n));
        }
    }
}

/// Every number has one encoding only: the bytes that decoding takes are the
/// encoding of the number it gives.
pub proof fn lemma_decoded_is_canonical(s: Seq<u8>)
    ensures
        spec_decode(s) matches Ok((n, used)) ==> used <= s.len() && s.take(used as int)
            == spec_encode(n as nat),
{
    lemma_decode_from_canonical(s, 0, 0);
}

/// Decoding takes no more bytes than there are, and at least one.
pub proof fn lemma_decode_in_bounds(s: Seq<u8>)
    ensures
        spec_decode(s) matches Ok((_, used)) ==> 1 <= used <= s.len(),
{
    lemma_decode_from_in_bounds(s, 0, 0);
}

proof fn lemma_decode_from_in_bounds(s: Seq<u8>, i: nat, acc: nat)
    ensures
        decode_from(s, i, acc) matches Ok((_, used)) ==> i < used <= s.len(),
    decreases s.len() - i,
{
    if i < s.len() && acc <= MAX_SHIFTABLE {
        let n = acc * 128 + s[i as int] % 128;
        if s[i as int] >= 128 && n != u64::MAX {
            lemma_decode_from_in_bounds(s, i + 1, (n + 1) as nat);
        }
    }
}

impl From<VarInt> for u64 {
    fn from(var_int: VarInt) -> (r: u64) {
        var_int.0
    }
}

impl vstd::std_specs::convert::FromSpecImpl<VarInt> for u64 {
    open spec fn obeys_from_spec() -> bool {
        true
    }

    open spec fn from_spec(var_int: VarInt) -> u64 {
        var_int.0
    }
}

impl From<u64> for VarInt {
    fn from(value: u64) -> (r: VarInt) {
        Self(value)
    }
}

impl vstd::std_specs::convert::FromSpecImpl<u64> for VarInt {
    open spec fn obeys_from_spec() -> bool {
        true
    }

    open spec fn from_spec(value: u64) -> VarInt {
        VarInt(value)
    }
}

impl From<u32> for VarInt {
    fn from(value: u32) -> (r: VarInt) {
        Self(value as u64)
    }
}

impl vstd::std_specs::convert::FromSpecImpl<u32> for VarInt {
    open spec fn obeys_from_spec() -> bool {
        true
    }

    open spec fn from_spec(value: u32) -> VarInt {
        VarInt(value as u64)
    }
}

impl From<u16> for VarInt {
    fn from(value: u16) -> (r: VarInt) {
        Self(value as u64)
    }
}

impl vstd::std_specs::convert::FromSpecImpl<u16> for VarInt {
    open spec fn obeys_from_spec() -> bool {
        true
    }

    open spec fn from_spec(value: u16) -> VarInt {
        VarInt(value as u64)
    }
}

impl From<u8> for VarInt {
    fn from(value: u8) -> (r: VarInt) {
        Self(value as u64)
    }
}

impl vstd::std_specs::convert::FromSpecImpl<u8> for VarInt {
    open spec fn obeys_from_spec() -> bool {
        true
    }

    open spec fn from_spec(value: u8) -> VarInt {
        VarInt(value as u64)
    }
}

} // verus!
