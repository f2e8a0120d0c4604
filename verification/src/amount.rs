//! Amounts of satoshis and their compressed form.
//!
//! Round amounts are common, so an amount is stored with its trailing decimal
//! zeros factored out: up to nine zeros are stripped and counted, and the
//! count and what is left are packed into one integer, which is written as a
//! variable-length integer.

use vstd::prelude::*;

use crate::error::{Error, Field};
use crate::var_int;
use crate::var_int::VarInt;

verus! {

/// A compressible amount of satoshis.
#[derive(Debug, Clone, Copy, PartialEq, Eq, PartialOrd, Ord, Structural)]
pub struct Amount(pub u64);

/// An amount in its packed form.
#[derive(Debug, Clone, Copy, PartialEq, Eq, PartialOrd, Ord, Structural)]
pub struct CompressedAmount(pub u64);

/// The number `n` with `e` decimal zeros written after it.
pub open spec fn scale10(n: nat, e: nat) -> nat
    decreases e,
{
    if e == 0 {
        n
    } else {
        10 * scale10(n, (e - 1) as nat)
    }
}

/// Strips trailing decimal zeros from `n` until nine are gone in all, `e` of
/// them being gone already. Gives what is left and the count of zeros gone.
pub open spec fn strip_zeros(n: nat, e: nat) -> (nat, nat)
    decreases 9 - e,
{
    if n % 10 == 0 && e < 9 {
        strip_zeros(n / 10, e + 1)
    } else {
        (n, e)
    }
}

/// The packed form of the amount `n`.
pub open spec fn spec_compress(n: nat) -> nat {
    if n == 0 {
        0
    } else {
        let (m, e) = strip_zeros(n, 0);
        if e < 9 {
            (1 + ((m / 10) * 9 + m % 10 - 1) * 10 + e) as nat
        } else {
            (1 + (m - 1) * 10 + 9) as nat
        }
    }
}

/// The amount whose packed form is `x`.
pub open spec fn spec_decompress(x: nat) -> nat {
    if x == 0 {
        0
    } else {
        let y = (x - 1) as nat;
        let e = y % 10;
        let q = y / 10;
        let n = if e < 9 {
            (q / 9) * 10 + q % 9 + 1
        } else {
            q + 1
        };
        scale10(n, e)
    }
}

/// The bytes of the amount `n`: its packed form as a variable-length integer.
pub open spec fn spec_encode(n: nat) -> Seq<u8> {
    var_int::spec_encode(spec_compress(n))
}

/// The amount at the start of `s` and the count of bytes it takes. A packed
/// form that stands for more than 64 bits can hold is malformed.
pub open spec fn spec_decode(s: Seq<u8>) -> Result<(u64, nat), Error> {
    match var_int::spec_decode(s) {
        Ok((x, used)) => if spec_decompress(x as nat) <= u64::MAX {
            Ok((spec_decompress(x as nat) as u64, used))
        } else {
            Err(Error::ParseFailed(Field::Amount))
        },
        Err(e) => Err(e),
    }
}

/// Writing a zero after a number before or after `e` others comes to the
/// same. A number with zeros after it is no less than without.
proof fn lemma_scale10_step(n: nat, e: nat)
    ensures
        scale10(10 * n, e) == 10 * scale10(n, e),
        scale10(n, e) >= n,
    decreases e,
{
    if e > 0 {
        lemma_scale10_step(n, (e - 1) as nat);
    }
}

/// Stripping keeps the amount: what is left, with the zeros newly gone
/// written after it, is what there was. It stops at a nonzero last digit or
/// at nine zeros.
proof fn lemma_strip_zeros(n: nat, e: nat)
    requires
        n > 0,
        e <= 9,
    ensures
        ({
            let (m, f) = strip_zeros(n, e);
            &&& e <= f <= 9
            &&& m > 0
            &&& m <= n
            &&& scale10(m, (f - e) as nat) == n
            &&& f < 9 ==> m % 10 != 0
        }),
    decreases 9 - e,
{
    if n % 10 == 0 && e < 9 {
        lemma_strip_zeros(n / 10, e + 1);
    }
}

/// Stripping takes away exactly the zeros that were written after a number,
/// as long as no more than nine are gone in all.
proof fn lemma_strip_scaled(m: nat, j: nat, e: nat)
    requires
        m > 0,
        e + j <= 9,
        e + j < 9 ==> m % 10 != 0,
    ensures
        strip_zeros(scale10(m, j), e) == (m, e + j),
    decreases j,
{
    if j > 0 {
        lemma_scale10_step(m, (j - 1) as nat);
        lemma_strip_scaled(m, (j - 1) as nat, e + 1);
    }
}

/// Unpacking inverts packing, for every amount.
pub proof fn lemma_decompress_compress(n: nat)
    ensures
        spec_decompress(spec_compress(n)) == n,
{
    if n > 0 {
        lemma_strip_zeros(n, 0);
    }
}

/// Packing inverts unpacking, for every packed value: no two packed values
/// stand for one amount.
pub proof fn lemma_compress_decompress(x: nat)
    ensures
        spec_compress(spec_decompress(x)) == x,
{
    if x > 0 {
        let y = (x - 1) as nat;
        let e = y % 10;
        let q = y / 10;
        if e < 9 {
            let n = (q / 9) * 10 + q % 9 + 1;
            assert(n / 10 == q / 9 && n % 10 == q % 9 + 1);
            lemma_scaled_is_stripped(n, e);
            assert((n / 10) * 9 + n % 10 - 1 == q);
        } else {
            lemma_scaled_is_stripped(q + 1, e);
        }
    }
}

/// An amount made of `m` and `e` zeros, `m` ending in a nonzero digit unless
/// `e` is nine, is positive and strips back to `m` and `e`.
proof fn lemma_scaled_is_stripped(m: nat, e: nat)
    requires
        m > 0,
        e <= 9,
        e < 9 ==> m % 10 != 0,
    ensures
        scale10(m, e) > 0,
        strip_zeros(scale10(m, e), 0) == (m, e),
{
    lemma_strip_scaled(m, e, 0);
    lemma_scale10_step(m, e);
}

/// A packed form is less than ten times the amount: every amount up to a
/// ninth of the 64-bit range has a packed form of 64 bits.
pub proof fn lemma_compress_bound(n: nat)
    ensures
        spec_compress(n) <= 9 * n + 8,
{
    if n > 0 {
        lemma_strip_zeros(n, 0);
        let (m, e) = strip_zeros(n, 0);
        if e == 9 {
            reveal_with_fuel(scale10, 10);
        } else {
            assert(m == 10 * (m / 10) + m % 10);
        }
    }
}

/// Decoding an amount inverts encoding it, whatever follows the encoding.
pub proof fn lemma_decode_encode(n: u64, rest: Seq<u8>)
    requires
        spec_compress(n as nat) <= u64::MAX,
    ensures
        spec_decode(spec_encode(n as nat) + rest) == Ok::<(u64, nat), Error>(
            (n, spec_encode(n as nat).len()),
        ),
{
    var_int::lemma_decode_encode(spec_compress(n as nat) as u64, rest);
    lemma_decompress_compress(n as nat);
}

/// Decoding takes no more bytes than there are, and at least one.
pub proof fn lemma_decode_in_bounds(s: Seq<u8>)
    ensures
        spec_decode(s) matches Ok((_, used)) ==> 1 <= used <= s.len(),
{
    var_int::lemma_decode_in_bounds(s);
}

impl Amount {
    /// The amount of `n` satoshis.
    pub fn new(n: u64) -> (a: Self)
        ensures
            a == Amount(n),
    {
        Self(n)
    }

    /// Packs the amount, or says that its packed form does not fit in 64
    /// bits.
    pub fn checked_compress(&self) -> (r: Option<CompressedAmount>)
        ensures
            r == if spec_compress(self.0 as nat) <= u64::MAX {
                Some(CompressedAmount(spec_compress(self.0 as nat) as u64))
            } else {
                None
            },
    {
        let mut n = self.0;

        if n == 0 {
            return Some(CompressedAmount(0));
        }
        let mut e: u64 = 0;
        while ((n % 10) == 0) && e < 9
            invariant
                n > 0,
                e <= 9,
                strip_zeros(self.0 as nat, 0) == strip_zeros(n as nat, e as nat),
            decreases 9 - e,
        {
            n /= 10;
            e += 1;
        }

        let x: u128 = if e < 9 {
            let d = n % 10;
            assert(1 <= d <= 9);
            n /= 10;
            1 + (n as u128 * 9 + d as u128 - 1) * 10 + e as u128
        } else {
            1 + (n as u128 - 1) * 10 + 9
        };

        if x <= u64::MAX as u128 {
            Some(CompressedAmount(x as u64))
        } else {
            None
        }
    }

    /// Packs the amount.
    pub fn compress(&self) -> (c: CompressedAmount)
        requires
            spec_compress(self.0 as nat) <= u64::MAX,
        ensures
            c.0 == spec_compress(self.0 as nat),
    {
        self.checked_compress().unwrap()
    }

    /// Encodes the amount: its packed form as a variable-length integer.
    pub fn consensus_encode(&self) -> (bytes: Vec<u8>)
        requires
            spec_compress(self.0 as nat) <= u64::MAX,
        ensures
            bytes@ == spec_encode(self.0 as nat),
    {
        let compressed = self.compress();
        let var_int = VarInt::new(compressed.0);

        var_int.consensus_encode()
    }

    /// Decodes the amount at the start of `input` and says how many bytes it
    /// took.
    pub fn consensus_decode(input: &[u8]) -> (r: Result<(Amount, usize), Error>)
        ensures
            match r {
                Ok((a, used)) => spec_decode(input@) == Ok::<(u64, nat), Error>(
                    (a.0, used as nat),
                ) && used <= input.len(),
                Err(e) => spec_decode(input@) == Err::<(u64, nat), Error>(e),
            },
    {
        match VarInt::consensus_decode(input) {
            Ok((var_int, used)) => {
                let compressed = CompressedAmount(var_int.0);
                match compressed.checked_decompress() {
                    Some(amount) => Ok((amount, used)),
                    None => Err(Error::ParseFailed(Field::Amount)),
                }
            },
            Err(e) => Err(e),
        }
    }
}

impl CompressedAmount {
    /// Unpacks the amount, or says that it does not fit in 64 bits.
    pub fn checked_decompress(&self) -> (r: Option<Amount>)
        ensures
            r == if spec_decompress(self.0 as nat) <= u64::MAX {
                Some(Amount(spec_decompress(self.0 as nat) as u64))
            } else {
                None
            },
    {
        let mut x = self.0;

        if x == 0 {
            return Some(Amount(0));
        }
        x -= 1;

        // x = 10*(9*n + d - 1) + e
        let mut e = x % 10;
        x /= 10;

        let mut n = if e < 9 {
            // x = 9*n + d - 1
            let d = (x % 9) + 1;
            x /= 9;
            // x = n
            x * 10 + d
        } else {
            x + 1
        };

        while e > 0
            invariant
                n >= 1,
                e <= 9,
                scale10(n as nat, e as nat) == spec_decompress(self.0 as nat),
            decreases e,
        {
            proof {
                lemma_scale10_step(n as nat, (e - 1) as nat);
            }
            match n.checked_mul(10) {
                Some(scaled) => {
                    n = scaled;
                },
                None => {
                    return None;
                },
            }
            e -= 1;
        }

        Some(Amount(n))
    }

    /// Unpacks the amount.
    pub fn decompress(&self) -> (a: Amount)
        requires
            spec_decompress(self.0 as nat) <= u64::MAX,
        ensures
            a.0 == spec_decompress(self.0 as nat),
    {
        self.checked_decompress().unwrap()
    }
}

impl From<u64> for Amount {
    fn from(sats: u64) -> (r: Amount) {
        Self(sats)
    }
}

impl vstd::std_specs::convert::FromSpecImpl<u64> for Amount {
    open spec fn obeys_from_spec() -> bool {
        true
    }

    open spec fn from_spec(sats: u64) -> Amount {
        Amount(sats)
    }
}

impl From<Amount> for u64 {
    fn from(amount: Amount) -> (r: u64) {
        amount.0
    }
}

impl vstd::std_specs::convert::FromSpecImpl<Amount> for u64 {
    open spec fn obeys_from_spec() -> bool {
        true
    }

    open spec fn from_spec(amount: Amount) -> u64 {
        amount.0
    }
}

impl From<VarInt> for CompressedAmount {
    fn from(var_int: VarInt) -> (r: CompressedAmount) {
        CompressedAmount(var_int.0)
    }
}

impl vstd::std_specs::convert::FromSpecImpl<VarInt> for CompressedAmount {
    open spec fn obeys_from_spec() -> bool {
        true
    }

    open spec fn from_spec(var_int: VarInt) -> CompressedAmount {
        CompressedAmount(var_int.0)
    }
}

impl From<CompressedAmount> for VarInt {
    fn from(compressed: CompressedAmount) -> (r: VarInt) {
        VarInt(compressed.0)
    }
}

impl vstd::std_specs::convert::FromSpecImpl<CompressedAmount> for VarInt {
    open spec fn obeys_from_spec() -> bool {
        true
    }

    open spec fn from_spec(compressed: CompressedAmount) -> VarInt {
        VarInt(compressed.0)
    }
}

} // verus!
