//! The failures a snapshot decoder can report.

use vstd::prelude::*;

use crate::network::Chain;

verus! {

/// The wire field that could not be interpreted.
#[derive(Debug, Clone, Copy, PartialEq, Eq, Structural)]
pub enum Field {
    /// A 20-byte public key hash or script hash.
    Hash160,
    /// A compressed secp256k1 public key.
    PublicKey,
    /// The combined height and coinbase code, which must fit in 32 bits.
    Code,
    /// A compressed amount whose expansion does not fit in 64 bits.
    Amount,
}

/// Everything that can go wrong while reading a snapshot.
#[derive(Debug, Clone, Copy, PartialEq, Eq, Structural)]
pub enum Error {
    /// The input ended in the middle of a field.
    UnexpectedEof,
    /// A variable-length integer does not fit in 64 bits.
    NonMinimalVarInt,
    /// A field was read in full but its content is malformed.
    ParseFailed(Field),
    /// Network detection was requested for a layout that names no network.
    NetworkDetect,
    /// The network named by the caller is not the one the snapshot names.
    NetworkMismatch { detected: Chain, specified: Chain },
    /// The snapshot declares a format version other than the supported one.
    UnknownVersion(u16),
    /// The snapshot's network magic belongs to no known network.
    UnknownMagic(u32),
}

} // verus!
