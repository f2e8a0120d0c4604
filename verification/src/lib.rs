//! Decoder for UTXO set snapshot files.
//!
//! A snapshot is a dense positional encoding of every unspent transaction
//! output at one block. Two container layouts exist: the legacy one, a flat
//! list of records, and the modern one, which starts with a magic token and
//! groups the outputs of one transaction under a shared transaction id.

pub mod amount;
pub mod bytes;
pub mod compact_size;
pub mod dump;
pub mod error;
pub mod network;
pub mod record;
pub mod script;
pub mod var_int;

pub use amount::{Amount, CompressedAmount};
pub use compact_size::CompactSize;
pub use dump::{ComputeAddresses, Dump, Layout, Network, Snapshot};
pub use error::{Error, Field};
pub use network::Chain;
pub use record::{Code, OutPoint, State, TxOut};
pub use script::Script;
pub use var_int::VarInt;
