//! The networks a snapshot can belong to, and the addresses of their scripts.

use vstd::prelude::*;

use crate::error::Error;

verus! {

/// A Bitcoin network.
#[derive(Debug, Clone, Copy, PartialEq, Eq, Structural)]
pub enum Chain {
    /// The main network.
    Bitcoin,
    /// The third test network.
    Testnet,
    /// The fourth test network.
    Testnet4,
    /// The signet network.
    Signet,
    /// A local regression-test network.
    Regtest,
}

/// The network that announces itself with `magic`, the four magic bytes read
/// as a little-endian number.
pub open spec fn spec_chain_of_magic(magic: u32) -> Option<Chain> {
    if magic == 0xd9b4_bef9 {
        Some(Chain::Bitcoin)
    } else if magic == 0x0709_110b {
        Some(Chain::Testnet)
    } else if magic == 0x283f_161c {
        Some(Chain::Testnet4)
    } else if magic == 0x40cf_030a {
        Some(Chain::Signet)
    } else if magic == 0xdab5_bffa {
        Some(Chain::Regtest)
    } else {
        None
    }
}

/// The address, as text, that pays to `script` on `chain`, for the scripts
/// that have one.
pub uninterp spec fn script_address(script: Seq<u8>, chain: Chain) -> Option<Seq<char>>;

/// The address to show for a script: none unless a network was asked for.
pub open spec fn spec_address(script: Seq<u8>, network: Option<Chain>) -> Option<Seq<char>> {
    match network {
        Some(chain) => script_address(script, chain),
        None => None,
    }
}

/// Calls `Network::try_from` on the `Magic` made of the number's four
/// little-endian bytes. It knows the magic of each of the five networks,
/// `F9 BE B4 D9` for the main one, and refuses every other.
#[verifier::external_body]
fn chain_of_magic(magic: u32) -> (r: Option<Chain>)
    ensures
        r == spec_chain_of_magic(magic),
{
    match bitcoin::Network::try_from(bitcoin::p2p::Magic::from_bytes(magic.to_le_bytes())) {
        Ok(bitcoin::Network::Bitcoin) => Some(Chain::Bitcoin),
        Ok(bitcoin::Network::Testnet) => Some(Chain::Testnet),
        Ok(bitcoin::Network::Testnet4) => Some(Chain::Testnet4),
        Ok(bitcoin::Network::Signet) => Some(Chain::Signet),
        Ok(bitcoin::Network::Regtest) => Some(Chain::Regtest),
        Err(_) => None,
    }
}

/// Calls `Address::from_script` and writes the address out with its
/// `Display`. Which scripts have an address, and how it reads, depends on the
/// script and the network alone; nothing more is claimed.
#[verifier::external_body]
fn address_of_script(script: &[u8], chain: Chain) -> (r: Option<String>)
    ensures
        text(r) == script_address(script@, chain),
{
    let network = match chain {
        Chain::Bitcoin => bitcoin::Network::Bitcoin,
        Chain::Testnet => bitcoin::Network::Testnet,
        Chain::Testnet4 => bitcoin::Network::Testnet4,
        Chain::Signet => bitcoin::Network::Signet,
        Chain::Regtest => bitcoin::Network::Regtest,
    };
    match bitcoin::Address::from_script(bitcoin::Script::from_bytes(script), network) {
        Ok(address) => Some(address.to_string()),
        Err(_) => None,
    }
}

/// The view of an optional string.
pub open spec fn text(s: Option<String>) -> Option<Seq<char>> {
    match s {
        Some(s) => Some(s@),
        None => None,
    }
}

impl Chain {
    /// The network that announces itself with `magic`.
    pub fn from_magic(magic: u32) -> (r: Result<Chain, Error>)
        ensures
            r == match spec_chain_of_magic(magic) {
                Some(chain) => Ok::<Chain, Error>(chain),
                None => Err::<Chain, Error>(Error::UnknownMagic(magic)),
            },
    {
        match chain_of_magic(magic) {
            Some(chain) => Ok(chain),
            None => Err(Error::UnknownMagic(magic)),
        }
    }
}

/// The address to show for a script: none unless a network was asked for,
/// and none for a script that has no address there.
pub fn compute_address(script: &[u8], network: Option<Chain>) -> (r: Option<String>)
    ensures
        text(r) == spec_address(script@, network),
{
    match network {
        Some(chain) => address_of_script(script, chain),
        None => None,
    }
}

} // verus!
