//! Compressed output scripts.
//!
//! A snapshot stores the common script templates in a compact form: a
//! selector says which template it is, and only the hash or the key that the
//! template is built around follows. Any other script follows its length in
//! full.

use vstd::prelude::*;

use crate::bytes::{append, slice_range, spec_read_exact, to_vec};
use crate::error::{Error, Field};
use crate::var_int;
use crate::var_int::VarInt;

verus! {

/// The count of selectors that stand for a template.
pub const NUM_SPECIAL_SCRIPTS: u64 = 6;

/// The longest script that is kept as it is.
pub const MAX_SCRIPT_SIZE: u64 = 10_000;

/// The opcode that pushes the next 33 bytes.
pub const OP_PUSHBYTES_33: u8 = 0x21;

/// The opcode that pushes the next 65 bytes.
pub const OP_PUSHBYTES_65: u8 = 0x41;

/// The opcode that checks a signature.
pub const OP_CHECKSIG: u8 = 0xac;

/// An output script, expanded to its full form.
#[derive(Debug, Clone, PartialEq, Eq)]
pub struct Script(pub Vec<u8>);

impl View for Script {
    type V = Seq<u8>;

    open spec fn view(&self) -> Seq<u8> {
        self.0@
    }
}

/// The pay-to-pubkey-hash script around `hash`: duplicate, hash, push the
/// hash, compare, check the signature.
pub open spec fn p2pkh_script(hash: Seq<u8>) -> Seq<u8> {
    seq![0x76u8, 0xa9u8, 0x14u8] + hash + seq![0x88u8, 0xacu8]
}

/// The pay-to-script-hash script around `hash`: hash, push the hash, compare.
pub open spec fn p2sh_script(hash: Seq<u8>) -> Seq<u8> {
    seq![0xa9u8, 0x14u8] + hash + seq![0x87u8]
}

/// The pay-to-pubkey script of a compressed key: push the parity byte and
/// the x-coordinate, check the signature.
pub open spec fn p2pk_compressed_script(parity: u8, x: Seq<u8>) -> Seq<u8> {
    seq![OP_PUSHBYTES_33, parity] + x + seq![OP_CHECKSIG]
}

/// The pay-to-pubkey script of an uncompressed key: push the key, check the
/// signature.
pub open spec fn p2pk_uncompressed_script(key: Seq<u8>) -> Seq<u8> {
    seq![OP_PUSHBYTES_65] + key + seq![OP_CHECKSIG]
}

/// The script that stands in for one too long to keep: it can never be
/// spent.
pub open spec fn unspendable_script() -> Seq<u8> {
    seq![0x6au8]
}

/// The uncompressed serialization of the secp256k1 point that `compressed`
/// serializes, if it serializes one.
pub uninterp spec fn uncompressed_public_key(compressed: Seq<u8>) -> Option<Seq<u8>>;

/// The view of an optional byte vector.
pub open spec fn bytes(v: Option<Vec<u8>>) -> Option<Seq<u8>> {
    match v {
        Some(v) => Some(v@),
        None => None,
    }
}

/// The count of bytes that follow the selector.
pub open spec fn payload_len(selector: u64) -> nat {
    if selector < 2 {
        20
    } else if selector < NUM_SPECIAL_SCRIPTS {
        32
    } else {
        (selector - NUM_SPECIAL_SCRIPTS) as nat
    }
}

/// The script that `selector` and the bytes after it stand for. A hash that
/// is not 20 bytes long is malformed, and so is a key that is no point of the
/// curve.
pub open spec fn spec_expand(selector: u64, payload: Seq<u8>) -> Result<Seq<u8>, Error> {
    if selector <= 1 {
        if payload.len() != 20 {
            Err(Error::ParseFailed(Field::Hash160))
        } else if selector == 0 {
            Ok(p2pkh_script(payload))
        } else {
            Ok(p2sh_script(payload))
        }
    } else if selector <= 3 {
        Ok(p2pk_compressed_script(selector as u8, payload))
    } else if selector <= 5 {
        match uncompressed_public_key(seq![(selector - 2) as u8] + payload) {
            Some(key) => Ok(p2pk_uncompressed_script(key)),
            None => Err(Error::ParseFailed(Field::PublicKey)),
        }
    } else if payload.len() > MAX_SCRIPT_SIZE {
        Ok(unspendable_script())
    } else {
        Ok(payload)
    }
}

/// The script at the start of `s` and the count of bytes it takes: a
/// selector, then the bytes that the selector asks for.
pub open spec fn spec_decode(s: Seq<u8>) -> Result<(Seq<u8>, nat), Error> {
    match var_int::spec_decode(s) {
        Ok((selector, used)) => match spec_read_exact(s.skip(used as int), payload_len(selector)) {
            Ok(payload) => match spec_expand(selector, payload) {
                Ok(script) => Ok((script, used + payload_len(selector))),
                Err(e) => Err(e),
            },
            Err(e) => Err(e),
        },
        Err(e) => Err(e),
    }
}

/// The length of the script that a selector stands for, where it expands.
pub open spec fn expanded_len(selector: u64) -> nat {
    if selector == 0 {
        25
    } else if selector == 1 {
        23
    } else if selector <= 3 {
        35
    } else if selector <= 5 {
        67
    } else if selector - NUM_SPECIAL_SCRIPTS > MAX_SCRIPT_SIZE {
        1
    } else {
        (selector - NUM_SPECIAL_SCRIPTS) as nat
    }
}

/// Calls `PubkeyHash::from_slice` and `ScriptBuf::new_p2pkh`. The first
/// takes exactly 20 bytes; the second builds the script `OP_DUP OP_HASH160
/// <hash> OP_EQUALVERIFY OP_CHECKSIG` with a one-byte push of the hash.
#[verifier::external_body]
fn p2pkh_bytes(hash: &[u8]) -> (r: Option<Vec<u8>>)
    ensures
        bytes(r) == if hash@.len() == 20 {
            Some(p2pkh_script(hash@))
        } else {
            None
        },
{
    match <bitcoin::PubkeyHash as bitcoin::hashes::Hash>::from_slice(hash) {
        Ok(hash) => Some(bitcoin::ScriptBuf::new_p2pkh(&hash).into_bytes()),
        Err(_) => None,
    }
}

/// Calls `ScriptHash::from_slice` and `ScriptBuf::new_p2sh`. The first takes
/// exactly 20 bytes; the second builds the script `OP_HASH160 <hash>
/// OP_EQUAL` with a one-byte push of the hash.
#[verifier::external_body]
fn p2sh_bytes(hash: &[u8]) -> (r: Option<Vec<u8>>)
    ensures
        bytes(r) == if hash@.len() == 20 {
            Some(p2sh_script(hash@))
        } else {
            None
        },
{
    match <bitcoin::ScriptHash as bitcoin::hashes::Hash>::from_slice(hash) {
        Ok(hash) => Some(bitcoin::ScriptBuf::new_p2sh(&hash).into_bytes()),
        Err(_) => None,
    }
}

/// Calls `PublicKey::from_slice` and, on the key it gives, secp256k1's
/// `serialize_uncompressed`. Whether the bytes are a key, and which 65 bytes
/// come out, depends on the bytes alone; nothing more is claimed of either.
#[verifier::external_body]
fn expand_public_key(compressed: &[u8]) -> (r: Option<Vec<u8>>)
    ensures
        bytes(r) == uncompressed_public_key(compressed@),
        r matches Some(key) ==> key@.len() == 65,
{
    match bitcoin::PublicKey::from_slice(compressed) {
        Ok(key) => Some(key.inner.serialize_uncompressed().to_vec()),
        Err(_) => None,
    }
}

/// Calls the script `Builder` with the single opcode `OP_RETURN`.
#[verifier::external_body]
fn unspendable_bytes() -> (r: Vec<u8>)
    ensures
        r@ == unspendable_script(),
{
    let builder = bitcoin::script::Builder::new();
    builder.push_opcode(bitcoin::opcodes::all::OP_RETURN).into_script().into_bytes()
}

impl Script {
    /// Reveals the script's bytes.
    pub fn into_inner(self) -> (bytes: Vec<u8>)
        ensures
            bytes@ == self@,
    {
        self.0
    }

    /// The pay-to-pubkey-hash script around a 20-byte hash.
    pub fn new_p2pkh(hash: &[u8]) -> (r: Result<Script, Error>)
        ensures
            match r {
                Ok(script) => hash@.len() == 20 && script@ == p2pkh_script(hash@),
                Err(e) => hash@.len() != 20 && e == Error::ParseFailed(Field::Hash160),
            },
    {
        match p2pkh_bytes(hash) {
            Some(bytes) => Ok(Script(bytes)),
            None => Err(Error::ParseFailed(Field::Hash160)),
        }
    }

    /// The pay-to-script-hash script around a 20-byte hash.
    pub fn new_p2sh(hash: &[u8]) -> (r: Result<Script, Error>)
        ensures
            match r {
                Ok(script) => hash@.len() == 20 && script@ == p2sh_script(hash@),
                Err(e) => hash@.len() != 20 && e == Error::ParseFailed(Field::Hash160),
            },
    {
        match p2sh_bytes(hash) {
            Some(bytes) => Ok(Script(bytes)),
            None => Err(Error::ParseFailed(Field::Hash160)),
        }
    }

    /// The pay-to-pubkey script of a compressed key, given as its parity
    /// byte and its x-coordinate. The key is not checked.
    pub fn new_p2pk_compressed(parity: u8, x: &[u8]) -> (script: Script)
        ensures
            script@ == p2pk_compressed_script(parity, x@),
    {
        let mut script_bytes: Vec<u8> = Vec::new();
        script_bytes.push(OP_PUSHBYTES_33);
        script_bytes.push(parity);
        assert(script_bytes@ == seq![OP_PUSHBYTES_33, parity]);
        append(&mut script_bytes, x);
        script_bytes.push(OP_CHECKSIG);
        Script(script_bytes)
    }

    /// The pay-to-pubkey script of an uncompressed key, given as the outcome
    /// of expanding a compressed one: no script where there was no key.
    pub fn from_uncompressed_key(key: Option<Vec<u8>>) -> (r: Result<Script, Error>)
        ensures
            match key {
                Some(key) => r matches Ok(script) && script@ == p2pk_uncompressed_script(key@),
                None => r == Err::<Script, Error>(Error::ParseFailed(Field::PublicKey)),
            },
    {
        match key {
            Some(key) => {
                let mut script_bytes: Vec<u8> = Vec::new();
                script_bytes.push(OP_PUSHBYTES_65);
                assert(script_bytes@ == seq![OP_PUSHBYTES_65]);
                append(&mut script_bytes, key.as_slice());
                script_bytes.push(OP_CHECKSIG);
                Ok(Script(script_bytes))
            },
            None => Err(Error::ParseFailed(Field::PublicKey)),
        }
    }

    /// The pay-to-pubkey script of the uncompressed form of a key, given as
    /// its parity byte and its x-coordinate. Fails where they are no point
    /// of the curve.
    pub fn new_p2pk_uncompressed(parity: u8, x: &[u8]) -> (r: Result<Script, Error>)
        ensures
            match uncompressed_public_key(seq![parity] + x@) {
                Some(key) => r matches Ok(script) && script@ == p2pk_uncompressed_script(key)
                    && script@.len() == 67,
                None => r == Err::<Script, Error>(Error::ParseFailed(Field::PublicKey)),
            },
    {
        let mut compressed_pubkey_bytes: Vec<u8> = Vec::new();
        compressed_pubkey_bytes.push(parity);
        assert(compressed_pubkey_bytes@ == seq![parity]);
        append(&mut compressed_pubkey_bytes, x);
        let key = expand_public_key(compressed_pubkey_bytes.as_slice());
        Self::from_uncompressed_key(key)
    }

    /// The script that a selector and the bytes after it stand for. Where
    /// the bytes are as many as the selector asks for, the script has the
    /// length of its template.
    pub fn expand(selector: u64, payload: &[u8]) -> (r: Result<Script, Error>)
        ensures
            match r {
                Ok(script) => spec_expand(selector, payload@) == Ok::<Seq<u8>, Error>(script@)
                    && (payload@.len() == payload_len(selector) ==> script@.len() == expanded_len(
                    selector,
                )),
                Err(e) => spec_expand(selector, payload@) == Err::<Seq<u8>, Error>(e),
            },
    {
        match selector {
            0x00 => Self::new_p2pkh(payload),
            0x01 => Self::new_p2sh(payload),
            0x02 | 0x03 => Ok(Self::new_p2pk_compressed(selector as u8, payload)),
            0x04 | 0x05 => Self::new_p2pk_uncompressed((selector - 2) as u8, payload),
            _ => {
                if payload.len() as u64 > MAX_SCRIPT_SIZE {
                    Ok(Script(unspendable_bytes()))
                } else {
                    Ok(Script(to_vec(payload)))
                }
            },
        }
    }

    /// Decodes the script at the start of `input` and says how many bytes
    /// it took. The bytes of a script too long to keep are passed over all
    /// the same. The script has the length of the template that the selector
    /// names.
    pub fn consensus_decode(input: &[u8]) -> (r: Result<(Script, usize), Error>)
        ensures
            match r {
                Ok((script, used)) => spec_decode(input@) == Ok::<(Seq<u8>, nat), Error>(
                    (script@, used as nat),
                ) && used <= input.len() && script@.len() == expanded_len(
                    var_int::spec_decode(input@).unwrap().0,
                ),
                Err(e) => spec_decode(input@) == Err::<(Seq<u8>, nat), Error>(e),
            },
    {
        let (selector, start) = match VarInt::consensus_decode(input) {
            Ok((var_int, used)) => (var_int.0, used),
            Err(e) => {
                return Err(e);
            },
        };
        let rest = slice_range(input, start, input.len());
        assert(rest@ == input@.skip(start as int));
        let size: u64 = if selector < 2 {
            20
        } else if selector < NUM_SPECIAL_SCRIPTS {
            32
        } else {
            selector - NUM_SPECIAL_SCRIPTS
        };
        if size > rest.len() as u64 {
            return Err(Error::UnexpectedEof);
        }
        let size = size as usize;
        let payload = slice_range(rest, 0, size);
        assert(payload@ == rest@.take(size as int));
        match Self::expand(selector, payload) {
            Ok(script) => Ok((script, start + size)),
            Err(e) => Err(e),
        }
    }
}

/// Decoding takes no more bytes than there are, and at least one.
pub proof fn lemma_decode_in_bounds(s: Seq<u8>)
    ensures
        spec_decode(s) matches Ok((_, used)) ==> 1 <= used <= s.len(),
{
    var_int::lemma_decode_in_bounds(s);
}

/// A script longer than the ceiling is passed over in full and replaced by
/// the unspendable marker, so that what follows it is read from the right
/// place.
pub proof fn lemma_oversized_is_consumed(s: Seq<u8>)
    requires
        var_int::spec_decode(s) matches Ok((selector, used)) && selector - NUM_SPECIAL_SCRIPTS
            > MAX_SCRIPT_SIZE && s.len() >= used + (selector - NUM_SPECIAL_SCRIPTS),
    ensures
        ({
            let (selector, used) = var_int::spec_decode(s).unwrap();
            spec_decode(s) == Ok::<(Seq<u8>, nat), Error>(
                (unspendable_script(), (used + (selector - NUM_SPECIAL_SCRIPTS)) as nat),
            )
        }),
{
}

/// A script up to the ceiling is given out byte for byte.
pub proof fn lemma_raw_is_kept(s: Seq<u8>)
    requires
        var_int::spec_decode(s) matches Ok((selector, used)) && selector >= NUM_SPECIAL_SCRIPTS
            && selector - NUM_SPECIAL_SCRIPTS <= MAX_SCRIPT_SIZE && s.len() >= used + (selector
            - NUM_SPECIAL_SCRIPTS),
    ensures
        ({
            let (selector, used) = var_int::spec_decode(s).unwrap();
            spec_decode(s) == Ok::<(Seq<u8>, nat), Error>(
                (
                    s.subrange(used as int, used + (selector - NUM_SPECIAL_SCRIPTS)),
                    (used + (selector - NUM_SPECIAL_SCRIPTS)) as nat,
                ),
            )
        }),
{
    let (selector, used) = var_int::spec_decode(s).unwrap();
    var_int::lemma_decoded_is_canonical(s);
    assert(s.skip(used as int).take(selector - NUM_SPECIAL_SCRIPTS) == s.subrange(
        used as int,
        used + (selector - NUM_SPECIAL_SCRIPTS),
    ));
}

impl From<Vec<u8>> for Script {
    fn from(script_bytes: Vec<u8>) -> (r: Script) {
        Self(script_bytes)
    }
}

impl vstd::std_specs::convert::FromSpecImpl<Vec<u8>> for Script {
    open spec fn obeys_from_spec() -> bool {
        true
    }

    open spec fn from_spec(script_bytes: Vec<u8>) -> Script {
        Script(script_bytes)
    }
}

} // verus!
