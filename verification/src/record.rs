//! The records of a snapshot: one unspent output each.
//!
//! The legacy layout is a flat list: every record names its transaction id
//! and output index in full. The modern layout groups the outputs of one
//! transaction: the id stands once, followed by the count of outputs and by
//! one index per output. Past the out-point both layouts go on alike, with
//! the height and coinbase flag, the amount and the script.

use vstd::prelude::*;

use crate::amount;
use crate::amount::Amount;
use crate::bytes::{array_32, read_u32_le, slice_from, spec_read_le};
use crate::compact_size;
use crate::compact_size::CompactSize;
use crate::error::{Error, Field};
use crate::network::{compute_address, spec_address, text, Chain};
use crate::script;
use crate::script::Script;
use crate::var_int;
use crate::var_int::VarInt;

verus! {

/// The output of a transaction that a record is about.
#[derive(Debug, Clone, Copy, PartialEq, Eq)]
pub struct OutPoint {
    /// The transaction id, in the byte order of the file.
    pub txid: [u8; 32],
    /// The index of the output in its transaction.
    pub vout: u32,
}

/// An out-point as a value of specifications.
pub struct OutPointView {
    pub txid: Seq<u8>,
    pub vout: u32,
}

impl View for OutPoint {
    type V = OutPointView;

    open spec fn view(&self) -> OutPointView {
        OutPointView { txid: self.txid@, vout: self.vout }
    }
}

/// An unspent transaction output entry.
#[derive(Debug, Clone, PartialEq, Eq)]
pub struct TxOut {
    /// The address form of the script public key.
    pub address: Option<String>,
    /// Value of the output, satoshis.
    pub amount: Amount,
    /// Block height where the transaction was confirmed.
    pub height: u32,
    /// Whether the output is in the coinbase transaction of the block.
    pub is_coinbase: bool,
    /// The specific transaction output.
    pub out_point: OutPoint,
    /// The script public key.
    pub script_pubkey: Vec<u8>,
}

/// An entry as a value of specifications.
pub struct TxOutView {
    pub address: Option<Seq<char>>,
    pub amount: u64,
    pub height: u32,
    pub is_coinbase: bool,
    pub out_point: OutPointView,
    pub script_pubkey: Seq<u8>,
}

impl View for TxOut {
    type V = TxOutView;

    open spec fn view(&self) -> TxOutView {
        TxOutView {
            address: text(self.address),
            amount: self.amount.0,
            height: self.height,
            is_coinbase: self.is_coinbase,
            out_point: self.out_point@,
            script_pubkey: self.script_pubkey@,
        }
    }
}

/// Where the decoder stands between two records.
#[derive(Debug, Clone, Copy, PartialEq, Eq)]
pub enum State {
    /// Working through the outputs of one transaction, of which
    /// `out_points_remaining` are still to come.
    HaveTxid { txid: [u8; 32], out_points_remaining: u64 },
    /// Looking for the next transaction id.
    NeedTxid,
    /// In the legacy layout, where every record stands alone.
    Legacy,
}

/// A decoder state as a value of specifications.
pub enum StateView {
    HaveTxid { txid: Seq<u8>, out_points_remaining: u64 },
    NeedTxid,
    Legacy,
}

impl View for State {
    type V = StateView;

    open spec fn view(&self) -> StateView {
        match *self {
            State::HaveTxid { txid, out_points_remaining } => StateView::HaveTxid {
                txid: txid@,
                out_points_remaining,
            },
            State::NeedTxid => StateView::NeedTxid,
            State::Legacy => StateView::Legacy,
        }
    }
}

impl StateView {
    /// A group that is being worked through has an output still to come and
    /// a transaction id of 32 bytes.
    pub open spec fn wf(self) -> bool {
        self matches StateView::HaveTxid { txid, out_points_remaining } ==> out_points_remaining
            >= 1 && txid.len() == 32
    }

    /// The state after the first output of a group whose count reads
    /// `declared`: the group stays open while outputs are left.
    pub open spec fn open_group(txid: Seq<u8>, declared: u64) -> StateView {
        if declared > 1 {
            StateView::HaveTxid { txid, out_points_remaining: (declared - 1) as u64 }
        } else {
            StateView::NeedTxid
        }
    }

    /// The state after one more output of the group of `txid`, of which
    /// `remaining` were still to come.
    pub open spec fn advance(txid: Seq<u8>, remaining: u64) -> StateView {
        if remaining > 1 {
            StateView::HaveTxid { txid, out_points_remaining: (remaining - 1) as u64 }
        } else {
            StateView::NeedTxid
        }
    }
}

/// The height and coinbase flag of an output.
#[derive(Debug, Clone, Copy, PartialEq, Eq, Structural)]
pub struct Code {
    pub height: u32,
    pub is_coinbase: bool,
}

/// The number that stands for a height and a coinbase flag: twice the
/// height, plus one for a coinbase.
pub open spec fn spec_code_number(code: Code) -> nat {
    (code.height * 2 + if code.is_coinbase {
        1nat
    } else {
        0nat
    }) as nat
}

/// The height and flag at the start of `s` and the count of bytes they
/// take. Their number must fit in 32 bits.
pub open spec fn spec_code(s: Seq<u8>) -> Result<(Code, nat), Error> {
    match var_int::spec_decode(s) {
        Ok((code, used)) => if code > u32::MAX {
            Err(Error::ParseFailed(Field::Code))
        } else {
            Ok((Code { height: (code / 2) as u32, is_coinbase: code % 2 == 1 }, used))
        },
        Err(e) => Err(e),
    }
}

/// The output index that a size stands for: its low 32 bits.
pub open spec fn spec_vout(size: u64) -> u32 {
    (size % 0x1_0000_0000) as u32
}

/// The out-point at the start of `s` in the legacy layout: the transaction
/// id and a 32-bit index.
pub open spec fn spec_legacy_out_point(s: Seq<u8>) -> Result<(OutPointView, nat), Error> {
    if s.len() < 32 {
        Err(Error::UnexpectedEof)
    } else {
        match spec_read_le(s.skip(32), 4) {
            Ok(vout) => Ok((OutPointView { txid: s.take(32), vout: vout as u32 }, 36)),
            Err(e) => Err(e),
        }
    }
}

/// The out-point at the start of `s` where a group begins: the transaction
/// id, the count of the group's outputs and the index of the first. The
/// first output is there whatever the count says.
pub open spec fn spec_first_out_point(s: Seq<u8>) -> Result<(OutPointView, StateView, nat), Error> {
    if s.len() < 32 {
        Err(Error::UnexpectedEof)
    } else {
        match compact_size::spec_decode(s.skip(32)) {
            Ok((declared, a)) => match compact_size::spec_decode(s.skip((32 + a) as int)) {
                Ok((index, b)) => Ok(
                    (
                        OutPointView { txid: s.take(32), vout: spec_vout(index) },
                        StateView::open_group(s.take(32), declared),
                        32 + a + b,
                    ),
                ),
                Err(e) => Err(e),
            },
            Err(e) => Err(e),
        }
    }
}

/// The out-point at the start of `s` inside the group of `txid`: the index
/// of the next output.
pub open spec fn spec_next_out_point(s: Seq<u8>, txid: Seq<u8>, remaining: u64) -> Result<
    (OutPointView, StateView, nat),
    Error,
> {
    match compact_size::spec_decode(s) {
        Ok((index, used)) => Ok(
            (
                OutPointView { txid, vout: spec_vout(index) },
                StateView::advance(txid, remaining),
                used,
            ),
        ),
        Err(e) => Err(e),
    }
}

/// The out-point at the start of `s` as the state asks for it, with the
/// state that follows and the count of bytes taken.
pub open spec fn spec_out_point(s: Seq<u8>, state: StateView) -> Result<
    (OutPointView, StateView, nat),
    Error,
> {
    match state {
        StateView::HaveTxid { txid, out_points_remaining } => spec_next_out_point(
            s,
            txid,
            out_points_remaining,
        ),
        StateView::NeedTxid => spec_first_out_point(s),
        StateView::Legacy => match spec_legacy_out_point(s) {
            Ok((out_point, used)) => Ok((out_point, StateView::Legacy, used)),
            Err(e) => Err(e),
        },
    }
}

/// What follows the out-point in both layouts.
pub struct Tail {
    pub code: Code,
    pub amount: u64,
    pub script_pubkey: Seq<u8>,
}

/// The height and flag, the amount and the script at the start of `s`, and
/// the count of bytes they take.
pub open spec fn spec_tail(s: Seq<u8>) -> Result<(Tail, nat), Error> {
    match spec_code(s) {
        Ok((code, a)) => match amount::spec_decode(s.skip(a as int)) {
            Ok((amount, b)) => match script::spec_decode(s.skip((a + b) as int)) {
                Ok((script_pubkey, c)) => Ok((Tail { code, amount, script_pubkey }, a + b + c)),
                Err(e) => Err(e),
            },
            Err(e) => Err(e),
        },
        Err(e) => Err(e),
    }
}

/// The record at the start of `s`, the state that follows it and the count
/// of bytes it takes. The address is the one that the script has on
/// `network`, if it has one and a network is given.
pub open spec fn spec_record(s: Seq<u8>, state: StateView, network: Option<Chain>) -> Result<
    (TxOutView, StateView, nat),
    Error,
> {
    match spec_out_point(s, state) {
        Ok((out_point, next, a)) => match spec_tail(s.skip(a as int)) {
            Ok((tail, b)) => Ok(
                (
                    TxOutView {
                        address: spec_address(tail.script_pubkey, network),
                        amount: tail.amount,
                        height: tail.code.height,
                        is_coinbase: tail.code.is_coinbase,
                        out_point,
                        script_pubkey: tail.script_pubkey,
                    },
                    next,
                    a + b,
                ),
            ),
            Err(e) => Err(e),
        },
        Err(e) => Err(e),
    }
}

impl Code {
    /// Encodes the height and flag as one variable-length integer.
    pub fn consensus_encode(&self) -> (bytes: Vec<u8>)
        requires
            spec_code_number(*self) <= u32::MAX,
        ensures
            bytes@ == var_int::spec_encode(spec_code_number(*self)),
    {
        let code = self.height * 2 + if self.is_coinbase {
            1
        } else {
            0
        };
        let var_int = VarInt::new(code as u64);

        var_int.consensus_encode()
    }

    /// Decodes the height and flag at the start of `input` and says how
    /// many bytes they took.
    pub fn consensus_decode(input: &[u8]) -> (r: Result<(Code, usize), Error>)
        ensures
            match r {
                Ok((code, used)) => spec_code(input@) == Ok::<(Code, nat), Error>(
                    (code, used as nat),
                ) && used <= input.len(),
                Err(e) => spec_code(input@) == Err::<(Code, nat), Error>(e),
            },
    {
        match VarInt::consensus_decode(input) {
            Ok((var_int, used)) => {
                if var_int.0 > u32::MAX as u64 {
                    return Err(Error::ParseFailed(Field::Code));
                }
                let code = var_int.0 as u32;
                assert(code >> 1 == code / 2 && ((code & 0x01) == 1 <==> code % 2 == 1))
                    by (bit_vector);
                Ok((Code { height: code >> 1, is_coinbase: (code & 0x01) == 1 }, used))
            },
            Err(e) => Err(e),
        }
    }
}

impl State {
    /// The state after the first output of a group whose count reads
    /// `declared`.
    pub fn open_group(txid: [u8; 32], declared: u64) -> (next: State)
        ensures
            next@ == StateView::open_group(txid@, declared),
            next@.wf(),
    {
        let out_points_remaining = declared.saturating_sub(1);
        if out_points_remaining > 0 {
            State::HaveTxid { txid, out_points_remaining }
        } else {
            State::NeedTxid
        }
    }

    /// The state after one more output of the group of `txid`, of which
    /// `remaining` were still to come.
    pub fn advance(txid: [u8; 32], remaining: u64) -> (next: State)
        ensures
            next@ == StateView::advance(txid@, remaining),
            next@.wf(),
    {
        let out_points_remaining = remaining.saturating_sub(1);
        if out_points_remaining == 0 {
            State::NeedTxid
        } else {
            State::HaveTxid { txid, out_points_remaining }
        }
    }
}

/// The output index that a size stands for.
pub fn vout_of(size: CompactSize) -> (vout: u32)
    ensures
        vout == spec_vout(size.0),
{
    let value = size.0;
    assert(value as u32 == value % 0x1_0000_0000) by (bit_vector);
    #[verifier::truncate]
    (value as u32)
}

impl OutPoint {
    /// Decodes the out-point at the start of `input` as the state asks for
    /// it. Gives the state that follows and says how many bytes were taken.
    pub fn consensus_decode(input: &[u8], state: State) -> (r: Result<
        (OutPoint, State, usize),
        Error,
    >)
        ensures
            match r {
                Ok((out_point, next, used)) => spec_out_point(input@, state@) == Ok::<
                    (OutPointView, StateView, nat),
                    Error,
                >((out_point@, next@, used as nat)) && used <= input.len() && (state@.wf()
                    ==> next@.wf()),
                Err(e) => spec_out_point(input@, state@) == Err::<
                    (OutPointView, StateView, nat),
                    Error,
                >(e),
            },
    {
        match state {
            State::HaveTxid { txid, out_points_remaining } => {
                match CompactSize::consensus_decode(input) {
                    Ok((index, used)) => Ok(
                        (
                            OutPoint { txid, vout: vout_of(index) },
                            State::advance(txid, out_points_remaining),
                            used,
                        ),
                    ),
                    Err(e) => Err(e),
                }
            },
            State::NeedTxid => {
                if input.len() < 32 {
                    return Err(Error::UnexpectedEof);
                }
                let txid = array_32(input);
                let after_txid = slice_from(input, 32);
                assert(after_txid@ == input@.skip(32));
                let (declared, a) = match CompactSize::consensus_decode(after_txid) {
                    Ok(decoded) => decoded,
                    Err(e) => {
                        return Err(e);
                    },
                };
                let after_count = slice_from(input, 32 + a);
                assert(after_count@ == input@.skip(32 + a));
                let (index, b) = match CompactSize::consensus_decode(after_count) {
                    Ok(decoded) => decoded,
                    Err(e) => {
                        return Err(e);
                    },
                };
                Ok(
                    (
                        OutPoint { txid, vout: vout_of(index) },
                        State::open_group(txid, declared.0),
                        32 + a + b,
                    ),
                )
            },
            State::Legacy => {
                if input.len() < 32 {
                    return Err(Error::UnexpectedEof);
                }
                let txid = array_32(input);
                let after_txid = slice_from(input, 32);
                assert(after_txid@ == input@.skip(32));
                match read_u32_le(after_txid) {
                    Ok(vout) => Ok((OutPoint { txid, vout }, State::Legacy, 36)),
                    Err(e) => Err(e),
                }
            },
        }
    }
}

impl TxOut {
    /// Puts an entry together from its parts.
    pub fn new(
        out_point: OutPoint,
        code: Code,
        amount: Amount,
        script: Script,
        address: Option<String>,
    ) -> (tx_out: TxOut)
        ensures
            tx_out@ == (TxOutView {
                address: text(address),
                amount: amount.0,
                height: code.height,
                is_coinbase: code.is_coinbase,
                out_point: out_point@,
                script_pubkey: script@,
            }),
    {
        TxOut {
            address,
            amount,
            height: code.height,
            is_coinbase: code.is_coinbase,
            out_point,
            script_pubkey: script.into_inner(),
        }
    }

    /// Decodes the record at the start of `input` as the state asks for it.
    /// Gives the state that follows and says how many bytes were taken.
    pub fn consensus_decode(input: &[u8], state: State, network: Option<Chain>) -> (r: Result<
        (TxOut, State, usize),
        Error,
    >)
        ensures
            match r {
                Ok((tx_out, next, used)) => spec_record(input@, state@, network) == Ok::<
                    (TxOutView, StateView, nat),
                    Error,
                >((tx_out@, next@, used as nat)) && used <= input.len() && (state@.wf()
                    ==> next@.wf()),
                Err(e) => spec_record(input@, state@, network) == Err::<
                    (TxOutView, StateView, nat),
                    Error,
                >(e),
            },
    {
        let (out_point, next, a) = match OutPoint::consensus_decode(input, state) {
            Ok(decoded) => decoded,
            Err(e) => {
                return Err(e);
            },
        };
        let tail = slice_from(input, a);
        assert(tail@ == input@.skip(a as int));

        let (code, b) = match Code::consensus_decode(tail) {
            Ok(decoded) => decoded,
            Err(e) => {
                return Err(e);
            },
        };
        let after_code = slice_from(tail, b);
        assert(after_code@ == tail@.skip(b as int));

        let (amount, c) = match Amount::consensus_decode(after_code) {
            Ok(decoded) => decoded,
            Err(e) => {
                return Err(e);
            },
        };
        let after_amount = slice_from(tail, b + c);
        assert(after_amount@ == tail@.skip(b + c));

        let (script, d) = match Script::consensus_decode(after_amount) {
            Ok(decoded) => decoded,
            Err(e) => {
                return Err(e);
            },
        };

        let address = compute_address(script.0.as_slice(), network);

        Ok((TxOut::new(out_point, code, amount, script, address), next, a + b + c + d))
    }
}

/// Decoding an out-point takes no more bytes than there are, and at least
/// one. A group that is open after it has an output still to come.
pub proof fn lemma_out_point_in_bounds(s: Seq<u8>, state: StateView)
    ensures
        spec_out_point(s, state) matches Ok((_, next, used)) ==> 1 <= used <= s.len() && (
        state.wf() ==> next.wf()),
{
    match state {
        StateView::HaveTxid { .. } => {
            compact_size::lemma_decode_in_bounds(s);
        },
        StateView::NeedTxid => {
            if s.len() >= 32 {
                compact_size::lemma_decode_in_bounds(s.skip(32));
                if let Ok((_, a)) = compact_size::spec_decode(s.skip(32)) {
                    compact_size::lemma_decode_in_bounds(s.skip((32 + a) as int));
                }
            }
        },
        StateView::Legacy => {},
    }
}

/// Decoding a record takes no more bytes than there are, and at least one.
/// A group that is open after it has an output still to come.
pub proof fn lemma_record_in_bounds(s: Seq<u8>, state: StateView, network: Option<Chain>)
    ensures
        spec_record(s, state, network) matches Ok((_, next, used)) ==> 1 <= used <= s.len() && (
        state.wf() ==> next.wf()),
{
    lemma_out_point_in_bounds(s, state);
    if let Ok((_, _, a)) = spec_out_point(s, state) {
        let tail = s.skip(a as int);
        var_int::lemma_decode_in_bounds(tail);
        if let Ok((_, b)) = spec_code(tail) {
            amount::lemma_decode_in_bounds(tail.skip(b as int));
            if let Ok((_, c)) = amount::spec_decode(tail.skip(b as int)) {
                script::lemma_decode_in_bounds(tail.skip((b + c) as int));
            }
        }
    }
}

} // verus!
