//! The snapshot as a whole: its header and the sequence of its records.
//!
//! A modern snapshot starts with a magic token, a format version and the
//! magic of its network. A legacy snapshot starts with none of these: what
//! stands in the place of the token already belongs to the block hash. Both
//! go on with the hash of the block that the snapshot was taken at and the
//! count of outputs that it declares. The count is not held against the
//! records that follow.

use vstd::prelude::*;

use crate::bytes::{
    array_32, read_u16_le, read_u32_le, read_u64_le, slice_from, spec_read_le, spec_skip,
};
use crate::error::Error;
use crate::network::{spec_chain_of_magic, Chain};
use crate::record::{lemma_record_in_bounds, spec_record, State, StateView, TxOut, TxOutView};

verus! {

/// The only format version that is understood.
pub const SNAPSHOT_VERSION: u16 = 2;

/// The token that a modern snapshot starts with: `utxo` and a byte of ones.
pub open spec fn snapshot_magic() -> Seq<u8> {
    seq![0x75u8, 0x74u8, 0x78u8, 0x6fu8, 0xffu8]
}

/// Whether to compute addresses while processing.
#[derive(Debug, Clone, Copy, PartialEq, Eq, Structural)]
pub enum ComputeAddresses {
    /// Do not compute addresses.
    No,
    /// Compute addresses for a given network.
    Yes(Network),
}

/// The network to compute addresses for.
#[derive(Debug, Clone, Copy, PartialEq, Eq, Structural)]
pub enum Network {
    /// Detect the network from the snapshot, which only a modern one names.
    Detect,
    /// Specify which network to use.
    Specify(Chain),
}

impl Default for ComputeAddresses {
    fn default() -> (r: Self)
        ensures
            r == ComputeAddresses::No,
    {
        ComputeAddresses::No
    }
}

impl Default for Network {
    fn default() -> (r: Self)
        ensures
            r == Network::Detect,
    {
        Network::Detect
    }
}

/// The two container layouts.
#[derive(Debug, Clone, Copy, PartialEq, Eq, Structural)]
pub enum Layout {
    /// A flat list of records.
    Legacy,
    /// Records grouped by transaction, after a header that names the
    /// network.
    Modern,
}

impl Layout {
    /// The state in which the first record is decoded.
    pub open spec fn spec_initial_state(self) -> StateView {
        match self {
            Layout::Legacy => StateView::Legacy,
            Layout::Modern => StateView::NeedTxid,
        }
    }

    /// The state in which the first record is decoded.
    pub fn initial_state(self) -> (state: State)
        ensures
            state@ == self.spec_initial_state(),
            state@.wf(),
    {
        match self {
            Layout::Legacy => State::Legacy,
            Layout::Modern => State::NeedTxid,
        }
    }
}

/// What the header of a snapshot says.
#[derive(Debug, Clone, Copy, PartialEq, Eq)]
pub struct Snapshot {
    /// The block hash of the chain tip when the set was exported.
    pub block_hash: [u8; 32],
    /// The count of entries that the snapshot declares.
    pub utxo_set_size: u64,
    /// The layout of the records.
    pub layout: Layout,
    /// The network to compute addresses for, if any.
    pub address_network: Option<Chain>,
}

/// A header as a value of specifications.
pub struct SnapshotView {
    pub block_hash: Seq<u8>,
    pub utxo_set_size: u64,
    pub layout: Layout,
    pub address_network: Option<Chain>,
}

impl View for Snapshot {
    type V = SnapshotView;

    open spec fn view(&self) -> SnapshotView {
        SnapshotView {
            block_hash: self.block_hash@,
            utxo_set_size: self.utxo_set_size,
            layout: self.layout,
            address_network: self.address_network,
        }
    }
}

/// Whether `s` starts with the token of the modern layout.
pub open spec fn is_modern(s: Seq<u8>) -> bool {
    s.len() >= 5 && s.take(5) == snapshot_magic()
}

/// The network to compute addresses for, for a modern snapshot of the
/// network `detected`.
pub open spec fn spec_resolve_modern(compute_addresses: ComputeAddresses, detected: Chain) -> Result<
    Option<Chain>,
    Error,
> {
    match compute_addresses {
        ComputeAddresses::No => Ok(None),
        ComputeAddresses::Yes(Network::Detect) => Ok(Some(detected)),
        ComputeAddresses::Yes(Network::Specify(specified)) => if specified == detected {
            Ok(Some(detected))
        } else {
            Err(Error::NetworkMismatch { detected, specified })
        },
    }
}

/// The network to compute addresses for, for a legacy snapshot, which names
/// none.
pub open spec fn spec_resolve_legacy(compute_addresses: ComputeAddresses) -> Result<
    Option<Chain>,
    Error,
> {
    match compute_addresses {
        ComputeAddresses::No => Ok(None),
        ComputeAddresses::Yes(Network::Specify(network)) => Ok(Some(network)),
        ComputeAddresses::Yes(Network::Detect) => Err(Error::NetworkDetect),
    }
}

/// The network that the preamble of a modern snapshot names: after the
/// token, the version, which must be the supported one, and the network
/// magic, which must be known.
pub open spec fn spec_preamble(s: Seq<u8>) -> Result<Chain, Error> {
    match spec_read_le(s.skip(5), 2) {
        Ok(version) => if version != SNAPSHOT_VERSION {
            Err(Error::UnknownVersion(version as u16))
        } else {
            match spec_read_le(s.skip(7), 4) {
                Ok(magic) => match spec_chain_of_magic(magic as u32) {
                    Some(chain) => Ok(chain),
                    None => Err(Error::UnknownMagic(magic as u32)),
                },
                Err(e) => Err(e),
            }
        },
        Err(e) => Err(e),
    }
}

/// The block hash and the declared count at the start of `s`.
pub open spec fn spec_common(s: Seq<u8>) -> Result<(Seq<u8>, u64), Error> {
    if s.len() < 32 {
        Err(Error::UnexpectedEof)
    } else {
        match spec_read_le(s.skip(32), 8) {
            Ok(count) => Ok((s.take(32), count as u64)),
            Err(e) => Err(e),
        }
    }
}

/// The count of bytes that the header takes.
pub open spec fn header_len(layout: Layout) -> nat {
    match layout {
        Layout::Legacy => 40,
        Layout::Modern => 51,
    }
}

/// The header at the start of `s` and the count of bytes it takes.
pub open spec fn spec_header(s: Seq<u8>, compute_addresses: ComputeAddresses) -> Result<
    (SnapshotView, nat),
    Error,
> {
    if s.len() < 5 {
        Err(Error::UnexpectedEof)
    } else if is_modern(s) {
        match spec_preamble(s) {
            Ok(detected) => match spec_resolve_modern(compute_addresses, detected) {
                Ok(address_network) => match spec_common(s.skip(11)) {
                    Ok((block_hash, utxo_set_size)) => Ok(
                        (
                            SnapshotView {
                                block_hash,
                                utxo_set_size,
                                layout: Layout::Modern,
                                address_network,
                            },
                            header_len(Layout::Modern),
                        ),
                    ),
                    Err(e) => Err(e),
                },
                Err(e) => Err(e),
            },
            Err(e) => Err(e),
        }
    } else {
        match spec_resolve_legacy(compute_addresses) {
            Ok(address_network) => match spec_common(s) {
                Ok((block_hash, utxo_set_size)) => Ok(
                    (
                        SnapshotView {
                            block_hash,
                            utxo_set_size,
                            layout: Layout::Legacy,
                            address_network,
                        },
                        header_len(Layout::Legacy),
                    ),
                ),
                Err(e) => Err(e),
            },
            Err(e) => Err(e),
        }
    }
}

/// The network to compute addresses for, for a modern snapshot of the
/// network `detected`.
pub fn resolve_modern(compute_addresses: ComputeAddresses, detected: Chain) -> (r: Result<
    Option<Chain>,
    Error,
>)
    ensures
        r == spec_resolve_modern(compute_addresses, detected),
{
    match compute_addresses {
        ComputeAddresses::No => Ok(None),
        ComputeAddresses::Yes(Network::Detect) => Ok(Some(detected)),
        ComputeAddresses::Yes(Network::Specify(specified)) => {
            if specified == detected {
                Ok(Some(detected))
            } else {
                Err(Error::NetworkMismatch { detected, specified })
            }
        },
    }
}

/// The network to compute addresses for, for a legacy snapshot.
pub fn resolve_legacy(compute_addresses: ComputeAddresses) -> (r: Result<Option<Chain>, Error>)
    ensures
        r == spec_resolve_legacy(compute_addresses),
{
    match compute_addresses {
        ComputeAddresses::No => Ok(None),
        ComputeAddresses::Yes(Network::Specify(network)) => Ok(Some(network)),
        ComputeAddresses::Yes(Network::Detect) => Err(Error::NetworkDetect),
    }
}

/// Whether `input` starts with the token of the modern layout.
pub fn starts_with_magic(input: &[u8]) -> (r: bool)
    ensures
        r == is_modern(input@),
{
    if input.len() < 5 {
        return false;
    }
    let r = input[0] == 0x75 && input[1] == 0x74 && input[2] == 0x78 && input[3] == 0x6f
        && input[4] == 0xff;
    proof {
        let head = input@.take(5);
        assert(head[0] == input@[0] && head[1] == input@[1] && head[2] == input@[2] && head[3]
            == input@[3] && head[4] == input@[4]);
        if r {
            assert(head =~= snapshot_magic());
        }
    }
    r
}

impl Snapshot {
    /// Reads the version and the network magic that follow the token of a
    /// modern snapshot.
    fn parse_preamble(input: &[u8]) -> (r: Result<Chain, Error>)
        requires
            input@.len() >= 5,
        ensures
            r == spec_preamble(input@),
    {
        let after_token = slice_from(input, 5);
        assert(after_token@ == input@.skip(5));
        let version = match read_u16_le(after_token) {
            Ok(version) => version,
            Err(e) => {
                return Err(e);
            },
        };
        if version != SNAPSHOT_VERSION {
            return Err(Error::UnknownVersion(version));
        }
        let after_version = slice_from(input, 7);
        assert(after_version@ == input@.skip(7));
        let magic = match read_u32_le(after_version) {
            Ok(magic) => magic,
            Err(e) => {
                return Err(e);
            },
        };
        Chain::from_magic(magic)
    }

    /// Reads the block hash and the declared count.
    fn parse_common(input: &[u8]) -> (r: Result<([u8; 32], u64), Error>)
        ensures
            match r {
                Ok((block_hash, utxo_set_size)) => spec_common(input@) == Ok::<
                    (Seq<u8>, u64),
                    Error,
                >((block_hash@, utxo_set_size)),
                Err(e) => spec_common(input@) == Err::<(Seq<u8>, u64), Error>(e),
            },
    {
        if input.len() < 32 {
            return Err(Error::UnexpectedEof);
        }
        let block_hash = array_32(input);
        let after_hash = slice_from(input, 32);
        assert(after_hash@ == input@.skip(32));
        match read_u64_le(after_hash) {
            Ok(utxo_set_size) => Ok((block_hash, utxo_set_size)),
            Err(e) => Err(e),
        }
    }

    /// Reads the header at the start of `input`, finds out the layout and
    /// settles the network to compute addresses for. Says how many bytes the
    /// header took: the first record starts there.
    pub fn parse(input: &[u8], compute_addresses: ComputeAddresses) -> (r: Result<
        (Snapshot, usize),
        Error,
    >)
        ensures
            match r {
                Ok((snapshot, used)) => spec_header(input@, compute_addresses) == Ok::<
                    (SnapshotView, nat),
                    Error,
                >((snapshot@, used as nat)) && used <= input.len(),
                Err(e) => spec_header(input@, compute_addresses) == Err::<
                    (SnapshotView, nat),
                    Error,
                >(e),
            },
    {
        // Look for magic bytes at the start of the input
        if input.len() < 5 {
            return Err(Error::UnexpectedEof);
        }
        let layout;
        let address_network;
        let start: usize;

        if starts_with_magic(input) {
            let detected = match Self::parse_preamble(input) {
                Ok(detected) => detected,
                Err(e) => {
                    return Err(e);
                },
            };
            address_network = match resolve_modern(compute_addresses, detected) {
                Ok(network) => network,
                Err(e) => {
                    return Err(e);
                },
            };
            layout = Layout::Modern;
            start = 11;
        } else {
            address_network = match resolve_legacy(compute_addresses) {
                Ok(network) => network,
                Err(e) => {
                    return Err(e);
                },
            };
            layout = Layout::Legacy;
            start = 0;
        }

        let common = slice_from(input, start);
        assert(common@ == input@.skip(start as int));
        assert(input@.skip(0) == input@);
        match Self::parse_common(common) {
            Ok((block_hash, utxo_set_size)) => Ok(
                (Snapshot { block_hash, utxo_set_size, layout, address_network }, start + 40),
            ),
            Err(e) => Err(e),
        }
    }
}

/// The snapshot parser: it holds the bytes of a snapshot and gives out its
/// entries one by one.
pub struct Dump {
    /// Optionally compute addresses using this network.
    address_network: Option<Chain>,
    /// The block hash of the chain tip when the set was exported.
    block_hash: [u8; 32],
    /// The bytes of the snapshot.
    reader: Vec<u8>,
    /// Where in the bytes the next record starts.
    position: usize,
    /// Where the decoder stands between two records.
    state: State,
    /// The failure that ended the sequence, if one did.
    failure: Option<Error>,
    /// The count of entries that the snapshot declares.
    utxo_set_size: u64,
}

/// A parser as a value of specifications.
pub struct DumpView {
    pub address_network: Option<Chain>,
    pub block_hash: Seq<u8>,
    pub input: Seq<u8>,
    pub position: nat,
    pub state: StateView,
    pub failure: Option<Error>,
    pub utxo_set_size: u64,
}

impl View for Dump {
    type V = DumpView;

    closed spec fn view(&self) -> DumpView {
        DumpView {
            address_network: self.address_network,
            block_hash: self.block_hash@,
            input: self.reader@,
            position: self.position as nat,
            state: self.state@,
            failure: self.failure,
            utxo_set_size: self.utxo_set_size,
        }
    }
}

impl DumpView {
    /// The parser stands inside its bytes, holds a block hash of 32 bytes,
    /// and a group that it is working through has an output still to come.
    pub open spec fn wf(self) -> bool {
        &&& self.position <= self.input.len()
        &&& self.block_hash.len() == 32
        &&& self.state.wf()
    }

    /// The parser as it stands after the header `snapshot`, which took
    /// `used` bytes of `input`.
    pub open spec fn start(input: Seq<u8>, snapshot: SnapshotView, used: nat) -> DumpView {
        DumpView {
            address_network: snapshot.address_network,
            block_hash: snapshot.block_hash,
            input,
            position: used,
            state: snapshot.layout.spec_initial_state(),
            failure: None,
            utxo_set_size: snapshot.utxo_set_size,
        }
    }

    /// One pull: the entry that comes out, if one does, and the parser as it
    /// stands afterwards. A failure ends the sequence for good; it is kept,
    /// and nothing else changes from then on.
    pub open spec fn step(self) -> (Option<TxOutView>, DumpView) {
        if self.failure is Some {
            (None, self)
        } else {
            match spec_record(
                spec_skip(self.input, self.position),
                self.state,
                self.address_network,
            ) {
                Ok((tx_out, state, used)) => (
                    Some(tx_out),
                    DumpView { position: self.position + used, state, ..self },
                ),
                Err(e) => (None, DumpView { failure: Some(e), ..self }),
            }
        }
    }
}

/// The entries that are still to come, in the order in which they come.
/// They are finitely many: every one of them takes bytes.
pub open spec fn spec_entries(dump: DumpView) -> Seq<TxOutView>
    decreases dump.input.len() - dump.position,
    via spec_entries_terminates
{
    match dump.step() {
        (Some(tx_out), next) => seq![tx_out] + spec_entries(next),
        (None, _) => Seq::empty(),
    }
}

#[via_fn]
proof fn spec_entries_terminates(dump: DumpView) {
    lemma_record_in_bounds(
        spec_skip(dump.input, dump.position),
        dump.state,
        dump.address_network,
    );
}

/// The views of a run of entries.
pub open spec fn views(entries: Seq<TxOut>) -> Seq<TxOutView> {
    entries.map_values(|tx_out: TxOut| tx_out@)
}

/// The view of an optional entry.
pub open spec fn entry(tx_out: Option<TxOut>) -> Option<TxOutView> {
    match tx_out {
        Some(tx_out) => Some(tx_out@),
        None => None,
    }
}

impl Dump {
    /// Starts on the bytes of a snapshot: reads the header and stands at the
    /// first record.
    pub fn from_reader(reader: Vec<u8>, compute_addresses: ComputeAddresses) -> (r: Result<
        Dump,
        Error,
    >)
        ensures
            match r {
                Ok(dump) => spec_header(reader@, compute_addresses) matches Ok((snapshot, used))
                    && dump@ == DumpView::start(reader@, snapshot, used) && dump@.wf(),
                Err(e) => spec_header(reader@, compute_addresses) == Err::<
                    (SnapshotView, nat),
                    Error,
                >(e),
            },
    {
        match Snapshot::parse(reader.as_slice(), compute_addresses) {
            Ok((snapshot, used)) => Ok(
                Dump {
                    address_network: snapshot.address_network,
                    block_hash: snapshot.block_hash,
                    reader,
                    position: used,
                    state: snapshot.layout.initial_state(),
                    failure: None,
                    utxo_set_size: snapshot.utxo_set_size,
                },
            ),
            Err(e) => Err(e),
        }
    }

    /// Gives out the next entry, or nothing when the bytes are used up or a
    /// record could not be decoded. After that it gives out nothing again.
    pub fn next(&mut self) -> (r: Option<TxOut>)
        ensures
            entry(r) == old(self)@.step().0,
            final(self)@ == old(self)@.step().1,
            old(self)@.wf() ==> final(self)@.wf(),
    {
        if self.failure.is_some() {
            return None;
        }
        let rest = slice_from(self.reader.as_slice(), self.position);
        assert(self.position + rest@.len() <= usize::MAX) by {
            assert(self.reader@.len() == self.reader.len());
            if self.position <= self.reader@.len() {
                assert(rest@.len() == self.reader@.len() - self.position);
            } else {
                assert(rest@.len() == 0);
            }
        }
        match TxOut::consensus_decode(rest, self.state, self.address_network) {
            Ok((tx_out, state, used)) => {
                self.position = self.position + used;
                self.state = state;
                Some(tx_out)
            },
            Err(e) => {
                self.failure = Some(e);
                None
            },
        }
    }

    /// Gives out all the entries that are still to come. Afterwards the
    /// sequence has ended.
    pub fn collect(&mut self) -> (entries: Vec<TxOut>)
        ensures
            views(entries@) == spec_entries(old(self)@),
            final(self)@.failure is Some,
            final(self)@.input == old(self)@.input,
    {
        let mut entries: Vec<TxOut> = Vec::new();
        assert(views(entries@) =~= Seq::<TxOutView>::empty());
        loop
            invariant
                views(entries@) + spec_entries(self@) == spec_entries(old(self)@),
                self@.input == old(self)@.input,
            ensures
                views(entries@) == spec_entries(old(self)@),
                self@.failure is Some,
                self@.input == old(self)@.input,
            decreases self@.input.len() - self@.position,
        {
            let ghost before = self@;
            let ghost taken = entries@;
            proof {
                lemma_record_in_bounds(
                    spec_skip(before.input, before.position),
                    before.state,
                    before.address_network,
                );
            }
            match self.next() {
                Some(tx_out) => {
                    entries.push(tx_out);
                    assert(views(entries@) =~= views(taken) + seq![tx_out@]);
                    assert(views(taken) + (seq![tx_out@] + spec_entries(self@)) =~= views(taken)
                        + seq![tx_out@] + spec_entries(self@));
                },
                None => {
                    assert(views(entries@) + Seq::<TxOutView>::empty() =~= views(entries@));
                    break ;
                },
            }
        }
        entries
    }

    /// The failure that ended the sequence, if one did. The end of the bytes
    /// at the end of a record reads as a failure to find the next one.
    pub fn failure(&self) -> (r: Option<Error>)
        ensures
            r == self@.failure,
    {
        self.failure
    }

    /// The block hash of the chain tip when the set was exported.
    pub fn block_hash(&self) -> (r: [u8; 32])
        ensures
            r@ == self@.block_hash,
    {
        self.block_hash
    }

    /// The count of entries that the snapshot declares. It is not held
    /// against the count of entries that come out.
    pub fn utxo_set_size(&self) -> (r: u64)
        ensures
            r == self@.utxo_set_size,
    {
        self.utxo_set_size
    }

    /// The network that addresses are computed for, if any.
    pub fn address_network(&self) -> (r: Option<Chain>)
        ensures
            r == self@.address_network,
    {
        self.address_network
    }
}

/// Asking to detect the network of a legacy snapshot fails, whatever the
/// snapshot holds: it names no network.
pub proof fn lemma_legacy_cannot_detect(s: Seq<u8>)
    requires
        s.len() >= 5,
        !is_modern(s),
    ensures
        spec_header(s, ComputeAddresses::Yes(Network::Detect)) == Err::<(SnapshotView, nat), Error>(
            Error::NetworkDetect,
        ),
{
}

/// Naming another network than the one a modern snapshot names fails, and
/// the failure holds both.
pub proof fn lemma_modern_mismatch(s: Seq<u8>, specified: Chain)
    requires
        is_modern(s),
        spec_preamble(s) matches Ok(detected) && detected != specified,
    ensures
        spec_header(s, ComputeAddresses::Yes(Network::Specify(specified))) == Err::<
            (SnapshotView, nat),
            Error,
        >(Error::NetworkMismatch { detected: spec_preamble(s).unwrap(), specified }),
{
}

/// A network is computed for only where one was asked for: by name, or by
/// detection in a modern snapshot, where it is the one that the snapshot
/// names.
pub proof fn lemma_resolved_network(s: Seq<u8>, compute_addresses: ComputeAddresses)
    requires
        spec_header(s, compute_addresses) is Ok,
    ensures
        ({
            let snapshot = spec_header(s, compute_addresses).unwrap().0;
            match compute_addresses {
                ComputeAddresses::No => snapshot.address_network == None::<Chain>,
                ComputeAddresses::Yes(Network::Specify(chain)) => snapshot.address_network
                    == Some(chain),
                ComputeAddresses::Yes(Network::Detect) => snapshot.layout == Layout::Modern
                    && snapshot.address_network == Some(spec_preamble(s).unwrap()),
            }
        }),
{
}

/// Once nothing came out, nothing comes out again, and the parser stands
/// still.
pub proof fn lemma_end_is_final(dump: DumpView)
    requires
        dump.step().0 is None,
    ensures
        dump.step().1.step() == (None::<TxOutView>, dump.step().1),
        dump.step().1.failure is Some,
{
}

/// A pull never goes back in the bytes nor past their end, and leaves alone
/// what the header said. A group that is open after it has an output still
/// to come.
pub proof fn lemma_step_keeps(dump: DumpView)
    requires
        dump.wf(),
    ensures
        dump.step().1.wf(),
        dump.step().1.input == dump.input,
        dump.step().1.address_network == dump.address_network,
        dump.step().1.block_hash == dump.block_hash,
        dump.step().1.utxo_set_size == dump.utxo_set_size,
        dump.step().1.position >= dump.position,
        dump.step().0 is Some ==> dump.step().1.position > dump.position,
{
    lemma_record_in_bounds(
        spec_skip(dump.input, dump.position),
        dump.state,
        dump.address_network,
    );
}

/// The declared count bounds nothing: two parsers that differ in it alone
/// give out the same entries.
pub proof fn lemma_count_is_advisory(dump: DumpView, count: u64)
    ensures
        (DumpView { utxo_set_size: count, ..dump }).step().0 == dump.step().0,
        spec_entries(DumpView { utxo_set_size: count, ..dump }) == spec_entries(dump),
    decreases dump.input.len() - dump.position,
{
    let other = DumpView { utxo_set_size: count, ..dump };
    lemma_record_in_bounds(
        spec_skip(dump.input, dump.position),
        dump.state,
        dump.address_network,
    );
    if dump.step().0 is Some {
        assert(other.step().1 == (DumpView { utxo_set_size: count, ..dump.step().1 }));
        lemma_count_is_advisory(dump.step().1, count);
    }
}

/// After a failure no entry is still to come.
pub proof fn lemma_no_entries_after_failure(dump: DumpView)
    requires
        dump.failure is Some,
    ensures
        spec_entries(dump) == Seq::<TxOutView>::empty(),
{
}

/// A group closes exactly when its last output has been read: until then
/// one output fewer is still to come, under the same transaction id.
pub proof fn lemma_group_closes(txid: Seq<u8>, remaining: u64)
    requires
        remaining >= 1,
    ensures
        remaining == 1 <==> StateView::advance(txid, remaining) == StateView::NeedTxid,
        remaining > 1 ==> StateView::advance(txid, remaining) == (StateView::HaveTxid {
            txid,
            out_points_remaining: (remaining - 1) as u64,
        }),
{
}

} // verus!
