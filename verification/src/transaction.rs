//! The unsigned transaction object and its canonical signing bytes.
//!
//! An unsigned transaction holds bounded, non-empty inputs (box references
//! without proofs), optional bounded data-input references, and bounded,
//! non-empty output candidates. Its identifier is the BLAKE2b-256 digest of
//! its proof-erased canonical serialization, recomputed at every
//! successful construction; serializing twice yields identical bytes.

use vstd::prelude::*;

use crate::eval::{ext_entry_views, lemma_ext_entry_views_index, ContextExtension};
use crate::hash::{blake2b256_hash, blake2b256_of};
use crate::serializer::{ser_type, ser_value, write_type, write_value};
use crate::value::ConstantV;
use crate::vlq::{lemma_vlq_bytes_len, vlq_bytes, write_vlq};

verus! {

/// The network protocol's bound on the input, data-input and output counts
/// of one transaction.
pub const MAX_TX_IO_COUNT: usize = 32767;

/// A 32-byte box identifier.
#[derive(Debug, PartialEq, Eq, Clone, Copy)]
pub struct BoxId(pub [u8; 32]);

impl View for BoxId {
    type V = Seq<u8>;

    open spec fn view(&self) -> Seq<u8> {
        self.0@
    }
}

/// A 32-byte token identifier.
#[derive(Debug, PartialEq, Eq, Clone, Copy)]
pub struct TokenId(pub [u8; 32]);

impl View for TokenId {
    type V = Seq<u8>;

    open spec fn view(&self) -> Seq<u8> {
        self.0@
    }
}

/// A 32-byte transaction identifier: the digest of the proof-erased
/// canonical serialization.
#[derive(Debug, PartialEq, Eq, Clone, Copy)]
pub struct TxId(pub [u8; 32]);

impl View for TxId {
    type V = Seq<u8>;

    open spec fn view(&self) -> Seq<u8> {
        self.0@
    }
}

/// An input not yet signed: a box reference and its context extension.
#[derive(Debug, PartialEq, Eq)]
pub struct UnsignedInput {
    /// The box being spent.
    pub box_id: BoxId,
    /// Per-input extension readable by scripts.
    pub extension: ContextExtension,
}

/// Mathematical model of [`UnsignedInput`].
#[verifier::ext_equal]
pub struct UnsignedInputV {
    /// The box being spent.
    pub box_id: Seq<u8>,
    /// Per-input extension readable by scripts.
    pub extension: Seq<(u8, ConstantV)>,
}

impl View for UnsignedInput {
    type V = UnsignedInputV;

    open spec fn view(&self) -> UnsignedInputV {
        UnsignedInputV { box_id: self.box_id@, extension: self.extension@ }
    }
}

/// A reference to a box readable from scripts but not spent.
#[derive(Debug, PartialEq, Eq, Clone, Copy)]
pub struct DataInput {
    /// The referenced box.
    pub box_id: BoxId,
}

impl View for DataInput {
    type V = Seq<u8>;

    open spec fn view(&self) -> Seq<u8> {
        self.box_id@
    }
}

/// A token carried by an output candidate.
#[derive(Debug, PartialEq, Eq, Clone, Copy)]
pub struct Token {
    /// The token's identifier.
    pub token_id: TokenId,
    /// The carried amount.
    pub amount: u64,
}

/// Mathematical model of [`Token`].
#[verifier::ext_equal]
pub struct TokenV {
    /// The token's identifier.
    pub token_id: Seq<u8>,
    /// The carried amount.
    pub amount: u64,
}

impl View for Token {
    type V = TokenV;

    open spec fn view(&self) -> TokenV {
        TokenV { token_id: self.token_id@, amount: self.amount }
    }
}

/// A box creation intent: value, guarding tree bytes, creation height,
/// tokens and typed registers.
#[derive(Debug, PartialEq, Eq)]
pub struct ErgoBoxCandidate {
    /// Monetary value.
    pub value: u64,
    /// Serialized guarding expression.
    pub ergo_tree: Vec<u8>,
    /// Height at which the box is created.
    pub creation_height: u32,
    /// Carried tokens.
    pub tokens: Vec<Token>,
    /// Typed register slots, by register index.
    pub registers: Vec<(u8, crate::value::Constant)>,
}

/// Mathematical model of [`ErgoBoxCandidate`].
#[verifier::ext_equal]
pub struct BoxCandidateV {
    /// Monetary value.
    pub value: u64,
    /// Serialized guarding expression.
    pub ergo_tree: Seq<u8>,
    /// Height at which the box is created.
    pub creation_height: u32,
    /// Carried tokens.
    pub tokens: Seq<TokenV>,
    /// Typed register slots, by register index.
    pub registers: Seq<(u8, ConstantV)>,
}

impl View for ErgoBoxCandidate {
    type V = BoxCandidateV;

    open spec fn view(&self) -> BoxCandidateV {
        BoxCandidateV {
            value: self.value,
            ergo_tree: self.ergo_tree@,
            creation_height: self.creation_height,
            tokens: token_views(self.tokens@),
            registers: self.registers@.map_values(|e: (u8, crate::value::Constant)| (e.0, e.1@)),
        }
    }
}

/// Proof bytes of a signed input. An empty proof contributes no bytes to
/// the canonical serialization, which makes the proof-erased form of a
/// transaction equal to its unsigned wire layout.
#[derive(Debug, PartialEq, Eq)]
pub enum ProofBytes {
    /// No proof (the signing form).
    Empty,
    /// A proof.
    Present(Vec<u8>),
}

/// Mathematical model of [`ProofBytes`].
#[verifier::ext_equal]
pub enum ProofBytesV {
    /// No proof.
    Empty,
    /// A proof.
    Present(Seq<u8>),
}

impl View for ProofBytes {
    type V = ProofBytesV;

    open spec fn view(&self) -> ProofBytesV {
        match self {
            ProofBytes::Empty => ProofBytesV::Empty,
            ProofBytes::Present(bs) => ProofBytesV::Present(bs@),
        }
    }
}

/// A proof together with the context extension it was made under.
#[derive(Debug, PartialEq, Eq)]
pub struct ProverResult {
    /// The proof bytes.
    pub proof: ProofBytes,
    /// Per-input extension readable by scripts.
    pub extension: ContextExtension,
}

/// Mathematical model of [`ProverResult`].
#[verifier::ext_equal]
pub struct ProverResultV {
    /// The proof bytes.
    pub proof: ProofBytesV,
    /// Per-input extension readable by scripts.
    pub extension: Seq<(u8, ConstantV)>,
}

impl View for ProverResult {
    type V = ProverResultV;

    open spec fn view(&self) -> ProverResultV {
        ProverResultV { proof: self.proof@, extension: self.extension@ }
    }
}

/// A signed (or signing-form) input.
#[derive(Debug, PartialEq, Eq)]
pub struct Input {
    /// The box being spent.
    pub box_id: BoxId,
    /// The proof and extension.
    pub spending_proof: ProverResult,
}

impl Input {
    /// Builds an input from its box reference and prover result.
    pub fn new(box_id: BoxId, spending_proof: ProverResult) -> (r: Input)
        ensures
            r.box_id == box_id,
            r.spending_proof == spending_proof,
    {
        Input { box_id, spending_proof }
    }
}

/// Mathematical model of [`Input`].
#[verifier::ext_equal]
pub struct InputV {
    /// The box being spent.
    pub box_id: Seq<u8>,
    /// The proof and extension.
    pub spending_proof: ProverResultV,
}

impl View for Input {
    type V = InputV;

    open spec fn view(&self) -> InputV {
        InputV { box_id: self.box_id@, spending_proof: self.spending_proof@ }
    }
}

/// Models of a sequence of tokens, element-wise.
pub open spec fn token_views(ts: Seq<Token>) -> Seq<TokenV> {
    ts.map_values(|t: Token| t@)
}

/// Models of a sequence of unsigned inputs, element-wise.
pub open spec fn ui_views(is: Seq<UnsignedInput>) -> Seq<UnsignedInputV> {
    is.map_values(|i: UnsignedInput| i@)
}

/// Models of a sequence of data inputs: their box id byte strings.
pub open spec fn di_views(ds: Seq<DataInput>) -> Seq<Seq<u8>> {
    ds.map_values(|d: DataInput| d@)
}

/// Models of a sequence of output candidates, element-wise.
pub open spec fn output_views(os: Seq<ErgoBoxCandidate>) -> Seq<BoxCandidateV> {
    os.map_values(|o: ErgoBoxCandidate| o@)
}

/// Models of a sequence of signed inputs, element-wise.
pub open spec fn input_views(is: Seq<Input>) -> Seq<InputV> {
    is.map_values(|i: Input| i@)
}

/// Models of token id lists, element-wise.
pub open spec fn token_id_views(ids: Seq<TokenId>) -> Seq<Seq<u8>> {
    ids.map_values(|i: TokenId| i@)
}

/// Wire form of one extension (or register) entry: the one-byte key, then
/// the constant's type and payload.
pub open spec fn ser_ext_entries(entries: Seq<(u8, ConstantV)>) -> Seq<u8>
    decreases entries.len(),
{
    if entries.len() == 0 {
        Seq::empty()
    } else {
        seq![entries[0].0] + ser_type(entries[0].1.tpe) + ser_value(entries[0].1.v, entries[0].1.tpe)
            + ser_ext_entries(entries.drop_first())
    }
}

/// Wire form of an extension map: entry count, then the entries in order.
pub open spec fn ser_extension(entries: Seq<(u8, ConstantV)>) -> Seq<u8> {
    vlq_bytes(entries.len() as u64) + ser_ext_entries(entries)
}

/// Wire form of proof bytes: an empty proof writes nothing; a present
/// proof is length-prefixed.
pub open spec fn ser_proof(p: ProofBytesV) -> Seq<u8> {
    match p {
        ProofBytesV::Empty => Seq::empty(),
        ProofBytesV::Present(bs) => vlq_bytes(bs.len() as u64) + bs,
    }
}

/// Wire form of one unsigned input: its 32-byte box id, then its
/// extension.
pub open spec fn ser_unsigned_input(i: UnsignedInputV) -> Seq<u8> {
    i.box_id + ser_extension(i.extension)
}

/// Wire form of one signed input: box id, proof, extension.
pub open spec fn ser_input(i: InputV) -> Seq<u8> {
    i.box_id + ser_proof(i.spending_proof.proof) + ser_extension(i.spending_proof.extension)
}

/// Wire form of one token entry.
pub open spec fn ser_token(t: TokenV) -> Seq<u8> {
    t.token_id + vlq_bytes(t.amount)
}

/// Wire form of a token list (count excluded).
pub open spec fn ser_tokens(ts: Seq<TokenV>) -> Seq<u8>
    decreases ts.len(),
{
    if ts.len() == 0 {
        Seq::empty()
    } else {
        ser_token(ts[0]) + ser_tokens(ts.drop_first())
    }
}

/// Wire form of one output candidate: value, length-prefixed tree bytes,
/// creation height, tokens, registers.
pub open spec fn ser_output(o: BoxCandidateV) -> Seq<u8> {
    vlq_bytes(o.value) + vlq_bytes(o.ergo_tree.len() as u64) + o.ergo_tree + vlq_bytes(
        o.creation_height as u64,
    ) + vlq_bytes(o.tokens.len() as u64) + ser_tokens(o.tokens) + vlq_bytes(
        o.registers.len() as u64,
    ) + ser_ext_entries(o.registers)
}

/// Wire form of the unsigned input list (count excluded).
pub open spec fn ser_unsigned_inputs(is: Seq<UnsignedInputV>) -> Seq<u8>
    decreases is.len(),
{
    if is.len() == 0 {
        Seq::empty()
    } else {
        ser_unsigned_input(is[0]) + ser_unsigned_inputs(is.drop_first())
    }
}

/// Wire form of the signed input list (count excluded).
pub open spec fn ser_inputs(is: Seq<InputV>) -> Seq<u8>
    decreases is.len(),
{
    if is.len() == 0 {
        Seq::empty()
    } else {
        ser_input(is[0]) + ser_inputs(is.drop_first())
    }
}

/// Wire form of the data-input box ids (count excluded).
pub open spec fn ser_data_inputs(ds: Seq<Seq<u8>>) -> Seq<u8>
    decreases ds.len(),
{
    if ds.len() == 0 {
        Seq::empty()
    } else {
        ds[0] + ser_data_inputs(ds.drop_first())
    }
}

/// Wire form of the output list (count excluded).
pub open spec fn ser_outputs(os: Seq<BoxCandidateV>) -> Seq<u8>
    decreases os.len(),
{
    if os.len() == 0 {
        Seq::empty()
    } else {
        ser_output(os[0]) + ser_outputs(os.drop_first())
    }
}

/// The canonical signing bytes of a transaction: input count and inputs,
/// data-input count and box ids (absent collapses to zero), output count
/// and outputs. This is the message the prover signs, and what the
/// transaction id digests.
pub open spec fn ser_tx_signing(
    inputs: Seq<UnsignedInputV>,
    data_inputs: Option<Seq<Seq<u8>>>,
    outputs: Seq<BoxCandidateV>,
) -> Seq<u8> {
    vlq_bytes(inputs.len() as u64) + ser_unsigned_inputs(inputs) + (match data_inputs {
        Option::None => vlq_bytes(0),
        Option::Some(d) => vlq_bytes(d.len() as u64) + ser_data_inputs(d),
    }) + vlq_bytes(outputs.len() as u64) + ser_outputs(outputs)
}

/// The canonical bytes of a signed-form transaction: as the signing bytes,
/// but each input carries its proof bytes. With every proof empty the two
/// coincide.
pub open spec fn ser_tx_full(
    inputs: Seq<InputV>,
    data_inputs: Option<Seq<Seq<u8>>>,
    outputs: Seq<BoxCandidateV>,
) -> Seq<u8> {
    vlq_bytes(inputs.len() as u64) + ser_inputs(inputs) + (match data_inputs {
        Option::None => vlq_bytes(0),
        Option::Some(d) => vlq_bytes(d.len() as u64) + ser_data_inputs(d),
    }) + vlq_bytes(outputs.len() as u64) + ser_outputs(outputs)
}

/// Erasing proofs from unsigned inputs: what `to_tx_wo_proofs` builds.
pub open spec fn inputs_with_empty_proofs(is: Seq<UnsignedInputV>) -> Seq<InputV> {
    is.map_values(
        |i: UnsignedInputV| InputV {
            box_id: i.box_id,
            spending_proof: ProverResultV { proof: ProofBytesV::Empty, extension: i.extension },
        },
    )
}

/// With empty proofs, the signed-form input list serializes exactly as the
/// unsigned input list does.
pub proof fn lemma_empty_proof_inputs_serialize_alike(is: Seq<UnsignedInputV>)
    ensures
        ser_inputs(inputs_with_empty_proofs(is)) == ser_unsigned_inputs(is),
    decreases is.len(),
{
    if is.len() > 0 {
        lemma_empty_proof_inputs_serialize_alike(is.drop_first());
        assert(inputs_with_empty_proofs(is).drop_first() =~= inputs_with_empty_proofs(
            is.drop_first(),
        ));
        assert(ser_input(inputs_with_empty_proofs(is)[0]) =~= ser_unsigned_input(is[0]));
        assert(ser_inputs(inputs_with_empty_proofs(is)) =~= ser_unsigned_inputs(is));
    }
}


/// Appends the bytes of a 32-byte identifier.
fn write_id32(out: &mut Vec<u8>, a: &[u8; 32])
    ensures
        final(out)@ == old(out)@ + a@,
{
    let mut k: usize = 0;
    while k < 32
        invariant
            0 <= k <= 32,
            a@.len() == 32,
            out@ =~= old(out)@ + a@.take(k as int),
        decreases 32 - k,
    {
        out.push(a[k]);
        k += 1;
    }
    proof {
        assert(a@.take(32) =~= a@);
    }
}

/// Appends raw bytes.
fn write_raw(out: &mut Vec<u8>, bs: &Vec<u8>)
    ensures
        final(out)@ == old(out)@ + bs@,
{
    let n = bs.len();
    let mut k: usize = 0;
    while k < n
        invariant
            0 <= k <= n,
            n == bs@.len(),
            out@ =~= old(out)@ + bs@.take(k as int),
        decreases n - k,
    {
        out.push(bs[k]);
        k += 1;
    }
    proof {
        assert(bs@.take(n as int) =~= bs@);
    }
}

/// Appends the wire form of extension (or register) entries from `i` on.
fn write_ext_entries(out: &mut Vec<u8>, entries: &Vec<(u8, crate::value::Constant)>, i: usize)
    requires
        i <= entries@.len(),
    ensures
        final(out)@ == old(out)@ + ser_ext_entries(ext_entry_views(entries@).skip(i as int)),
    decreases entries@.len() - i,
{
    proof {
        lemma_ext_entry_views_index(entries@);
    }
    if i < entries.len() {
        let e = &entries[i];
        out.push(e.0);
        write_type(out, &e.1.tpe);
        write_value(out, &e.1.v, &e.1.tpe);
        write_ext_entries(out, entries, i + 1);
        proof {
            let views = ext_entry_views(entries@);
            assert(views.skip(i as int)[0] == views[i as int]);
            assert(views.skip(i as int).drop_first() =~= views.skip(i as int + 1));
            assert(final(out)@ =~= old(out)@ + ser_ext_entries(views.skip(i as int)));
        }
    } else {
        proof {
            assert(ext_entry_views(entries@).skip(i as int).len() == 0);
            assert(final(out)@ =~= old(out)@ + ser_ext_entries(
                ext_entry_views(entries@).skip(i as int),
            ));
        }
    }
}

/// Appends the wire form of an extension map.
fn write_extension(out: &mut Vec<u8>, ext: &ContextExtension)
    ensures
        final(out)@ == old(out)@ + ser_extension(ext@),
{
    proof {
        lemma_ext_entry_views_index(ext.values@);
    }
    write_vlq(out, ext.values.len() as u64);
    write_ext_entries(out, &ext.values, 0);
    proof {
        assert(ext_entry_views(ext.values@).skip(0) =~= ext@);
        assert(final(out)@ =~= old(out)@ + ser_extension(ext@));
    }
}

/// Appends the wire form of the unsigned inputs from `i` on.
fn write_unsigned_inputs(out: &mut Vec<u8>, is: &Vec<UnsignedInput>, i: usize)
    requires
        i <= is@.len(),
    ensures
        final(out)@ == old(out)@ + ser_unsigned_inputs(ui_views(is@).skip(i as int)),
    decreases is@.len() - i,
{
    if i < is.len() {
        write_id32(out, &is[i].box_id.0);
        write_extension(out, &is[i].extension);
        write_unsigned_inputs(out, is, i + 1);
        proof {
            let views = ui_views(is@);
            assert(views.skip(i as int)[0] == views[i as int]);
            assert(views.skip(i as int).drop_first() =~= views.skip(i as int + 1));
            assert(final(out)@ =~= old(out)@ + ser_unsigned_inputs(views.skip(i as int)));
        }
    } else {
        proof {
            assert(ui_views(is@).skip(i as int).len() == 0);
            assert(final(out)@ =~= old(out)@ + ser_unsigned_inputs(ui_views(is@).skip(i as int)));
        }
    }
}

/// Appends the wire form of the signed inputs from `i` on.
fn write_inputs(out: &mut Vec<u8>, is: &Vec<Input>, i: usize)
    requires
        i <= is@.len(),
    ensures
        final(out)@ == old(out)@ + ser_inputs(input_views(is@).skip(i as int)),
    decreases is@.len() - i,
{
    if i < is.len() {
        write_id32(out, &is[i].box_id.0);
        match &is[i].spending_proof.proof {
            ProofBytes::Empty => {},
            ProofBytes::Present(bs) => {
                write_vlq(out, bs.len() as u64);
                write_raw(out, bs);
            },
        }
        write_extension(out, &is[i].spending_proof.extension);
        write_inputs(out, is, i + 1);
        proof {
            let views = input_views(is@);
            assert(views.skip(i as int)[0] == views[i as int]);
            assert(views.skip(i as int).drop_first() =~= views.skip(i as int + 1));
            assert(final(out)@ =~= old(out)@ + ser_inputs(views.skip(i as int)));
        }
    } else {
        proof {
            assert(input_views(is@).skip(i as int).len() == 0);
            assert(final(out)@ =~= old(out)@ + ser_inputs(input_views(is@).skip(i as int)));
        }
    }
}

/// Appends the data-input box ids from `i` on.
fn write_data_inputs(out: &mut Vec<u8>, ds: &Vec<DataInput>, i: usize)
    requires
        i <= ds@.len(),
    ensures
        final(out)@ == old(out)@ + ser_data_inputs(di_views(ds@).skip(i as int)),
    decreases ds@.len() - i,
{
    if i < ds.len() {
        write_id32(out, &ds[i].box_id.0);
        write_data_inputs(out, ds, i + 1);
        proof {
            let views = di_views(ds@);
            assert(views.skip(i as int)[0] == views[i as int]);
            assert(views.skip(i as int).drop_first() =~= views.skip(i as int + 1));
            assert(final(out)@ =~= old(out)@ + ser_data_inputs(views.skip(i as int)));
        }
    } else {
        proof {
            assert(di_views(ds@).skip(i as int).len() == 0);
            assert(final(out)@ =~= old(out)@ + ser_data_inputs(di_views(ds@).skip(i as int)));
        }
    }
}

/// Appends the wire form of the tokens from `i` on.
fn write_tokens(out: &mut Vec<u8>, ts: &Vec<Token>, i: usize)
    requires
        i <= ts@.len(),
    ensures
        final(out)@ == old(out)@ + ser_tokens(token_views(ts@).skip(i as int)),
    decreases ts@.len() - i,
{
    if i < ts.len() {
        write_id32(out, &ts[i].token_id.0);
        write_vlq(out, ts[i].amount);
        write_tokens(out, ts, i + 1);
        proof {
            let views = token_views(ts@);
            assert(views.skip(i as int)[0] == views[i as int]);
            assert(views.skip(i as int).drop_first() =~= views.skip(i as int + 1));
            assert(final(out)@ =~= old(out)@ + ser_tokens(views.skip(i as int)));
        }
    } else {
        proof {
            assert(token_views(ts@).skip(i as int).len() == 0);
            assert(final(out)@ =~= old(out)@ + ser_tokens(token_views(ts@).skip(i as int)));
        }
    }
}

/// Appends the wire form of one output candidate.
fn write_output(out: &mut Vec<u8>, o: &ErgoBoxCandidate)
    ensures
        final(out)@ == old(out)@ + ser_output(o@),
{
    write_vlq(out, o.value);
    write_vlq(out, o.ergo_tree.len() as u64);
    write_raw(out, &o.ergo_tree);
    write_vlq(out, o.creation_height as u64);
    write_vlq(out, o.tokens.len() as u64);
    write_tokens(out, &o.tokens, 0);
    write_vlq(out, o.registers.len() as u64);
    write_ext_entries(out, &o.registers, 0);
    proof {
        lemma_ext_entry_views_index(o.registers@);
        assert(token_views(o.tokens@).skip(0) =~= o@.tokens);
        assert(ext_entry_views(o.registers@).skip(0) =~= o@.registers);
        assert(final(out)@ =~= old(out)@ + ser_output(o@));
    }
}

/// Appends the wire form of the outputs from `i` on.
fn write_outputs(out: &mut Vec<u8>, os: &Vec<ErgoBoxCandidate>, i: usize)
    requires
        i <= os@.len(),
    ensures
        final(out)@ == old(out)@ + ser_outputs(output_views(os@).skip(i as int)),
    decreases os@.len() - i,
{
    if i < os.len() {
        write_output(out, &os[i]);
        write_outputs(out, os, i + 1);
        proof {
            let views = output_views(os@);
            assert(views.skip(i as int)[0] == views[i as int]);
            assert(views.skip(i as int).drop_first() =~= views.skip(i as int + 1));
            assert(final(out)@ =~= old(out)@ + ser_outputs(views.skip(i as int)));
        }
    } else {
        proof {
            assert(output_views(os@).skip(i as int).len() == 0);
            assert(final(out)@ =~= old(out)@ + ser_outputs(output_views(os@).skip(i as int)));
        }
    }
}

/// Model of an optional data-input list.
pub open spec fn opt_di_views(o: Option<Vec<DataInput>>) -> Option<Seq<Seq<u8>>> {
    match o {
        Option::None => Option::None,
        Option::Some(d) => Option::Some(di_views(d@)),
    }
}

/// Builds the canonical signing bytes of the given transaction fields.
fn signing_bytes(
    inputs: &Vec<UnsignedInput>,
    data_inputs: &Option<Vec<DataInput>>,
    outputs: &Vec<ErgoBoxCandidate>,
) -> (r: Vec<u8>)
    ensures
        r@ == ser_tx_signing(ui_views(inputs@), opt_di_views(*data_inputs), output_views(outputs@)),
{
    let mut out: Vec<u8> = Vec::new();
    write_vlq(&mut out, inputs.len() as u64);
    write_unsigned_inputs(&mut out, inputs, 0);
    proof {
        assert(ui_views(inputs@).skip(0) =~= ui_views(inputs@));
    }
    match data_inputs {
        Option::None => {
            write_vlq(&mut out, 0);
        },
        Option::Some(d) => {
            write_vlq(&mut out, d.len() as u64);
            write_data_inputs(&mut out, d, 0);
            proof {
                assert(di_views(d@).skip(0) =~= di_views(d@));
            }
        },
    }
    write_vlq(&mut out, outputs.len() as u64);
    write_outputs(&mut out, outputs, 0);
    proof {
        assert(output_views(outputs@).skip(0) =~= output_views(outputs@));
        assert(out@ =~= ser_tx_signing(
            ui_views(inputs@),
            opt_di_views(*data_inputs),
            output_views(outputs@),
        ));
    }
    out
}

/// A transaction bound violation, one variant per bound.
#[derive(Debug, PartialEq, Eq, Clone, Copy)]
pub enum TransactionError {
    /// The inputs are empty or too many.
    InvalidInputsCount,
    /// The data inputs are too many.
    InvalidDataInputsCount,
    /// The output candidates are empty or too many.
    InvalidOutputCandidatesCount,
}

impl TransactionError {
    /// Human-readable classification of this error.
    pub fn description(&self) -> &'static str {
        match self {
            TransactionError::InvalidInputsCount => "invalid number of inputs",
            TransactionError::InvalidDataInputsCount => "invalid number of data inputs",
            TransactionError::InvalidOutputCandidatesCount => "invalid number of output candidates",
        }
    }
}

/// An unsigned (inputs without proofs) transaction. Its id is a derived
/// field: it always equals a fresh digest of the signing bytes.
#[derive(Debug, PartialEq, Eq)]
pub struct UnsignedTransaction {
    /// The derived identifier; equals a fresh digest of the signing bytes
    /// whenever the transaction came from a successful construction.
    pub tx_id: TxId,
    /// Unsigned inputs that the transaction will spend; non-empty and
    /// bounded.
    pub inputs: Vec<UnsignedInput>,
    /// Inputs that are reachable from scripts but not spent; absent or
    /// non-empty and bounded.
    pub data_inputs: Option<Vec<DataInput>>,
    /// Box candidates the transaction will create; non-empty and bounded.
    pub output_candidates: Vec<ErgoBoxCandidate>,
}

/// Mathematical model of [`UnsignedTransaction`].
#[verifier::ext_equal]
pub struct UnsignedTransactionV {
    /// The derived identifier.
    pub tx_id: Seq<u8>,
    /// Unsigned inputs.
    pub inputs: Seq<UnsignedInputV>,
    /// Optional data inputs, as box id byte strings.
    pub data_inputs: Option<Seq<Seq<u8>>>,
    /// Output candidates.
    pub outputs: Seq<BoxCandidateV>,
}

impl View for UnsignedTransaction {
    type V = UnsignedTransactionV;

    open spec fn view(&self) -> UnsignedTransactionV {
        UnsignedTransactionV {
            tx_id: self.tx_id@,
            inputs: ui_views(self.inputs@),
            data_inputs: opt_di_views(self.data_inputs),
            outputs: output_views(self.output_candidates@),
        }
    }
}

/// The construction invariant of an unsigned transaction: every list is
/// within the protocol bounds, inputs and outputs are non-empty, absent
/// data inputs stay absent rather than empty, and the cached id equals a
/// fresh digest of the signing bytes.
pub open spec fn tx_valid(t: UnsignedTransactionV) -> bool {
    &&& 1 <= t.inputs.len() <= MAX_TX_IO_COUNT
    &&& (t.data_inputs matches Option::Some(d) ==> 1 <= d.len() <= MAX_TX_IO_COUNT)
    &&& 1 <= t.outputs.len() <= MAX_TX_IO_COUNT
    &&& t.tx_id == blake2b256_of(ser_tx_signing(t.inputs, t.data_inputs, t.outputs))
}

/// A transaction in signed form: inputs carry proof bytes (possibly
/// empty).
#[derive(Debug, PartialEq, Eq)]
pub struct Transaction {
    /// The derived identifier, carried over from the unsigned form.
    pub tx_id: TxId,
    /// Signed inputs.
    pub inputs: Vec<Input>,
    /// Optional data inputs.
    pub data_inputs: Option<Vec<DataInput>>,
    /// Box candidates the transaction creates.
    pub output_candidates: Vec<ErgoBoxCandidate>,
}

/// Mathematical model of [`Transaction`].
#[verifier::ext_equal]
pub struct TransactionV {
    /// The derived identifier.
    pub tx_id: Seq<u8>,
    /// Signed inputs.
    pub inputs: Seq<InputV>,
    /// Optional data inputs, as box id byte strings.
    pub data_inputs: Option<Seq<Seq<u8>>>,
    /// Output candidates.
    pub outputs: Seq<BoxCandidateV>,
}

impl View for Transaction {
    type V = TransactionV;

    open spec fn view(&self) -> TransactionV {
        TransactionV {
            tx_id: self.tx_id@,
            inputs: input_views(self.inputs@),
            data_inputs: opt_di_views(self.data_inputs),
            outputs: output_views(self.output_candidates@),
        }
    }
}

impl Transaction {
    /// The canonical bytes of this transaction, proofs included (the
    /// signing message when every proof is empty).
    pub fn bytes_to_sign(&self) -> (r: Vec<u8>)
        ensures
            r@ == ser_tx_full(self@.inputs, self@.data_inputs, self@.outputs),
    {
        let mut out: Vec<u8> = Vec::new();
        write_vlq(&mut out, self.inputs.len() as u64);
        write_inputs(&mut out, &self.inputs, 0);
        proof {
            assert(input_views(self.inputs@).skip(0) =~= input_views(self.inputs@));
        }
        match &self.data_inputs {
            Option::None => {
                write_vlq(&mut out, 0);
            },
            Option::Some(d) => {
                write_vlq(&mut out, d.len() as u64);
                write_data_inputs(&mut out, d, 0);
                proof {
                    assert(di_views(d@).skip(0) =~= di_views(d@));
                }
            },
        }
        write_vlq(&mut out, self.output_candidates.len() as u64);
        write_outputs(&mut out, &self.output_candidates, 0);
        proof {
            assert(output_views(self.output_candidates@).skip(0) =~= output_views(
                self.output_candidates@,
            ));
            assert(out@ =~= ser_tx_full(self@.inputs, self@.data_inputs, self@.outputs));
        }
        out
    }
}

impl Clone for ContextExtension {
    /// Deep copy; the copy models the same extension.
    fn clone(&self) -> (r: Self)
        ensures
            r@ == self@,
    {
        proof {
            lemma_ext_entry_views_index(self.values@);
        }
        let n = self.values.len();
        let mut values: Vec<(u8, crate::value::Constant)> = Vec::new();
        let mut i: usize = 0;
        while i < n
            invariant
                n == self.values@.len(),
                0 <= i <= n,
                values@.len() == i,
                forall|k: int|
                    0 <= k < n ==> ext_entry_views(self.values@)[k] == (
                        self.values@[k].0,
                        self.values@[k].1@,
                    ),
                forall|k: int|
                    0 <= k < i ==> values@[k].0 == self.values@[k].0 && values@[k].1@
                        == self.values@[k].1@,
            decreases n - i,
        {
            let e = &self.values[i];
            values.push((e.0, e.1.clone()));
            i += 1;
        }
        let r = ContextExtension { values };
        proof {
            lemma_ext_entry_views_index(r.values@);
            assert(r@ =~= self@);
        }
        r
    }
}

impl UnsignedTransaction {
    /// Builds a transaction from validated parts, recomputing the derived
    /// id. Returns the bound violation, one distinct variant per bound,
    /// exactly when one list is out of bounds.
    pub fn new(
        inputs: Vec<UnsignedInput>,
        data_inputs: Option<Vec<DataInput>>,
        output_candidates: Vec<ErgoBoxCandidate>,
    ) -> (r: Result<UnsignedTransaction, TransactionError>)
        ensures
            ({
                let iv = ui_views(inputs@);
                let dv = opt_di_views(data_inputs);
                let ov = output_views(output_candidates@);
                let inputs_ok = 1 <= iv.len() <= MAX_TX_IO_COUNT;
                let di_ok = (dv matches Option::Some(d) ==> 1 <= d.len() <= MAX_TX_IO_COUNT);
                let outputs_ok = 1 <= ov.len() <= MAX_TX_IO_COUNT;
                &&& !inputs_ok ==> r == Err::<UnsignedTransaction, TransactionError>(
                    TransactionError::InvalidInputsCount,
                )
                &&& inputs_ok && !di_ok ==> r == Err::<UnsignedTransaction, TransactionError>(
                    TransactionError::InvalidDataInputsCount,
                )
                &&& inputs_ok && di_ok && !outputs_ok ==> r == Err::<
                    UnsignedTransaction,
                    TransactionError,
                >(TransactionError::InvalidOutputCandidatesCount)
                &&& inputs_ok && di_ok && outputs_ok ==> (r matches Ok(tx) && tx@.inputs == iv
                    && tx@.data_inputs == dv && tx@.outputs == ov && tx_valid(tx@))
            }),
    {
        if !(1 <= inputs.len() && inputs.len() <= MAX_TX_IO_COUNT) {
            return Err(TransactionError::InvalidInputsCount);
        }
        let di_ok = match &data_inputs {
            Option::None => true,
            Option::Some(d) => 1 <= d.len() && d.len() <= MAX_TX_IO_COUNT,
        };
        if !di_ok {
            return Err(TransactionError::InvalidDataInputsCount);
        }
        if !(1 <= output_candidates.len() && output_candidates.len() <= MAX_TX_IO_COUNT) {
            return Err(TransactionError::InvalidOutputCandidatesCount);
        }
        let bytes = signing_bytes(&inputs, &data_inputs, &output_candidates);
        let tx_id = TxId(blake2b256_hash(&bytes));
        Ok(UnsignedTransaction { tx_id, inputs, data_inputs, output_candidates })
    }

    /// Builds a transaction from plain vectors: empty data inputs collapse
    /// to absent, and each bound violation is reported by its own error.
    pub fn new_from_vec(
        inputs: Vec<UnsignedInput>,
        data_inputs: Vec<DataInput>,
        output_candidates: Vec<ErgoBoxCandidate>,
    ) -> (r: Result<UnsignedTransaction, TransactionError>)
        ensures
            ({
                let iv = ui_views(inputs@);
                let dv = if data_inputs@.len() == 0 {
                    Option::<Seq<Seq<u8>>>::None
                } else {
                    Option::Some(di_views(data_inputs@))
                };
                let ov = output_views(output_candidates@);
                let inputs_ok = 1 <= iv.len() <= MAX_TX_IO_COUNT;
                let di_ok = data_inputs@.len() <= MAX_TX_IO_COUNT;
                let outputs_ok = 1 <= ov.len() <= MAX_TX_IO_COUNT;
                &&& !inputs_ok ==> r == Err::<UnsignedTransaction, TransactionError>(
                    TransactionError::InvalidInputsCount,
                )
                &&& inputs_ok && !di_ok ==> r == Err::<UnsignedTransaction, TransactionError>(
                    TransactionError::InvalidDataInputsCount,
                )
                &&& inputs_ok && di_ok && !outputs_ok ==> r == Err::<
                    UnsignedTransaction,
                    TransactionError,
                >(TransactionError::InvalidOutputCandidatesCount)
                &&& inputs_ok && di_ok && outputs_ok ==> (r matches Ok(tx) && tx@.inputs == iv
                    && tx@.data_inputs == dv && tx@.outputs == ov && tx_valid(tx@))
            }),
    {
        let opt_di: Option<Vec<DataInput>> = if data_inputs.len() == 0 {
            Option::None
        } else {
            Option::Some(data_inputs)
        };
        UnsignedTransaction::new(inputs, opt_di, output_candidates)
    }

    /// The transaction id: the digest of the signing bytes, cached at
    /// construction.
    pub fn id(&self) -> (r: TxId)
        ensures
            r@ == self@.tx_id,
    {
        self.tx_id
    }

    /// Recomputes the id from a fresh serialization.
    pub fn calc_tx_id(&self) -> (r: TxId)
        ensures
            r@ == blake2b256_of(ser_tx_signing(self@.inputs, self@.data_inputs, self@.outputs)),
    {
        let bytes = self.bytes_to_sign();
        TxId(blake2b256_hash(&bytes))
    }

    /// The signed-form twin of this transaction with every proof empty:
    /// what the canonical signing serialization is defined over.
    pub fn to_tx_wo_proofs(&self) -> (r: Transaction)
        ensures
            r@.tx_id == self@.tx_id,
            r@.inputs == inputs_with_empty_proofs(self@.inputs),
            r@.data_inputs == self@.data_inputs,
            r@.outputs == self@.outputs,
    {
        let n = self.inputs.len();
        let mut empty_proofs_input: Vec<Input> = Vec::new();
        let mut i: usize = 0;
        while i < n
            invariant
                n == self.inputs@.len(),
                0 <= i <= n,
                empty_proofs_input@.len() == i,
                forall|k: int|
                    0 <= k < i ==> #[trigger] empty_proofs_input@[k]@ == inputs_with_empty_proofs(
                        ui_views(self.inputs@),
                    )[k],
            decreases n - i,
        {
            let ui = &self.inputs[i];
            empty_proofs_input.push(
                Input::new(
                    ui.box_id,
                    ProverResult { proof: ProofBytes::Empty, extension: ui.extension.clone() },
                ),
            );
            i += 1;
        }
        let data_inputs: Option<Vec<DataInput>> = match &self.data_inputs {
            Option::None => Option::None,
            Option::Some(d) => {
                let m = d.len();
                let mut copy: Vec<DataInput> = Vec::new();
                let mut j: usize = 0;
                while j < m
                    invariant
                        m == d@.len(),
                        0 <= j <= m,
                        copy@.len() == j,
                        forall|k: int| 0 <= k < j ==> copy@[k] == d@[k],
                    decreases m - j,
                {
                    copy.push(d[j]);
                    j += 1;
                }
                proof {
                    assert(copy@ =~= d@);
                }
                Option::Some(copy)
            },
        };
        let m2 = self.output_candidates.len();
        let mut outputs: Vec<ErgoBoxCandidate> = Vec::new();
        let mut j2: usize = 0;
        while j2 < m2
            invariant
                m2 == self.output_candidates@.len(),
                0 <= j2 <= m2,
                outputs@.len() == j2,
                forall|k: int|
                    0 <= k < j2 ==> #[trigger] outputs@[k]@ == output_views(
                        self.output_candidates@,
                    )[k],
            decreases m2 - j2,
        {
            outputs.push(clone_output(&self.output_candidates[j2]));
            j2 += 1;
        }
        let r = Transaction {
            tx_id: self.tx_id,
            inputs: empty_proofs_input,
            data_inputs,
            output_candidates: outputs,
        };
        proof {
            assert(input_views(r.inputs@) =~= inputs_with_empty_proofs(self@.inputs));
            assert(output_views(r.output_candidates@) =~= self@.outputs);
            assert(opt_di_views(r.data_inputs) == self@.data_inputs);
        }
        r
    }

    /// The message to be signed by the prover: the canonical serialization
    /// of the proof-erased transaction. Never empty, and a pure function of
    /// the transaction's parts.
    pub fn bytes_to_sign(&self) -> (r: Vec<u8>)
        ensures
            r@ == ser_tx_signing(self@.inputs, self@.data_inputs, self@.outputs),
            r@.len() >= 1,
    {
        let tx = self.to_tx_wo_proofs();
        let r = tx.bytes_to_sign();
        proof {
            lemma_empty_proof_inputs_serialize_alike(self@.inputs);
            lemma_vlq_bytes_len(self@.inputs.len() as u64);
            assert(r@ =~= ser_tx_signing(self@.inputs, self@.data_inputs, self@.outputs));
        }
        r
    }
}

/// Deep copy of one output candidate; the copy models the same candidate.
fn clone_output(o: &ErgoBoxCandidate) -> (r: ErgoBoxCandidate)
    ensures
        r@ == o@,
{
    let nt = o.tokens.len();
    let mut tokens: Vec<Token> = Vec::new();
    let mut i: usize = 0;
    while i < nt
        invariant
            nt == o.tokens@.len(),
            0 <= i <= nt,
            tokens@.len() == i,
            forall|k: int| 0 <= k < i ==> tokens@[k] == o.tokens@[k],
        decreases nt - i,
    {
        tokens.push(o.tokens[i]);
        i += 1;
    }
    proof {
        assert(tokens@ =~= o.tokens@);
    }
    let nr = o.registers.len();
    let mut registers: Vec<(u8, crate::value::Constant)> = Vec::new();
    let mut j: usize = 0;
    while j < nr
        invariant
            nr == o.registers@.len(),
            0 <= j <= nr,
            registers@.len() == j,
            forall|k: int|
                0 <= k < j ==> registers@[k].0 == o.registers@[k].0 && registers@[k].1@
                    == o.registers@[k].1@,
        decreases nr - j,
    {
        let e = &o.registers[j];
        registers.push((e.0, e.1.clone()));
        j += 1;
    }
    let r = ErgoBoxCandidate {
        value: o.value,
        ergo_tree: crate::value::clone_bytes(&o.ergo_tree),
        creation_height: o.creation_height,
        tokens,
        registers,
    };
    proof {
        assert(r@.registers =~= o@.registers);
        assert(r@ =~= o@);
    }
    r
}

/// Id stability: transactions whose parts are equal have equal ids.
pub proof fn lemma_tx_id_stable(t1: UnsignedTransactionV, t2: UnsignedTransactionV)
    requires
        tx_valid(t1),
        tx_valid(t2),
        t1.inputs == t2.inputs,
        t1.data_inputs == t2.data_inputs,
        t1.outputs == t2.outputs,
    ensures
        t1.tx_id == t2.tx_id,
{
}


/// Appends an id to the accumulator unless it is already there.
pub open spec fn dedup_push(acc: Seq<Seq<u8>>, id: Seq<u8>) -> Seq<Seq<u8>> {
    if acc.contains(id) {
        acc
    } else {
        acc.push(id)
    }
}

/// Folds the token ids of one token list into the accumulator, in order.
pub open spec fn collect_token_ids(acc: Seq<Seq<u8>>, ts: Seq<TokenV>) -> Seq<Seq<u8>>
    decreases ts.len(),
{
    if ts.len() == 0 {
        acc
    } else {
        collect_token_ids(dedup_push(acc, ts[0].token_id), ts.drop_first())
    }
}

/// Folds the token ids of all outputs into the accumulator, output by
/// output, preserving first-appearance order.
pub open spec fn collect_output_token_ids(acc: Seq<Seq<u8>>, os: Seq<BoxCandidateV>) -> Seq<
    Seq<u8>,
>
    decreases os.len(),
{
    if os.len() == 0 {
        acc
    } else {
        collect_output_token_ids(collect_token_ids(acc, os[0].tokens), os.drop_first())
    }
}

/// The distinct token ids of a transaction's outputs, in order of first
/// appearance.
pub open spec fn distinct_ids(os: Seq<BoxCandidateV>) -> Seq<Seq<u8>> {
    collect_output_token_ids(Seq::empty(), os)
}

/// Folding one more token list steps the fold from the left.
proof fn lemma_collect_token_ids_push(acc: Seq<Seq<u8>>, ts: Seq<TokenV>, t: TokenV)
    ensures
        collect_token_ids(acc, ts.push(t)) == dedup_push(collect_token_ids(acc, ts), t.token_id),
    decreases ts.len(),
{
    if ts.len() == 0 {
        reveal_with_fuel(collect_token_ids, 2);
        assert(ts.push(t).drop_first() =~= Seq::<TokenV>::empty());
        assert(ts.push(t)[0] == t);
    } else {
        assert(ts.push(t)[0] == ts[0]);
        assert(ts.push(t).drop_first() =~= ts.drop_first().push(t));
        lemma_collect_token_ids_push(dedup_push(acc, ts[0].token_id), ts.drop_first(), t);
    }
}

/// Folding one more output steps the fold from the left.
proof fn lemma_collect_outputs_push(acc: Seq<Seq<u8>>, os: Seq<BoxCandidateV>, o: BoxCandidateV)
    ensures
        collect_output_token_ids(acc, os.push(o)) == collect_token_ids(
            collect_output_token_ids(acc, os),
            o.tokens,
        ),
    decreases os.len(),
{
    if os.len() == 0 {
        reveal_with_fuel(collect_output_token_ids, 2);
        assert(os.push(o).drop_first() =~= Seq::<BoxCandidateV>::empty());
        assert(os.push(o)[0] == o);
    } else {
        assert(os.push(o)[0] == os[0]);
        assert(os.push(o).drop_first() =~= os.drop_first().push(o));
        lemma_collect_outputs_push(collect_token_ids(acc, os[0].tokens), os.drop_first(), o);
    }
}

/// Decides whether `acc` already holds `id`.
fn contains_token_id(acc: &Vec<TokenId>, id: &TokenId) -> (r: bool)
    ensures
        r == token_id_views(acc@).contains(id@),
{
    let n = acc.len();
    let mut i: usize = 0;
    while i < n
        invariant
            n == acc@.len(),
            0 <= i <= n,
            forall|k: int| 0 <= k < i ==> token_id_views(acc@)[k] != id@,
        decreases n - i,
    {
        if crate::value::bytes_eq(&vec_of_id(&acc[i]), &vec_of_id(id)) {
            proof {
                assert(token_id_views(acc@)[i as int] == id@);
            }
            return true;
        }
        i += 1;
    }
    proof {
        assert(!token_id_views(acc@).contains(id@)) by {
            assert(forall|k: int|
                0 <= k < token_id_views(acc@).len() ==> token_id_views(acc@)[k] != id@);
        }
    }
    false
}

/// The bytes of a token id as a vector.
fn vec_of_id(id: &TokenId) -> (r: Vec<u8>)
    ensures
        r@ == id@,
{
    let mut out: Vec<u8> = Vec::new();
    let mut k: usize = 0;
    while k < 32
        invariant
            0 <= k <= 32,
            id.0@.len() == 32,
            out@ =~= id.0@.take(k as int),
        decreases 32 - k,
    {
        out.push(id.0[k]);
        k += 1;
    }
    proof {
        assert(out@ =~= id.0@);
    }
    out
}

impl UnsignedTransaction {
    /// The distinct token ids of all output candidates, in order of first
    /// appearance: a linear scan, no reordering, each id once.
    pub fn distinct_token_ids(&self) -> (r: Vec<TokenId>)
        ensures
            token_id_views(r@) == distinct_ids(self@.outputs),
    {
        let mut acc: Vec<TokenId> = Vec::new();
        let n = self.output_candidates.len();
        let mut i: usize = 0;
        proof {
            assert(output_views(self.output_candidates@).take(0) =~= Seq::<BoxCandidateV>::empty());
            assert(token_id_views(acc@) =~= Seq::<Seq<u8>>::empty());
        }
        while i < n
            invariant
                n == self.output_candidates@.len(),
                0 <= i <= n,
                token_id_views(acc@) == collect_output_token_ids(
                    Seq::empty(),
                    output_views(self.output_candidates@).take(i as int),
                ),
            decreases n - i,
        {
            let o = &self.output_candidates[i];
            let ghost outs = output_views(self.output_candidates@);
            let ghost acc_before_output = token_id_views(acc@);
            let m = o.tokens.len();
            let mut j: usize = 0;
            proof {
                assert(o@.tokens.take(0) =~= Seq::<TokenV>::empty());
            }
            while j < m
                invariant
                    m == o.tokens@.len(),
                    0 <= j <= m,
                    token_id_views(acc@) == collect_token_ids(
                        acc_before_output,
                        o@.tokens.take(j as int),
                    ),
                decreases m - j,
            {
                let ghost acc_now = token_id_views(acc@);
                let tid = o.tokens[j].token_id;
                let present = contains_token_id(&acc, &tid);
                if !present {
                    acc.push(tid);
                    proof {
                        assert(token_id_views(acc@) =~= acc_now.push(tid@));
                    }
                }
                proof {
                    assert(token_id_views(acc@) == dedup_push(acc_now, o@.tokens[j as int].token_id));
                    assert(o@.tokens.take(j as int).push(o@.tokens[j as int]) =~= o@.tokens.take(
                        j as int + 1,
                    ));
                    lemma_collect_token_ids_push(
                        acc_before_output,
                        o@.tokens.take(j as int),
                        o@.tokens[j as int],
                    );
                }
                j += 1;
            }
            proof {
                assert(o@.tokens.take(m as int) =~= o@.tokens);
                assert(outs.take(i as int).push(outs[i as int]) =~= outs.take(i as int + 1));
                lemma_collect_outputs_push(Seq::empty(), outs.take(i as int), outs[i as int]);
            }
            i += 1;
        }
        proof {
            assert(output_views(self.output_candidates@).take(n as int) =~= output_views(
                self.output_candidates@,
            ));
        }
        acc
    }
}

} // verus!
