//! Transaction values and their wire serialization: unspent outputs,
//! unsigned and signed transactions, and the byte forms that transaction
//! ids and fee sizes are computed from.
use vstd::prelude::*;

use crate::address::{script_pubkey, script_pubkey_of, AddressKind, AddressModel, BitcoinAddress};
use crate::hashes::{double_sha256, dsha256_of};

verus! {

/// The sequence number that disables relative timelocks.
pub const SEQUENCE_FINAL: u32 = 0xffff_ffff;

/// An unspent output as supplied by the chain-state snapshot: the funding
/// transaction id, the output index in it, and the value in satoshi.
#[derive(Clone, Debug)]
pub struct UnspentOutput {
    pub txid: Vec<u8>,
    pub vout: u32,
    pub value: u64,
}

/// Model of an unspent output.
#[verifier::ext_equal]
pub struct UtxoModel {
    pub txid: Seq<u8>,
    pub vout: u32,
    pub value: u64,
}

impl View for UnspentOutput {
    type V = UtxoModel;

    open spec fn view(&self) -> UtxoModel {
        UtxoModel { txid: self.txid@, vout: self.vout, value: self.value }
    }
}

/// An input of a not-yet-signed transaction: the previous-output
/// reference, the value carried forward from the unspent output, and the
/// sequence number.
#[derive(Clone, Debug)]
pub struct UnsignedInput {
    pub txid: Vec<u8>,
    pub vout: u32,
    pub value: u64,
    pub sequence: u32,
}

/// Model of an unsigned input.
#[verifier::ext_equal]
pub struct InputModel {
    pub txid: Seq<u8>,
    pub vout: u32,
    pub value: u64,
    pub sequence: u32,
}

impl View for UnsignedInput {
    type V = InputModel;

    open spec fn view(&self) -> InputModel {
        InputModel { txid: self.txid@, vout: self.vout, value: self.value, sequence: self.sequence }
    }
}

/// An output of a transaction under construction: a destination address
/// and a value in satoshi.
#[derive(Clone, Debug)]
pub struct UnsignedOutput {
    pub address: BitcoinAddress,
    pub value: u64,
}

/// Model of an output.
#[verifier::ext_equal]
pub struct OutputModel {
    pub address: AddressModel,
    pub value: u64,
}

impl View for UnsignedOutput {
    type V = OutputModel;

    open spec fn view(&self) -> OutputModel {
        OutputModel { address: self.address@, value: self.value }
    }
}

/// A transaction before signing: inputs, outputs, lock time.
#[derive(Clone, Debug)]
pub struct UnsignedTransaction {
    pub inputs: Vec<UnsignedInput>,
    pub outputs: Vec<UnsignedOutput>,
    pub lock_time: u32,
}

/// Model of an unsigned transaction.
#[verifier::ext_equal]
pub struct TxModel {
    pub inputs: Seq<InputModel>,
    pub outputs: Seq<OutputModel>,
    pub lock_time: u32,
}

impl View for UnsignedTransaction {
    type V = TxModel;

    open spec fn view(&self) -> TxModel {
        TxModel {
            inputs: self.inputs@.map_values(|i: UnsignedInput| i@),
            outputs: self.outputs@.map_values(|o: UnsignedOutput| o@),
            lock_time: self.lock_time,
        }
    }
}

/// An input together with the data that satisfies its locking script: the
/// encoded signature (sighash-type byte included) and the public key.
#[derive(Clone, Debug)]
pub struct SignedInput {
    pub txid: Vec<u8>,
    pub vout: u32,
    pub sequence: u32,
    pub signature: Vec<u8>,
    pub pubkey: Vec<u8>,
}

/// Model of a signed input.
#[verifier::ext_equal]
pub struct SignedInputModel {
    pub txid: Seq<u8>,
    pub vout: u32,
    pub sequence: u32,
    pub signature: Seq<u8>,
    pub pubkey: Seq<u8>,
}

impl View for SignedInput {
    type V = SignedInputModel;

    open spec fn view(&self) -> SignedInputModel {
        SignedInputModel {
            txid: self.txid@,
            vout: self.vout,
            sequence: self.sequence,
            signature: self.signature@,
            pubkey: self.pubkey@,
        }
    }
}

/// A fully signed transaction. The kind of the spent inputs decides
/// whether the unlocking data is serialized as script-sigs (legacy) or as
/// a witness section (segwit).
#[derive(Clone, Debug)]
pub struct SignedTransaction {
    pub kind: AddressKind,
    pub inputs: Vec<SignedInput>,
    pub outputs: Vec<UnsignedOutput>,
    pub lock_time: u32,
}

/// Model of a signed transaction.
#[verifier::ext_equal]
pub struct SignedTxModel {
    pub kind: AddressKind,
    pub inputs: Seq<SignedInputModel>,
    pub outputs: Seq<OutputModel>,
    pub lock_time: u32,
}

impl View for SignedTransaction {
    type V = SignedTxModel;

    open spec fn view(&self) -> SignedTxModel {
        SignedTxModel {
            kind: self.kind,
            inputs: self.inputs@.map_values(|i: SignedInput| i@),
            outputs: self.outputs@.map_values(|o: UnsignedOutput| o@),
            lock_time: self.lock_time,
        }
    }
}

impl SignedTxModel {
    /// Unlocking data small enough for single-byte pushes: the encoded
    /// signature and the public key of every input are at most 75 bytes.
    pub open spec fn wf(self) -> bool {
        forall|i: int|
            0 <= i < self.inputs.len() ==> (#[trigger] self.inputs[i]).signature.len() <= 75
                && self.inputs[i].pubkey.len() <= 75
    }
}

/// The serialized transaction version: all transactions built here use
/// version 1.
pub const TX_VERSION: u32 = 1;

// --- little-endian integer serialization ---

/// The two bytes of `x`, least significant first.
pub open spec fn ser_u16_le(x: u16) -> Seq<u8> {
    seq![(x & 0xff) as u8, ((x >> 8) & 0xff) as u8]
}

/// The four bytes of `x`, least significant first.
pub open spec fn ser_u32_le(x: u32) -> Seq<u8> {
    seq![(x & 0xff) as u8, ((x >> 8) & 0xff) as u8, ((x >> 16) & 0xff) as u8, ((x >> 24)
        & 0xff) as u8]
}

/// The eight bytes of `x`, least significant first.
pub open spec fn ser_u64_le(x: u64) -> Seq<u8> {
    seq![
        (x & 0xff) as u8,
        ((x >> 8) & 0xff) as u8,
        ((x >> 16) & 0xff) as u8,
        ((x >> 24) & 0xff) as u8,
        ((x >> 32) & 0xff) as u8,
        ((x >> 40) & 0xff) as u8,
        ((x >> 48) & 0xff) as u8,
        ((x >> 56) & 0xff) as u8,
    ]
}

/// Bitcoin's variable-length count prefix.
pub open spec fn ser_compact_size(n: int) -> Seq<u8> {
    if n < 0xfd {
        seq![n as u8]
    } else if n <= 0xffff {
        seq![0xfdu8] + ser_u16_le(n as u16)
    } else if n <= 0xffff_ffff {
        seq![0xfeu8] + ser_u32_le(n as u32)
    } else {
        seq![0xffu8] + ser_u64_le(n as u64)
    }
}

/// Appends the two little-endian bytes of `x`.
pub fn push_u16_le(out: &mut Vec<u8>, x: u16)
    ensures
        final(out)@ == old(out)@ + ser_u16_le(x),
{
    out.push((x & 0xff) as u8);
    out.push(((x >> 8) & 0xff) as u8);
    proof {
        assert(out@ =~= old(out)@ + ser_u16_le(x));
    }
}

/// Appends the four little-endian bytes of `x`.
pub fn push_u32_le(out: &mut Vec<u8>, x: u32)
    ensures
        final(out)@ == old(out)@ + ser_u32_le(x),
{
    out.push((x & 0xff) as u8);
    out.push(((x >> 8) & 0xff) as u8);
    out.push(((x >> 16) & 0xff) as u8);
    out.push(((x >> 24) & 0xff) as u8);
    proof {
        assert(out@ =~= old(out)@ + ser_u32_le(x));
    }
}

/// Appends the eight little-endian bytes of `x`.
pub fn push_u64_le(out: &mut Vec<u8>, x: u64)
    ensures
        final(out)@ == old(out)@ + ser_u64_le(x),
{
    out.push((x & 0xff) as u8);
    out.push(((x >> 8) & 0xff) as u8);
    out.push(((x >> 16) & 0xff) as u8);
    out.push(((x >> 24) & 0xff) as u8);
    out.push(((x >> 32) & 0xff) as u8);
    out.push(((x >> 40) & 0xff) as u8);
    out.push(((x >> 48) & 0xff) as u8);
    out.push(((x >> 56) & 0xff) as u8);
    proof {
        assert(out@ =~= old(out)@ + ser_u64_le(x));
    }
}

/// Appends the variable-length count prefix for `n`.
pub fn push_compact_size(out: &mut Vec<u8>, n: usize)
    ensures
        final(out)@ == old(out)@ + ser_compact_size(n as int),
{
    if n < 0xfd {
        out.push(n as u8);
        proof {
            assert(out@ =~= old(out)@ + ser_compact_size(n as int));
        }
    } else if n <= 0xffff {
        out.push(0xfd);
        push_u16_le(out, n as u16);
        proof {
            assert(out@ =~= old(out)@ + ser_compact_size(n as int));
        }
    } else if n <= 0xffff_ffff {
        out.push(0xfe);
        push_u32_le(out, n as u32);
        proof {
            assert(out@ =~= old(out)@ + ser_compact_size(n as int));
        }
    } else {
        out.push(0xff);
        push_u64_le(out, n as u64);
        proof {
            assert(out@ =~= old(out)@ + ser_compact_size(n as int));
        }
    }
}

// --- serialization of transaction pieces ---

/// A minimal data push of `d` in a script; valid for `d` up to 75 bytes.
pub open spec fn push_slice_of(d: Seq<u8>) -> Seq<u8> {
    seq![d.len() as u8] + d
}

/// The unlocking script of a legacy signed input: a push of the encoded
/// signature, then a push of the public key.
pub open spec fn script_sig_of(i: SignedInputModel) -> Seq<u8> {
    push_slice_of(i.signature) + push_slice_of(i.pubkey)
}

/// A previous-output reference: the 32-byte transaction id, then the
/// output index.
pub open spec fn ser_outpoint(txid: Seq<u8>, vout: u32) -> Seq<u8> {
    txid + ser_u32_le(vout)
}

/// One output: value, then the length-prefixed locking script.
pub open spec fn ser_output(o: OutputModel) -> Seq<u8> {
    ser_u64_le(o.value) + ser_compact_size(script_pubkey_of(o.address).len() as int)
        + script_pubkey_of(o.address)
}

/// All outputs, in order.
pub open spec fn ser_outputs(outs: Seq<OutputModel>) -> Seq<u8>
    decreases outs.len(),
{
    if outs.len() == 0 {
        Seq::empty()
    } else {
        ser_outputs(outs.drop_last()) + ser_output(outs.last())
    }
}

/// One legacy signed input: outpoint, length-prefixed unlocking script,
/// sequence.
pub open spec fn ser_signed_input_legacy(i: SignedInputModel) -> Seq<u8> {
    ser_outpoint(i.txid, i.vout) + ser_compact_size(script_sig_of(i).len() as int) + script_sig_of(
        i,
    ) + ser_u32_le(i.sequence)
}

/// All legacy signed inputs, in order.
pub open spec fn ser_signed_inputs_legacy(ins: Seq<SignedInputModel>) -> Seq<u8>
    decreases ins.len(),
{
    if ins.len() == 0 {
        Seq::empty()
    } else {
        ser_signed_inputs_legacy(ins.drop_last()) + ser_signed_input_legacy(ins.last())
    }
}

/// One segwit signed input in the base serialization: outpoint, empty
/// script, sequence.
pub open spec fn ser_signed_input_segwit(i: SignedInputModel) -> Seq<u8> {
    ser_outpoint(i.txid, i.vout) + seq![0u8] + ser_u32_le(i.sequence)
}

/// All segwit signed inputs in the base serialization, in order.
pub open spec fn ser_signed_inputs_segwit(ins: Seq<SignedInputModel>) -> Seq<u8>
    decreases ins.len(),
{
    if ins.len() == 0 {
        Seq::empty()
    } else {
        ser_signed_inputs_segwit(ins.drop_last()) + ser_signed_input_segwit(ins.last())
    }
}

/// The witness stack of one segwit input: two elements, the encoded
/// signature and the public key, each length-prefixed.
pub open spec fn ser_witness(i: SignedInputModel) -> Seq<u8> {
    seq![2u8] + ser_compact_size(i.signature.len() as int) + i.signature + ser_compact_size(
        i.pubkey.len() as int,
    ) + i.pubkey
}

/// The witness stacks of all inputs, in order.
pub open spec fn ser_witnesses(ins: Seq<SignedInputModel>) -> Seq<u8>
    decreases ins.len(),
{
    if ins.len() == 0 {
        Seq::empty()
    } else {
        ser_witnesses(ins.drop_last()) + ser_witness(ins.last())
    }
}

/// The legacy wire form of a signed transaction.
pub open spec fn ser_signed_tx_legacy(tx: SignedTxModel) -> Seq<u8> {
    ser_u32_le(TX_VERSION) + ser_compact_size(tx.inputs.len() as int) + ser_signed_inputs_legacy(
        tx.inputs,
    ) + ser_compact_size(tx.outputs.len() as int) + ser_outputs(tx.outputs) + ser_u32_le(
        tx.lock_time,
    )
}

/// The segwit wire form of a signed transaction: marker and flag bytes,
/// base inputs, outputs, witness section, lock time.
pub open spec fn ser_signed_tx_segwit(tx: SignedTxModel) -> Seq<u8> {
    ser_u32_le(TX_VERSION) + seq![0u8, 1u8] + ser_compact_size(tx.inputs.len() as int)
        + ser_signed_inputs_segwit(tx.inputs) + ser_compact_size(tx.outputs.len() as int)
        + ser_outputs(tx.outputs) + ser_witnesses(tx.inputs) + ser_u32_le(tx.lock_time)
}

/// The wire form of a signed transaction, as decided by its input kind.
pub open spec fn ser_signed_tx(tx: SignedTxModel) -> Seq<u8> {
    match tx.kind {
        AddressKind::P2pkh => ser_signed_tx_legacy(tx),
        AddressKind::P2wpkh => ser_signed_tx_segwit(tx),
    }
}

/// The base (witness-stripped) segwit form, whose double-SHA-256 is the
/// transaction id of a segwit transaction.
pub open spec fn ser_signed_tx_segwit_base(tx: SignedTxModel) -> Seq<u8> {
    ser_u32_le(TX_VERSION) + ser_compact_size(tx.inputs.len() as int) + ser_signed_inputs_segwit(
        tx.inputs,
    ) + ser_compact_size(tx.outputs.len() as int) + ser_outputs(tx.outputs) + ser_u32_le(
        tx.lock_time,
    )
}

/// Appends one output.
fn push_output(out: &mut Vec<u8>, o: &UnsignedOutput)
    ensures
        final(out)@ == old(out)@ + ser_output(o@),
{
    push_u64_le(out, o.value);
    let script = script_pubkey(&o.address);
    push_compact_size(out, script.len());
    out.extend_from_slice(script.as_slice());
    proof {
        assert(out@ =~= old(out)@ + ser_output(o@));
    }
}

/// Appends all outputs in order.
pub fn push_outputs(out: &mut Vec<u8>, outs: &Vec<UnsignedOutput>)
    ensures
        final(out)@ == old(out)@ + ser_outputs(
            outs@.map_values(|o: UnsignedOutput| o@),
        ),
{
    let ghost model = outs@.map_values(|o: UnsignedOutput| o@);
    let mut i: usize = 0;
    while i < outs.len()
        invariant
            i <= outs@.len(),
            model == outs@.map_values(|o: UnsignedOutput| o@),
            out@ == old(out)@ + ser_outputs(model.take(i as int)),
        decreases outs@.len() - i,
    {
        push_output(out, &outs[i]);
        proof {
            assert(model.take(i + 1).drop_last() =~= model.take(i as int));
            assert(model.take(i + 1).last() == outs@[i as int]@);
        }
        i = i + 1;
    }
    proof {
        assert(model.take(outs@.len() as int) =~= model);
    }
}

impl SignedTransaction {
    /// Serializes the transaction to its wire form: the legacy form for
    /// legacy inputs, the marker-and-flag witness form for segwit inputs.
    pub fn serialize(&self) -> (r: Vec<u8>)
        requires
            self@.wf(),
        ensures
            r@ == ser_signed_tx(self@),
    {
        match self.kind {
            AddressKind::P2pkh => self.serialize_legacy(),
            AddressKind::P2wpkh => self.serialize_segwit(),
        }
    }

    /// The legacy wire form.
    #[verifier::loop_isolation(false)]
    #[verifier::rlimit(40)]
    fn serialize_legacy(&self) -> (r: Vec<u8>)
        requires
            self@.wf(),
        ensures
            r@ == ser_signed_tx_legacy(self@),
    {
        let ghost model = self.inputs@.map_values(|i: SignedInput| i@);
        let mut out: Vec<u8> = Vec::new();
        push_u32_le(&mut out, TX_VERSION);
        push_compact_size(&mut out, self.inputs.len());
        let ghost prefix = out@;
        let mut i: usize = 0;
        while i < self.inputs.len()
            invariant
                i <= self.inputs@.len(),
                model == self.inputs@.map_values(|i: SignedInput| i@),
                out@ == prefix + ser_signed_inputs_legacy(model.take(i as int)),
            decreases self.inputs@.len() - i,
        {
            let input = &self.inputs[i];
            proof {
                assert(self@.inputs[i as int] == input@);
                assert(input@.signature.len() <= 75 && input@.pubkey.len() <= 75);
            }
            out.extend_from_slice(input.txid.as_slice());
            push_u32_le(&mut out, input.vout);
            let sig_len: usize = input.signature.len();
            let pk_len: usize = input.pubkey.len();
            push_compact_size(&mut out, sig_len + pk_len + 2);
            out.push(sig_len as u8);
            out.extend_from_slice(input.signature.as_slice());
            out.push(pk_len as u8);
            out.extend_from_slice(input.pubkey.as_slice());
            push_u32_le(&mut out, input.sequence);
            proof {
                assert(script_sig_of(input@).len() == sig_len + pk_len + 2);
                assert(model.take(i + 1).drop_last() =~= model.take(i as int));
                assert(model.take(i + 1).last() == input@);
                assert(out@ =~= prefix + ser_signed_inputs_legacy(model.take(i + 1))) by {
                    assert(out@ =~= prefix + ser_signed_inputs_legacy(model.take(i as int))
                        + ser_signed_input_legacy(input@));
                }
            }
            i = i + 1;
        }
        proof {
            assert(model.take(self.inputs@.len() as int) =~= model);
        }
        push_compact_size(&mut out, self.outputs.len());
        push_outputs(&mut out, &self.outputs);
        push_u32_le(&mut out, self.lock_time);
        proof {
            assert(out@ =~= ser_signed_tx_legacy(self@));
        }
        out
    }

    /// The base segwit serialization (no witness data), shared by the
    /// witness form and the transaction id.
    #[verifier::loop_isolation(false)]
    #[verifier::rlimit(40)]
    fn serialize_segwit_base_parts(&self, out: &mut Vec<u8>)
        requires
            self@.wf(),
        ensures
            final(out)@ == old(out)@ + ser_compact_size(self@.inputs.len() as int)
                + ser_signed_inputs_segwit(self@.inputs) + ser_compact_size(
                self@.outputs.len() as int,
            ) + ser_outputs(self@.outputs),
    {
        let ghost model = self.inputs@.map_values(|i: SignedInput| i@);
        push_compact_size(out, self.inputs.len());
        let ghost prefix = out@;
        let mut i: usize = 0;
        while i < self.inputs.len()
            invariant
                i <= self.inputs@.len(),
                model == self.inputs@.map_values(|i: SignedInput| i@),
                out@ == prefix + ser_signed_inputs_segwit(model.take(i as int)),
            decreases self.inputs@.len() - i,
        {
            let input = &self.inputs[i];
            out.extend_from_slice(input.txid.as_slice());
            push_u32_le(out, input.vout);
            out.push(0u8);
            push_u32_le(out, input.sequence);
            proof {
                assert(model.take(i + 1).drop_last() =~= model.take(i as int));
                assert(model.take(i + 1).last() == input@);
                assert(out@ =~= prefix + ser_signed_inputs_segwit(model.take(i + 1))) by {
                    assert(out@ =~= prefix + ser_signed_inputs_segwit(model.take(i as int))
                        + ser_signed_input_segwit(input@));
                }
            }
            i = i + 1;
        }
        proof {
            assert(model.take(self.inputs@.len() as int) =~= model);
        }
        push_compact_size(out, self.outputs.len());
        push_outputs(out, &self.outputs);
        proof {
            assert(out@ =~= old(out)@ + ser_compact_size(self@.inputs.len() as int)
                + ser_signed_inputs_segwit(self@.inputs) + ser_compact_size(
                self@.outputs.len() as int,
            ) + ser_outputs(self@.outputs));
        }
    }

    /// The marker-and-flag witness wire form.
    #[verifier::loop_isolation(false)]
    #[verifier::rlimit(40)]
    fn serialize_segwit(&self) -> (r: Vec<u8>)
        requires
            self@.wf(),
        ensures
            r@ == ser_signed_tx_segwit(self@),
    {
        let ghost model = self.inputs@.map_values(|i: SignedInput| i@);
        let mut out: Vec<u8> = Vec::new();
        push_u32_le(&mut out, TX_VERSION);
        out.push(0u8);
        out.push(1u8);
        self.serialize_segwit_base_parts(&mut out);
        let ghost prefix = out@;
        let mut i: usize = 0;
        while i < self.inputs.len()
            invariant
                i <= self.inputs@.len(),
                model == self.inputs@.map_values(|i: SignedInput| i@),
                out@ == prefix + ser_witnesses(model.take(i as int)),
            decreases self.inputs@.len() - i,
        {
            let input = &self.inputs[i];
            out.push(2u8);
            push_compact_size(&mut out, input.signature.len());
            out.extend_from_slice(input.signature.as_slice());
            push_compact_size(&mut out, input.pubkey.len());
            out.extend_from_slice(input.pubkey.as_slice());
            proof {
                assert(model.take(i + 1).drop_last() =~= model.take(i as int));
                assert(model.take(i + 1).last() == input@);
                assert(out@ =~= prefix + ser_witnesses(model.take(i + 1))) by {
                    assert(out@ =~= prefix + ser_witnesses(model.take(i as int)) + ser_witness(
                        input@,
                    ));
                }
            }
            i = i + 1;
        }
        proof {
            assert(model.take(self.inputs@.len() as int) =~= model);
        }
        push_u32_le(&mut out, self.lock_time);
        proof {
            assert(out@ =~= ser_signed_tx_segwit(self@));
        }
        out
    }

    /// The transaction id: the double-SHA-256 of the witness-stripped
    /// serialization.
    pub fn txid(&self) -> (r: Vec<u8>)
        requires
            self@.wf(),
        ensures
            r@ == dsha256_of(
                match self@.kind {
                    AddressKind::P2pkh => ser_signed_tx_legacy(self@),
                    AddressKind::P2wpkh => ser_signed_tx_segwit_base(self@),
                },
            ),
            r@.len() == 32,
    {
        match self.kind {
            AddressKind::P2pkh => {
                let ser = self.serialize_legacy();
                double_sha256(&ser)
            },
            AddressKind::P2wpkh => {
                let mut out: Vec<u8> = Vec::new();
                push_u32_le(&mut out, TX_VERSION);
                self.serialize_segwit_base_parts(&mut out);
                push_u32_le(&mut out, self.lock_time);
                proof {
                    assert(out@ =~= ser_signed_tx_segwit_base(self@));
                }
                double_sha256(&out)
            },
        }
    }

    /// The witness transaction id: the double-SHA-256 of the full wire
    /// form.
    pub fn wtxid(&self) -> (r: Vec<u8>)
        requires
            self@.wf(),
        ensures
            r@ == dsha256_of(ser_signed_tx(self@)),
            r@.len() == 32,
    {
        let ser = self.serialize();
        double_sha256(&ser)
    }
}

/// The models of a sequence of outputs.
pub open spec fn outputs_view(outs: Seq<UnsignedOutput>) -> Seq<OutputModel> {
    outs.map_values(|o: UnsignedOutput| o@)
}

// --- value sums ---

/// The total value of a sequence of unspent outputs.
pub open spec fn sum_utxo_values(utxos: Seq<UtxoModel>) -> int
    decreases utxos.len(),
{
    if utxos.len() == 0 {
        0
    } else {
        sum_utxo_values(utxos.drop_last()) + utxos.last().value
    }
}

/// The total value carried by a sequence of inputs.
pub open spec fn sum_input_values(ins: Seq<InputModel>) -> int
    decreases ins.len(),
{
    if ins.len() == 0 {
        0
    } else {
        sum_input_values(ins.drop_last()) + ins.last().value
    }
}

/// The total value paid out by a sequence of outputs.
pub open spec fn sum_output_values(outs: Seq<OutputModel>) -> int
    decreases outs.len(),
{
    if outs.len() == 0 {
        0
    } else {
        sum_output_values(outs.drop_last()) + outs.last().value
    }
}

} // verus!
