//! The signature-hash engine: the exact digest each input commits to.
//! Legacy inputs hash a modified serialization of the whole transaction;
//! segwit inputs use the BIP143 digest with midstates over prevouts,
//! sequences and outputs cached once per transaction.
use vstd::prelude::*;

use crate::address::AddressModel;
use crate::hashes::{double_sha256, dsha256_of};
use crate::tx::{
    push_compact_size, push_u32_le, push_u64_le, ser_compact_size, ser_outpoint, ser_outputs,
    ser_u32_le, ser_u64_le, InputModel, TxModel, UnsignedInput, UnsignedTransaction, TX_VERSION,
};

verus! {

// --- legacy sighash ---

/// One input as it appears in the signable view: the input being signed
/// carries the spent output's script, every other input an empty script.
pub open spec fn ser_sighash_input(i: InputModel, signed: bool, script_code: Seq<u8>) -> Seq<u8> {
    ser_outpoint(i.txid, i.vout) + (if signed {
        ser_compact_size(script_code.len() as int) + script_code
    } else {
        seq![0u8]
    }) + ser_u32_le(i.sequence)
}

/// All inputs of the signable view, in order; `index` marks the input
/// being signed.
pub open spec fn ser_sighash_inputs(ins: Seq<InputModel>, index: int, script_code: Seq<u8>)
    -> Seq<u8>
    decreases ins.len(),
{
    if ins.len() == 0 {
        Seq::empty()
    } else {
        ser_sighash_inputs(ins.drop_last(), index, script_code) + ser_sighash_input(
            ins.last(),
            index == ins.len() - 1,
            script_code,
        )
    }
}

/// The byte string a legacy input signs: the whole transaction with the
/// script substitution applied, followed by the four-byte sighash type.
pub open spec fn legacy_sighash_preimage(
    tx: TxModel,
    index: int,
    script_code: Seq<u8>,
    sighash_type: u32,
) -> Seq<u8> {
    ser_u32_le(TX_VERSION) + ser_compact_size(tx.inputs.len() as int) + ser_sighash_inputs(
        tx.inputs,
        index,
        script_code,
    ) + ser_compact_size(tx.outputs.len() as int) + ser_outputs(tx.outputs) + ser_u32_le(
        tx.lock_time,
    ) + ser_u32_le(sighash_type)
}

/// Computes the digest a legacy input must sign: the double-SHA-256 of
/// the script-substituted serialization. Recomputed per input, because
/// each input's signable view differs.
#[verifier::loop_isolation(false)]
#[verifier::rlimit(40)]
pub fn signature_hash(
    tx: &UnsignedTransaction,
    index: usize,
    script_code: &Vec<u8>,
    sighash_type: u32,
) -> (r: Vec<u8>)
    requires
        index < tx@.inputs.len(),
    ensures
        r@ == dsha256_of(legacy_sighash_preimage(tx@, index as int, script_code@, sighash_type)),
        r@.len() == 32,
{
    let ghost model = tx@.inputs;
    let mut out: Vec<u8> = Vec::new();
    push_u32_le(&mut out, TX_VERSION);
    push_compact_size(&mut out, tx.inputs.len());
    let ghost prefix = out@;
    let mut i: usize = 0;
    while i < tx.inputs.len()
        invariant
            i <= tx.inputs@.len(),
            out@ == prefix + ser_sighash_inputs(model.take(i as int), index as int, script_code@),
        decreases tx.inputs@.len() - i,
    {
        let input = &tx.inputs[i];
        out.extend_from_slice(input.txid.as_slice());
        push_u32_le(&mut out, input.vout);
        if i == index {
            push_compact_size(&mut out, script_code.len());
            out.extend_from_slice(script_code.as_slice());
        } else {
            out.push(0u8);
        }
        push_u32_le(&mut out, input.sequence);
        proof {
            assert(model.take(i + 1).drop_last() =~= model.take(i as int));
            assert(model.take(i + 1).last() == input@);
            assert(out@ =~= prefix + ser_sighash_inputs(
                model.take(i + 1),
                index as int,
                script_code@,
            )) by {
                assert(out@ =~= prefix + ser_sighash_inputs(
                    model.take(i as int),
                    index as int,
                    script_code@,
                ) + ser_sighash_input(input@, i == index, script_code@));
            }
        }
        i = i + 1;
    }
    proof {
        assert(model.take(tx.inputs@.len() as int) =~= model);
    }
    push_compact_size(&mut out, tx.outputs.len());
    crate::tx::push_outputs(&mut out, &tx.outputs);
    push_u32_le(&mut out, tx.lock_time);
    push_u32_le(&mut out, sighash_type);
    proof {
        assert(out@ =~= legacy_sighash_preimage(
            tx@,
            index as int,
            script_code@,
            sighash_type,
        ));
    }
    double_sha256(&out)
}

// --- BIP143 (segwit) sighash ---

/// All previous-output references, concatenated.
pub open spec fn ser_prevouts(ins: Seq<InputModel>) -> Seq<u8>
    decreases ins.len(),
{
    if ins.len() == 0 {
        Seq::empty()
    } else {
        ser_prevouts(ins.drop_last()) + ser_outpoint(ins.last().txid, ins.last().vout)
    }
}

/// All sequence numbers, concatenated.
pub open spec fn ser_sequences(ins: Seq<InputModel>) -> Seq<u8>
    decreases ins.len(),
{
    if ins.len() == 0 {
        Seq::empty()
    } else {
        ser_sequences(ins.drop_last()) + ser_u32_le(ins.last().sequence)
    }
}

/// The synthetic P2PKH-equivalent script a segwit input commits to,
/// length prefix included.
pub open spec fn bip143_script_code(pkhash: Seq<u8>) -> Seq<u8> {
    let script = crate::address::script_pubkey_of(AddressModel::P2pkh { pkhash });
    ser_compact_size(script.len() as int) + script
}

/// The byte string a segwit input signs under BIP143.
pub open spec fn bip143_preimage(
    tx: TxModel,
    input: InputModel,
    pkhash: Seq<u8>,
    sighash_type: u32,
) -> Seq<u8> {
    ser_u32_le(TX_VERSION) + dsha256_of(ser_prevouts(tx.inputs)) + dsha256_of(
        ser_sequences(tx.inputs),
    ) + ser_outpoint(input.txid, input.vout) + bip143_script_code(pkhash) + ser_u64_le(input.value)
        + ser_u32_le(input.sequence) + dsha256_of(ser_outputs(tx.outputs)) + ser_u32_le(
        tx.lock_time,
    ) + ser_u32_le(sighash_type)
}

/// The per-transaction midstates of the BIP143 digest: the double-SHA-256
/// of all prevouts, of all sequence numbers, and of all outputs, computed
/// once and reused for every input.
pub struct TxSigHasher {
    pub hash_prevouts: Vec<u8>,
    pub hash_sequence: Vec<u8>,
    pub hash_outputs: Vec<u8>,
    pub lock_time: u32,
    /// The transaction the midstates were computed over.
    pub tx: Ghost<TxModel>,
}

impl TxSigHasher {
    /// The midstates match the recorded transaction.
    pub open spec fn wf(self) -> bool {
        &&& self.hash_prevouts@ == dsha256_of(ser_prevouts(self.tx@.inputs))
        &&& self.hash_sequence@ == dsha256_of(ser_sequences(self.tx@.inputs))
        &&& self.hash_outputs@ == dsha256_of(ser_outputs(self.tx@.outputs))
        &&& self.lock_time == self.tx@.lock_time
        &&& self.hash_prevouts@.len() == 32
        &&& self.hash_sequence@.len() == 32
        &&& self.hash_outputs@.len() == 32
    }

    /// Precomputes the three midstates for `tx`. This is the step that
    /// turns quadratic all-pairs hashing into linear work.
    #[verifier::loop_isolation(false)]
    pub fn new(tx: &UnsignedTransaction) -> (r: TxSigHasher)
        ensures
            r.wf(),
            r.tx@ == tx@,
    {
        let ghost model = tx@.inputs;
        let mut prevouts: Vec<u8> = Vec::new();
        let mut sequences: Vec<u8> = Vec::new();
        let mut i: usize = 0;
        while i < tx.inputs.len()
            invariant
                i <= tx.inputs@.len(),
                prevouts@ == ser_prevouts(model.take(i as int)),
                sequences@ == ser_sequences(model.take(i as int)),
            decreases tx.inputs@.len() - i,
        {
            let input = &tx.inputs[i];
            prevouts.extend_from_slice(input.txid.as_slice());
            push_u32_le(&mut prevouts, input.vout);
            push_u32_le(&mut sequences, input.sequence);
            proof {
                assert(model.take(i + 1).drop_last() =~= model.take(i as int));
                assert(model.take(i + 1).last() == input@);
                assert(prevouts@ =~= ser_prevouts(model.take(i + 1)));
                assert(sequences@ =~= ser_sequences(model.take(i + 1)));
            }
            i = i + 1;
        }
        proof {
            assert(model.take(tx.inputs@.len() as int) =~= model);
        }
        let mut outputs: Vec<u8> = Vec::new();
        crate::tx::push_outputs(&mut outputs, &tx.outputs);
        let hash_prevouts = double_sha256(&prevouts);
        let hash_sequence = double_sha256(&sequences);
        let hash_outputs = double_sha256(&outputs);
        TxSigHasher {
            hash_prevouts,
            hash_sequence,
            hash_outputs,
            lock_time: tx.lock_time,
            tx: Ghost(tx@),
        }
    }

    /// Computes the BIP143 digest for one input, committing to the
    /// P2PKH-equivalent script over the given public-key hash.
    pub fn sighash(&self, input: &UnsignedInput, pkhash: &Vec<u8>, sighash_type: u32) -> (r: Vec<
        u8,
    >)
        requires
            self.wf(),
        ensures
            r@ == dsha256_of(bip143_preimage(self.tx@, input@, pkhash@, sighash_type)),
            r@.len() == 32,
    {
        let mut out: Vec<u8> = Vec::new();
        push_u32_le(&mut out, TX_VERSION);
        out.extend_from_slice(self.hash_prevouts.as_slice());
        out.extend_from_slice(self.hash_sequence.as_slice());
        out.extend_from_slice(input.txid.as_slice());
        push_u32_le(&mut out, input.vout);
        let script = crate::address::script_pubkey(
            &crate::address::BitcoinAddress::P2pkh { pkhash: pkhash.clone() },
        );
        push_compact_size(&mut out, script.len());
        out.extend_from_slice(script.as_slice());
        push_u64_le(&mut out, input.value);
        push_u32_le(&mut out, input.sequence);
        out.extend_from_slice(self.hash_outputs.as_slice());
        push_u32_le(&mut out, self.lock_time);
        push_u32_le(&mut out, sighash_type);
        proof {
            assert(out@ =~= bip143_preimage(self.tx@, input@, pkhash@, sighash_type));
        }
        double_sha256(&out)
    }
}

// --- sensitivity of the sequence midstate ---

/// The concatenated sequence numbers have four bytes per input, and the
/// bytes of input `m` sit at offset `4 m`.
pub proof fn lemma_ser_sequences_index(ins: Seq<InputModel>, m: int)
    requires
        0 <= m < ins.len(),
    ensures
        ser_sequences(ins).len() == 4 * ins.len(),
        ser_sequences(ins).subrange(4 * m, 4 * m + 4) == ser_u32_le(ins[m].sequence),
    decreases ins.len(),
{
    lemma_ser_sequences_len(ins);
    if m == ins.len() - 1 {
        lemma_ser_sequences_len(ins.drop_last());
        assert(ser_sequences(ins).subrange(4 * m, 4 * m + 4) =~= ser_u32_le(ins.last().sequence));
    } else {
        lemma_ser_sequences_index(ins.drop_last(), m);
        lemma_ser_sequences_len(ins.drop_last());
        assert(ins.drop_last()[m] == ins[m]);
        assert(ser_sequences(ins).subrange(4 * m, 4 * m + 4) =~= ser_sequences(
            ins.drop_last(),
        ).subrange(4 * m, 4 * m + 4));
    }
}

/// The length of the concatenated sequence numbers.
pub proof fn lemma_ser_sequences_len(ins: Seq<InputModel>)
    ensures
        ser_sequences(ins).len() == 4 * ins.len(),
    decreases ins.len(),
{
    if ins.len() > 0 {
        lemma_ser_sequences_len(ins.drop_last());
    }
}

/// Four little-endian bytes determine the number: distinct sequence
/// numbers serialize to distinct bytes.
pub proof fn lemma_ser_u32_le_injective(x: u32, y: u32)
    requires
        x != y,
    ensures
        ser_u32_le(x) != ser_u32_le(y),
{
    assert((x & 0xff) as u8 != (y & 0xff) as u8 || ((x >> 8) & 0xff) as u8 != ((y >> 8)
        & 0xff) as u8 || ((x >> 16) & 0xff) as u8 != ((y >> 16) & 0xff) as u8 || ((x >> 24)
        & 0xff) as u8 != ((y >> 24) & 0xff) as u8) by (bit_vector)
        requires
            x != y,
    ;
    if (x & 0xff) as u8 != (y & 0xff) as u8 {
        assert(ser_u32_le(x)[0] != ser_u32_le(y)[0]);
    } else if ((x >> 8) & 0xff) as u8 != ((y >> 8) & 0xff) as u8 {
        assert(ser_u32_le(x)[1] != ser_u32_le(y)[1]);
    } else if ((x >> 16) & 0xff) as u8 != ((y >> 16) & 0xff) as u8 {
        assert(ser_u32_le(x)[2] != ser_u32_le(y)[2]);
    } else {
        assert(ser_u32_le(x)[3] != ser_u32_le(y)[3]);
    }
}

/// Changing any input's sequence number changes the byte string that the
/// BIP143 sequence midstate is computed over: the digest commits to every
/// input's sequence number.
pub proof fn lemma_sequence_sensitivity(a: Seq<InputModel>, b: Seq<InputModel>, j: int)
    requires
        a.len() == b.len(),
        0 <= j < a.len(),
        a[j].sequence != b[j].sequence,
    ensures
        ser_sequences(a) != ser_sequences(b),
{
    lemma_ser_sequences_index(a, j);
    lemma_ser_sequences_index(b, j);
    lemma_ser_u32_le_injective(a[j].sequence, b[j].sequence);
    if ser_sequences(a) == ser_sequences(b) {
        assert(ser_sequences(a).subrange(4 * j, 4 * j + 4) == ser_sequences(b).subrange(
            4 * j,
            4 * j + 4,
        ));
    }
}

} // verus!
