//! Signing and the fee-convergence driver: assembling signed transactions
//! from oracle-returned raw signatures, probing sizes with a stand-in
//! signer, and iterating the fee until it matches the serialized size.
use vstd::prelude::*;

use crate::address::{script_pubkey, script_pubkey_of, AddressKind, AddressModel, BitcoinAddress};
use crate::builder::{build_transaction_with_fee, build_with_fee_model, utxos_view};
use crate::codec::{sec1_to_compact, sec1_to_compact_of, sec1_to_der, sec1_to_der_of};
use crate::errors::WalletError;
use crate::hashes::{dsha256_of, hash160, hash160_of};
use crate::sighash::{bip143_preimage, legacy_sighash_preimage, signature_hash, TxSigHasher};
use crate::tx::{
    ser_signed_tx, sum_utxo_values, SignedInput, SignedInputModel, SignedTransaction,
    SignedTxModel, TxModel, UnsignedOutput, UnsignedTransaction, UnspentOutput, UtxoModel,
};

verus! {

/// The sighash-type marker appended to every signature: ALL.
pub const SIG_HASH_TYPE: u32 = 1;

/// The rate used when the fee-percentile table is empty, in
/// millisatoshi per byte.
pub const FALLBACK_FEE_RATE: u64 = 2000;

/// The percentile taken from the fee table.
pub const FEE_PERCENTILE_INDEX: usize = 50;

/// The bound on fee-convergence iterations; the serialized size takes only
/// a few discrete values, so convergence is expected well before this.
pub const FEE_ITERATION_CAP: usize = 16;

/// Picks the fee rate: the mid percentile of the supplied table, or the
/// fallback rate when the table is empty.
pub fn fee_per_byte_from_percentiles(fee_percentiles: &Vec<u64>) -> (r: u64)
    requires
        fee_percentiles@.len() == 0 || fee_percentiles@.len() > FEE_PERCENTILE_INDEX,
    ensures
        fee_percentiles@.len() == 0 ==> r == FALLBACK_FEE_RATE,
        fee_percentiles@.len() > 0 ==> r == fee_percentiles@[FEE_PERCENTILE_INDEX as int],
{
    if fee_percentiles.len() == 0 {
        FALLBACK_FEE_RATE
    } else {
        fee_percentiles[FEE_PERCENTILE_INDEX]
    }
}

/// The signature the stand-in signer returns while probing sizes.
pub open spec fn mock_signature() -> Seq<u8> {
    Seq::new(64, |i: int| 0xffu8)
}

/// A stand-in signer that rubber-stamps a fixed-length signature; used
/// when only the size of the signed transaction matters.
pub fn mock_signer() -> (r: Vec<u8>)
    ensures
        r@ == mock_signature(),
{
    let out: Vec<u8> = vec![0xff; 64];
    proof {
        assert(out@ =~= mock_signature());
    }
    out
}

/// The on-wire signature of an input: DER with the sighash byte for
/// legacy, the raw compact form with the sighash byte for segwit.
pub open spec fn encoded_signature_of(sig: Seq<u8>, kind: AddressKind) -> Seq<u8> {
    match kind {
        AddressKind::P2pkh => sec1_to_der_of(sig) + seq![SIG_HASH_TYPE as u8],
        AddressKind::P2wpkh => sec1_to_compact_of(sig, SIG_HASH_TYPE as u8),
    }
}

/// Every encoded signature of a raw 64-byte signature fits a single-byte
/// script push.
pub proof fn lemma_encoded_signature_len(sig: Seq<u8>, kind: AddressKind)
    requires
        sig.len() == 64,
    ensures
        65 <= encoded_signature_of(sig, kind).len() <= 75,
{
    match kind {
        AddressKind::P2pkh => {
            assert(32 <= crate::codec::der_int_of(sig.take(32)).len() <= 33);
            assert(32 <= crate::codec::der_int_of(sig.skip(32)).len() <= 33);
        },
        AddressKind::P2wpkh => {},
    }
}

/// Encodes one raw oracle signature for placement in a script or witness.
pub fn encode_signature(sig: &Vec<u8>, kind: AddressKind) -> (r: Vec<u8>)
    requires
        sig@.len() == 64,
    ensures
        r@ == encoded_signature_of(sig@, kind),
{
    match kind {
        AddressKind::P2pkh => {
            let mut der = sec1_to_der(sig.clone());
            der.push(SIG_HASH_TYPE as u8);
            proof {
                assert(der@ =~= encoded_signature_of(sig@, kind));
            }
            der
        },
        AddressKind::P2wpkh => sec1_to_compact(sig, SIG_HASH_TYPE as u8),
    }
}

/// The byte sequences of a list of signature buffers.
pub open spec fn sigs_view(signatures: Seq<Vec<u8>>) -> Seq<Seq<u8>> {
    signatures.map_values(|s: Vec<u8>| s@)
}

/// Appending a signature buffer appends its byte sequence.
proof fn lemma_sigs_view_push(v: Seq<Vec<u8>>, x: Vec<u8>)
    ensures
        sigs_view(v.push(x)) =~= sigs_view(v).push(x@),
{
}

/// Whether a list of oracle results can sign an `n`-input transaction:
/// one raw 64-byte signature per input.
pub open spec fn sigs_ok(sigs: Seq<Seq<u8>>, n: nat) -> bool {
    sigs.len() == n && forall|i: int| 0 <= i < sigs.len() ==> (#[trigger] sigs[i]).len() == 64
}

/// The signed transaction assembled, by position, from an unsigned
/// transaction and one raw signature per input.
pub open spec fn signed_tx_model(
    tx: TxModel,
    sigs: Seq<Seq<u8>>,
    pubkey: Seq<u8>,
    kind: AddressKind,
) -> SignedTxModel {
    SignedTxModel {
        kind,
        inputs: Seq::new(
            tx.inputs.len(),
            |i: int|
                SignedInputModel {
                    txid: tx.inputs[i].txid,
                    vout: tx.inputs[i].vout,
                    sequence: tx.inputs[i].sequence,
                    signature: encoded_signature_of(sigs[i], kind),
                    pubkey,
                },
        ),
        outputs: tx.outputs,
        lock_time: tx.lock_time,
    }
}

/// Appending an output appends its model.
proof fn lemma_outputs_view_push(v: Seq<UnsignedOutput>, x: UnsignedOutput)
    ensures
        crate::tx::outputs_view(v.push(x)) =~= crate::tx::outputs_view(v).push(x@),
{
}

/// Copies the outputs of a transaction under construction.
fn clone_outputs(outs: &Vec<UnsignedOutput>) -> (r: Vec<UnsignedOutput>)
    ensures
        crate::tx::outputs_view(r@) == crate::tx::outputs_view(outs@),
{
    let mut acc: Vec<UnsignedOutput> = Vec::new();
    let mut i: usize = 0;
    while i < outs.len()
        invariant
            i <= outs@.len(),
            crate::tx::outputs_view(acc@) =~= crate::tx::outputs_view(outs@).take(i as int),
        decreases outs@.len() - i,
    {
        let o = &outs[i];
        let cloned = UnsignedOutput { address: o.address.clone(), value: o.value };
        proof {
            assert(cloned@ =~= outs@[i as int]@);
        }
        let ghost acc0 = acc@;
        acc.push(cloned);
        proof {
            lemma_outputs_view_push(acc0, cloned);
            assert(acc@ == acc0.push(cloned));
            assert(crate::tx::outputs_view(acc@) =~= crate::tx::outputs_view(outs@).take(i + 1));
        }
        i = i + 1;
    }
    proof {
        assert(crate::tx::outputs_view(outs@).take(outs@.len() as int) =~= crate::tx::outputs_view(
            outs@,
        ));
    }
    acc
}

/// Upgrades an unsigned transaction to a signed one: by position, each
/// input takes its encoded signature and the public key. Fails with a
/// signing failure when the oracle returned the wrong number of
/// signatures or one of the wrong length.
#[verifier::loop_isolation(false)]
pub fn sign_transaction(
    tx: &UnsignedTransaction,
    signatures: &Vec<Vec<u8>>,
    own_public_key: &Vec<u8>,
    kind: AddressKind,
) -> (r: Result<SignedTransaction, WalletError>)
    requires
        own_public_key@.len() <= 75,
    ensures
        ({
            let sigs = sigs_view(signatures@);
            match r {
                Ok(st) => sigs_ok(sigs, tx@.inputs.len()) && st@ == signed_tx_model(
                    tx@,
                    sigs,
                    own_public_key@,
                    kind,
                ) && st@.wf(),
                Err(e) => e == WalletError::SigningFailure && !sigs_ok(sigs, tx@.inputs.len()),
            }
        }),
{
    let ghost sigs = sigs_view(signatures@);
    if signatures.len() != tx.inputs.len() {
        proof {
            assert(sigs.len() == signatures@.len());
            assert(tx@.inputs.len() == tx.inputs@.len());
            assert(!sigs_ok(sigs, tx@.inputs.len()));
        }
        return Err(WalletError::SigningFailure);
    }
    let ghost target = signed_tx_model(tx@, sigs, own_public_key@, kind);
    let mut inputs: Vec<SignedInput> = Vec::new();
    let mut i: usize = 0;
    while i < tx.inputs.len()
        invariant
            i <= tx.inputs@.len(),
            inputs@.map_values(|x: SignedInput| x@) =~= target.inputs.take(i as int),
            forall|m: int| 0 <= m < i ==> (#[trigger] sigs[m]).len() == 64,
        decreases tx.inputs@.len() - i,
    {
        let sig = &signatures[i];
        if sig.len() != 64 {
            proof {
                assert(sigs[i as int] == sig@);
                assert(!sigs_ok(sigs, tx@.inputs.len()));
            }
            return Err(WalletError::SigningFailure);
        }
        let input = &tx.inputs[i];
        let encoded = encode_signature(sig, kind);
        let signed = SignedInput {
            txid: input.txid.clone(),
            vout: input.vout,
            sequence: input.sequence,
            signature: encoded,
            pubkey: own_public_key.clone(),
        };
        proof {
            assert(input@ == tx@.inputs[i as int]);
            assert(signed@ =~= target.inputs[i as int]);
        }
        let ghost inputs0 = inputs@;
        inputs.push(signed);
        proof {
            assert(inputs@ == inputs0.push(signed));
            assert(inputs@.map_values(|x: SignedInput| x@) =~= target.inputs.take(i + 1));
        }
        i = i + 1;
    }
    let outputs = clone_outputs(&tx.outputs);
    let st = SignedTransaction { kind, inputs, outputs, lock_time: tx.lock_time };
    proof {
        assert(target.inputs.take(tx.inputs@.len() as int) =~= target.inputs);
        assert(st@ =~= target);
        assert forall|m: int| 0 <= m < st@.inputs.len() implies (#[trigger] st@.inputs[
            m
        ]).signature.len() <= 75 && st@.inputs[m].pubkey.len() <= 75 by {
            lemma_encoded_signature_len(sigs[m], kind);
        }
    }
    Ok(st)
}

/// The digest input `i` of the transaction must sign: the legacy
/// script-substituted hash over the script paying to the signing key, or
/// the BIP143 digest over the signing key's hash. The hash is always
/// derived from the same public key handed to the signer.
pub open spec fn input_sighash(tx: TxModel, i: int, pubkey: Seq<u8>, kind: AddressKind) -> Seq<
    u8,
> {
    match kind {
        AddressKind::P2pkh => dsha256_of(
            legacy_sighash_preimage(
                tx,
                i,
                script_pubkey_of(AddressModel::P2pkh { pkhash: hash160_of(pubkey) }),
                SIG_HASH_TYPE,
            ),
        ),
        AddressKind::P2wpkh => dsha256_of(
            bip143_preimage(tx, tx.inputs[i], hash160_of(pubkey), SIG_HASH_TYPE),
        ),
    }
}

/// Computes the digest for every input of the transaction, in input
/// order: what the signing oracle is asked to sign.
#[verifier::loop_isolation(false)]
pub fn transaction_sighashes(
    tx: &UnsignedTransaction,
    own_public_key: &Vec<u8>,
    kind: AddressKind,
) -> (r: Vec<Vec<u8>>)
    ensures
        r@.len() == tx@.inputs.len(),
        forall|i: int|
            0 <= i < r@.len() ==> (#[trigger] r@[i])@ == input_sighash(
                tx@,
                i,
                own_public_key@,
                kind,
            ),
{
    let mut r: Vec<Vec<u8>> = Vec::new();
    match kind {
        AddressKind::P2pkh => {
            let pkhash = hash160(own_public_key);
            let script_code = script_pubkey(&BitcoinAddress::P2pkh { pkhash });
            let mut i: usize = 0;
            while i < tx.inputs.len()
                invariant
                    i <= tx.inputs@.len(),
                    r@.len() == i,
                    script_code@ == script_pubkey_of(
                        AddressModel::P2pkh { pkhash: hash160_of(own_public_key@) },
                    ),
                    forall|m: int|
                        0 <= m < i ==> (#[trigger] r@[m])@ == input_sighash(
                            tx@,
                            m,
                            own_public_key@,
                            kind,
                        ),
                decreases tx.inputs@.len() - i,
            {
                let digest = signature_hash(tx, i, &script_code, SIG_HASH_TYPE);
                r.push(digest);
                i = i + 1;
            }
        },
        AddressKind::P2wpkh => {
            let hasher = TxSigHasher::new(tx);
            let pkhash = hash160(own_public_key);
            let mut i: usize = 0;
            while i < tx.inputs.len()
                invariant
                    i <= tx.inputs@.len(),
                    r@.len() == i,
                    hasher.wf(),
                    hasher.tx@ == tx@,
                    pkhash@ == hash160_of(own_public_key@),
                    forall|m: int|
                        0 <= m < i ==> (#[trigger] r@[m])@ == input_sighash(
                            tx@,
                            m,
                            own_public_key@,
                            kind,
                        ),
                decreases tx.inputs@.len() - i,
            {
                let input = &tx.inputs[i];
                proof {
                    assert(input@ == tx@.inputs[i as int]);
                }
                let digest = hasher.sighash(input, &pkhash, SIG_HASH_TYPE);
                r.push(digest);
                i = i + 1;
            }
        },
    }
    r
}

/// The stand-in signatures for an `n`-input transaction.
pub open spec fn mock_signatures(n: nat) -> Seq<Seq<u8>> {
    Seq::new(n, |i: int| mock_signature())
}

/// Signs the transaction with the stand-in signer: the result has the
/// exact shape, and so the exact size, of a really signed transaction.
pub fn fake_sign_transaction(
    tx: &UnsignedTransaction,
    own_public_key: &Vec<u8>,
    kind: AddressKind,
) -> (st: SignedTransaction)
    requires
        own_public_key@.len() <= 75,
    ensures
        st@ == signed_tx_model(tx@, mock_signatures(tx@.inputs.len()), own_public_key@, kind),
        st@.wf(),
{
    let mut sigs: Vec<Vec<u8>> = Vec::new();
    let mut i: usize = 0;
    while i < tx.inputs.len()
        invariant
            i <= tx.inputs@.len(),
            sigs_view(sigs@) =~= mock_signatures(i as nat),
        decreases tx.inputs@.len() - i,
    {
        let m = mock_signer();
        let ghost sigs0 = sigs@;
        sigs.push(m);
        proof {
            lemma_sigs_view_push(sigs0, m);
            assert(sigs@ == sigs0.push(m));
            assert(sigs_view(sigs@) =~= mock_signatures((i + 1) as nat));
        }
        i = i + 1;
    }
    proof {
        assert(sigs_ok(sigs_view(sigs@), tx@.inputs.len()));
    }
    match sign_transaction(tx, &sigs, own_public_key, kind) {
        Ok(st) => st,
        Err(_) => {
            proof {
                assert(false);
            }
            unreached()
        },
    }
}

/// The serialized size of the transaction once signed: probed with the
/// stand-in signer, whose signatures have the fixed worst-case length.
pub open spec fn fake_signed_size(tx: TxModel, pubkey: Seq<u8>, kind: AddressKind) -> int {
    ser_signed_tx(signed_tx_model(tx, mock_signatures(tx.inputs.len()), pubkey, kind)).len() as int
}

/// The fee a transaction of the given serialized size owes, at the given
/// rate in millisatoshi per byte.
pub open spec fn required_fee(size: int, fee_per_byte: u64) -> int {
    size * fee_per_byte / 1000
}

/// One run of the fee fixed-point iteration, for every input: each step
/// builds with the current fee, measures the stand-in-signed size, and
/// either stops on the fixed point or retries with the required fee.
pub open spec fn fee_loop_model(
    utxos: Seq<UtxoModel>,
    own: AddressModel,
    dst: AddressModel,
    amount: u64,
    fee_per_byte: u64,
    pubkey: Seq<u8>,
    fee: u64,
    fuel: nat,
) -> Result<(TxModel, u64), WalletError>
    decreases fuel,
{
    if fuel == 0 {
        Err(WalletError::FeeConvergenceFailure)
    } else {
        match build_with_fee_model(utxos, own, dst, amount, fee) {
            Err(e) => Err(e),
            Ok(tx) => {
                let req = required_fee(fake_signed_size(tx, pubkey, own.kind()), fee_per_byte);
                if req == fee {
                    Ok((tx, fee))
                } else if req > u64::MAX {
                    Err(WalletError::FeeConvergenceFailure)
                } else {
                    fee_loop_model(
                        utxos,
                        own,
                        dst,
                        amount,
                        fee_per_byte,
                        pubkey,
                        req as u64,
                        (fuel - 1) as nat,
                    )
                }
            },
        }
    }
}

/// Builds the transaction whose fee matches its own signed size: starts
/// at fee zero, rebuilds and re-measures until the required fee equals
/// the fee built with, within the iteration bound.
#[verifier::loop_isolation(false)]
pub fn build_transaction(
    own_public_key: &Vec<u8>,
    own_address: &BitcoinAddress,
    own_utxos: &Vec<UnspentOutput>,
    dst_address: &BitcoinAddress,
    amount: u64,
    fee_per_byte: u64,
) -> (r: Result<(UnsignedTransaction, u64), WalletError>)
    requires
        sum_utxo_values(utxos_view(own_utxos@)) <= u64::MAX,
        own_public_key@.len() <= 75,
    ensures
        ({
            let spec_r = fee_loop_model(
                utxos_view(own_utxos@),
                own_address@,
                dst_address@,
                amount,
                fee_per_byte,
                own_public_key@,
                0,
                FEE_ITERATION_CAP as nat,
            );
            match r {
                Ok((tx, fee)) => spec_r == Ok::<(TxModel, u64), WalletError>((tx@, fee)),
                Err(e) => spec_r == Err::<(TxModel, u64), WalletError>(e),
            }
        }),
{
    let ghost model = utxos_view(own_utxos@);
    let kind = own_address.kind();
    let mut total_fee: u64 = 0;
    let mut iter: usize = 0;
    while iter < FEE_ITERATION_CAP
        invariant
            iter <= FEE_ITERATION_CAP,
            fee_loop_model(
                model,
                own_address@,
                dst_address@,
                amount,
                fee_per_byte,
                own_public_key@,
                0,
                FEE_ITERATION_CAP as nat,
            ) == fee_loop_model(
                model,
                own_address@,
                dst_address@,
                amount,
                fee_per_byte,
                own_public_key@,
                total_fee,
                (FEE_ITERATION_CAP - iter) as nat,
            ),
        decreases FEE_ITERATION_CAP - iter,
    {
        let built = build_transaction_with_fee(
            own_utxos,
            own_address,
            dst_address,
            amount,
            total_fee,
        );
        let transaction = match built {
            Ok(t) => t,
            Err(e) => {
                return Err(e);
            },
        };
        let signed = fake_sign_transaction(&transaction, own_public_key, kind);
        let ser = signed.serialize();
        let size: usize = ser.len();
        proof {
            assert(size as int * fee_per_byte as int <= u128::MAX) by (nonlinear_arith)
                requires
                    size <= u64::MAX,
                    fee_per_byte <= u64::MAX,
            ;
        }
        let req128: u128 = (size as u128) * (fee_per_byte as u128) / 1000;
        proof {
            assert(req128 == required_fee(
                fake_signed_size(transaction@, own_public_key@, kind),
                fee_per_byte,
            ));
        }
        if req128 == total_fee as u128 {
            return Ok((transaction, total_fee));
        } else if req128 > u64::MAX as u128 {
            return Err(WalletError::FeeConvergenceFailure);
        }
        total_fee = req128 as u64;
        iter = iter + 1;
    }
    Err(WalletError::FeeConvergenceFailure)
}

/// Whatever fee the loop converged on is a true fixed point: the
/// transaction built at that fee, signed with the stand-in signer, owes
/// exactly that fee at the given rate.
proof fn lemma_fee_loop_ok_fixed(
    utxos: Seq<UtxoModel>,
    own: AddressModel,
    dst: AddressModel,
    amount: u64,
    fee_per_byte: u64,
    pubkey: Seq<u8>,
    fee0: u64,
    fuel: nat,
    t: TxModel,
    f: u64,
)
    requires
        fee_loop_model(utxos, own, dst, amount, fee_per_byte, pubkey, fee0, fuel) == Ok::<
            (TxModel, u64),
            WalletError,
        >((t, f)),
    ensures
        build_with_fee_model(utxos, own, dst, amount, f) == Ok::<TxModel, WalletError>(t),
        required_fee(fake_signed_size(t, pubkey, own.kind()), fee_per_byte) == f,
    decreases fuel,
{
    if fuel > 0 {
        match build_with_fee_model(utxos, own, dst, amount, fee0) {
            Ok(tx) => {
                let req = required_fee(fake_signed_size(tx, pubkey, own.kind()), fee_per_byte);
                if req == fee0 {
                } else if req > u64::MAX {
                } else {
                    lemma_fee_loop_ok_fixed(
                        utxos,
                        own,
                        dst,
                        amount,
                        fee_per_byte,
                        pubkey,
                        req as u64,
                        (fuel - 1) as nat,
                        t,
                        f,
                    );
                }
            },
            Err(_) => {},
        }
    }
}

/// Re-running the fee loop on its own converged fee immediately
/// re-converges: with any fuel at all, starting from the converged fee
/// returns the same transaction and the same fee at once.
pub proof fn lemma_fee_fixed_point(
    utxos: Seq<UtxoModel>,
    own: AddressModel,
    dst: AddressModel,
    amount: u64,
    fee_per_byte: u64,
    pubkey: Seq<u8>,
    t: TxModel,
    f: u64,
    fuel: nat,
)
    requires
        fee_loop_model(
            utxos,
            own,
            dst,
            amount,
            fee_per_byte,
            pubkey,
            0,
            FEE_ITERATION_CAP as nat,
        ) == Ok::<(TxModel, u64), WalletError>((t, f)),
        fuel >= 1,
    ensures
        fee_loop_model(utxos, own, dst, amount, fee_per_byte, pubkey, f, fuel) == Ok::<
            (TxModel, u64),
            WalletError,
        >((t, f)),
{
    lemma_fee_loop_ok_fixed(
        utxos,
        own,
        dst,
        amount,
        fee_per_byte,
        pubkey,
        0,
        FEE_ITERATION_CAP as nat,
        t,
        f,
    );
}

} // verus!
