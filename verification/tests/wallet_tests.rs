use basic_bitcoin::address::{AddressKind, BitcoinAddress};
use basic_bitcoin::builder::build_transaction_with_fee;
use basic_bitcoin::errors::WalletError;
use basic_bitcoin::sighash::TxSigHasher;
use basic_bitcoin::tx::UnspentOutput;
use basic_bitcoin::wallet::{
    build_transaction, fake_sign_transaction, fee_per_byte_from_percentiles, mock_signer,
    sign_transaction, transaction_sighashes, SIG_HASH_TYPE,
};

fn utxo(tag: u8, value: u64) -> UnspentOutput {
    UnspentOutput { txid: vec![tag; 32], vout: 0, value }
}

fn own_pubkey() -> Vec<u8> {
    vec![0x02; 33]
}

fn own_p2pkh() -> BitcoinAddress {
    BitcoinAddress::P2pkh { pkhash: vec![0x11; 20] }
}

fn own_p2wpkh() -> BitcoinAddress {
    BitcoinAddress::P2wpkh { pkhash: vec![0x11; 20] }
}

fn dst() -> BitcoinAddress {
    BitcoinAddress::P2pkh { pkhash: vec![0x22; 20] }
}

#[test]
fn empty_percentile_table_falls_back_to_default_rate() {
    assert_eq!(fee_per_byte_from_percentiles(&vec![]), 2000);
}

#[test]
fn mid_percentile_is_taken_from_a_full_table() {
    let table: Vec<u64> = (0..100).map(|i| i * 10).collect();
    assert_eq!(fee_per_byte_from_percentiles(&table), 500);
}

#[test]
fn mock_signer_returns_fixed_length_signature() {
    assert_eq!(mock_signer(), vec![0xff; 64]);
}

#[test]
fn fee_converges_to_size_times_rate() {
    // One 100 000 satoshi coin, paying 50 000 at 2000 millisatoshi per
    // byte: the fallback rate of an empty percentile table.
    let rate = fee_per_byte_from_percentiles(&vec![]);
    let utxos = vec![utxo(1, 100_000)];
    let (tx, fee) = build_transaction(&own_pubkey(), &own_p2pkh(), &utxos, &dst(), 50_000, rate)
        .expect("must converge");
    // The converged fee equals the signed size times the rate.
    let signed = fake_sign_transaction(&tx, &own_pubkey(), AddressKind::P2pkh);
    let size = signed.serialize().len() as u64;
    assert_eq!(fee, size * rate / 1000);
    // Payment and change, with the change making the books balance.
    assert_eq!(tx.outputs.len(), 2);
    assert_eq!(tx.outputs[0].value, 50_000);
    assert_eq!(tx.outputs[1].value, 100_000 - 50_000 - fee);
    // Re-running on the converged fee immediately re-converges: building
    // with that fee yields the same transaction and the same required fee.
    let again = build_transaction_with_fee(&utxos, &own_p2pkh(), &dst(), 50_000, fee)
        .expect("must build");
    let again_size = fake_sign_transaction(&again, &own_pubkey(), AddressKind::P2pkh)
        .serialize()
        .len() as u64;
    assert_eq!(again_size * rate / 1000, fee);
    assert_eq!(again.inputs.len(), tx.inputs.len());
    assert_eq!(again.outputs.len(), tx.outputs.len());
    assert_eq!(again.outputs[1].value, tx.outputs[1].value);
}

#[test]
fn segwit_build_converges_and_pays_smaller_fee() {
    let rate = 2000u64;
    let utxos = vec![utxo(1, 100_000)];
    let (tx, fee) = build_transaction(&own_pubkey(), &own_p2wpkh(), &utxos, &dst(), 50_000, rate)
        .expect("must converge");
    let signed = fake_sign_transaction(&tx, &own_pubkey(), AddressKind::P2wpkh);
    let size = signed.serialize().len() as u64;
    assert_eq!(fee, size * rate / 1000);
    let (_, legacy_fee) =
        build_transaction(&own_pubkey(), &own_p2pkh(), &utxos, &dst(), 50_000, rate)
            .expect("must converge");
    assert!(fee < legacy_fee);
}

#[test]
fn build_propagates_insufficient_funds() {
    let utxos = vec![utxo(1, 100)];
    let r = build_transaction(&own_pubkey(), &own_p2pkh(), &utxos, &dst(), 50_000, 2000);
    assert!(matches!(r, Err(WalletError::InsufficientFunds { .. })));
}

#[test]
fn signing_rejects_malformed_oracle_results() {
    let utxos = vec![utxo(1, 100_000)];
    let tx = build_transaction_with_fee(&utxos, &own_p2pkh(), &dst(), 50_000, 500)
        .expect("must build");
    // Wrong count.
    let r = sign_transaction(&tx, &vec![], &own_pubkey(), AddressKind::P2pkh);
    assert!(matches!(r, Err(WalletError::SigningFailure)));
    // Wrong length.
    let r = sign_transaction(&tx, &vec![vec![0xff; 63]], &own_pubkey(), AddressKind::P2pkh);
    assert!(matches!(r, Err(WalletError::SigningFailure)));
}

#[test]
fn signed_transaction_carries_der_signature_and_pubkey() {
    let utxos = vec![utxo(1, 100_000)];
    let tx = build_transaction_with_fee(&utxos, &own_p2pkh(), &dst(), 50_000, 500)
        .expect("must build");
    let sigs = vec![vec![0x55; 64]];
    let st = sign_transaction(&tx, &sigs, &own_pubkey(), AddressKind::P2pkh).expect("must sign");
    assert_eq!(st.inputs.len(), 1);
    // DER of two positive 32-byte scalars plus the sighash-type byte.
    let sig = &st.inputs[0].signature;
    assert_eq!(sig[0], 0x30);
    assert_eq!(*sig.last().unwrap(), SIG_HASH_TYPE as u8);
    assert_eq!(sig.len(), 71);
    assert_eq!(st.inputs[0].pubkey, own_pubkey());
    // The witness form for segwit keeps the raw 64 bytes.
    let stw = sign_transaction(&tx, &sigs, &own_pubkey(), AddressKind::P2wpkh).expect("must sign");
    assert_eq!(stw.inputs[0].signature.len(), 65);
    assert_eq!(&stw.inputs[0].signature[..64], &sigs[0][..]);
}

#[test]
fn transaction_ids_are_deterministic() {
    let utxos = vec![utxo(1, 100_000)];
    let tx = build_transaction_with_fee(&utxos, &own_p2pkh(), &dst(), 50_000, 500)
        .expect("must build");
    let a = fake_sign_transaction(&tx, &own_pubkey(), AddressKind::P2pkh);
    let b = fake_sign_transaction(&tx, &own_pubkey(), AddressKind::P2pkh);
    assert_eq!(a.txid(), b.txid());
    assert_eq!(a.serialize(), b.serialize());
    let bytes = a.serialize();
    // Version 1, then the input count, in the legacy form.
    assert_eq!(&bytes[..5], &[1, 0, 0, 0, 1]);
    // One stand-in-signed input (149 bytes), two 34-byte outputs.
    assert_eq!(bytes.len(), 4 + 1 + 149 + 1 + 68 + 4);
    let w = fake_sign_transaction(&tx, &own_pubkey(), AddressKind::P2wpkh);
    // Marker and flag bytes follow the version in the witness form.
    assert_eq!(&w.serialize()[..6], &[1, 0, 0, 0, 0, 1]);
    assert_eq!(w.txid().len(), 32);
    assert_eq!(w.wtxid().len(), 32);
    // The witness form is longer than its witness-stripped base form.
    assert_ne!(w.wtxid(), w.txid());
}

#[test]
fn segwit_sighash_is_deterministic_and_commits_to_sequences() {
    let utxos = vec![utxo(1, 60_000), utxo(2, 60_000)];
    let mut tx = build_transaction_with_fee(&utxos, &own_p2wpkh(), &dst(), 100_000, 500)
        .expect("must build");
    assert_eq!(tx.inputs.len(), 2);
    let pkhash = vec![0x11u8; 20];
    let hasher = TxSigHasher::new(&tx);
    let d1 = hasher.sighash(&tx.inputs[0], &pkhash, SIG_HASH_TYPE);
    let d2 = hasher.sighash(&tx.inputs[0], &pkhash, SIG_HASH_TYPE);
    assert_eq!(d1, d2);
    assert_eq!(d1.len(), 32);
    // Changing the other input's sequence number changes the digest.
    tx.inputs[1].sequence = 0xffff_fffe;
    let hasher2 = TxSigHasher::new(&tx);
    let d3 = hasher2.sighash(&tx.inputs[0], &pkhash, SIG_HASH_TYPE);
    assert_ne!(d1, d3);
}

#[test]
fn per_input_sighashes_differ_between_inputs() {
    let utxos = vec![utxo(1, 60_000), utxo(2, 60_000)];
    let tx = build_transaction_with_fee(&utxos, &own_p2pkh(), &dst(), 100_000, 500)
        .expect("must build");
    let digests = transaction_sighashes(&tx, &own_pubkey(), AddressKind::P2pkh);
    assert_eq!(digests.len(), 2);
    assert_ne!(digests[0], digests[1]);
    let digests_again = transaction_sighashes(&tx, &own_pubkey(), AddressKind::P2pkh);
    assert_eq!(digests, digests_again);
    let witness_digests = transaction_sighashes(&tx, &own_pubkey(), AddressKind::P2wpkh);
    assert_eq!(witness_digests.len(), 2);
    assert_ne!(witness_digests[0], digests[0]);
}
