use basic_bitcoin::builder::build_transaction_with_fee;
use basic_bitcoin::address::BitcoinAddress;
use basic_bitcoin::errors::WalletError;
use basic_bitcoin::tx::{UnspentOutput, SEQUENCE_FINAL};

fn utxo(tag: u8, value: u64) -> UnspentOutput {
    UnspentOutput { txid: vec![tag; 32], vout: 0, value }
}

fn own_address() -> BitcoinAddress {
    BitcoinAddress::P2pkh { pkhash: vec![0x11; 20] }
}

fn dst_address() -> BitcoinAddress {
    BitcoinAddress::P2pkh { pkhash: vec![0x22; 20] }
}

#[test]
fn insufficient_funds_reports_totals_and_selects_nothing() {
    let utxos = vec![utxo(1, 300), utxo(2, 400)];
    let r = build_transaction_with_fee(&utxos, &own_address(), &dst_address(), 600, 200);
    match r {
        Err(WalletError::InsufficientFunds { available, amount, fee }) => {
            assert_eq!(available, 700);
            assert_eq!(amount, 600);
            assert_eq!(fee, 200);
        },
        other => panic!("expected insufficient funds, got {:?}", other),
    }
}

#[test]
fn exact_cover_builds_single_output_without_change() {
    let utxos = vec![utxo(1, 1000)];
    let tx = build_transaction_with_fee(&utxos, &own_address(), &dst_address(), 900, 100)
        .expect("exact cover must build");
    assert_eq!(tx.inputs.len(), 1);
    assert_eq!(tx.outputs.len(), 1);
    assert_eq!(tx.outputs[0].value, 900);
    assert_eq!(tx.lock_time, 0);
    assert_eq!(tx.inputs[0].sequence, SEQUENCE_FINAL);
}

#[test]
fn change_output_returns_remainder_to_payer() {
    let utxos = vec![utxo(1, 10_000)];
    let tx = build_transaction_with_fee(&utxos, &own_address(), &dst_address(), 4_000, 500)
        .expect("must build");
    assert_eq!(tx.outputs.len(), 2);
    assert_eq!(tx.outputs[0].value, 4_000);
    assert_eq!(tx.outputs[1].value, 5_500);
    // No value is created or destroyed: inputs = outputs + fee.
    let in_total: u64 = tx.inputs.iter().map(|i| i.value).sum();
    let out_total: u64 = tx.outputs.iter().map(|o| o.value).sum();
    assert_eq!(in_total - out_total, 500);
}

#[test]
fn selection_drains_supplied_outputs_from_the_end() {
    let utxos = vec![utxo(1, 800), utxo(2, 600), utxo(3, 500)];
    let tx = build_transaction_with_fee(&utxos, &own_address(), &dst_address(), 1_000, 0)
        .expect("must build");
    // The last supplied output is taken first; 500 + 600 covers 1000.
    assert_eq!(tx.inputs.len(), 2);
    assert_eq!(tx.inputs[0].txid, vec![3; 32]);
    assert_eq!(tx.inputs[1].txid, vec![2; 32]);
    let in_total: u64 = tx.inputs.iter().map(|i| i.value).sum();
    let out_total: u64 = tx.outputs.iter().map(|o| o.value).sum();
    assert_eq!(in_total - out_total, 0);
}

#[test]
fn malformed_outpoint_reference_fails_the_build() {
    let short = UnspentOutput { txid: vec![9; 31], vout: 0, value: 5_000 };
    let utxos = vec![short];
    let r = build_transaction_with_fee(&utxos, &own_address(), &dst_address(), 1_000, 0);
    assert!(matches!(r, Err(WalletError::MalformedUtxoReference)));
}

#[test]
fn insufficiency_is_checked_before_outpoint_shape() {
    // A malformed reference in a set that cannot cover the target still
    // reports insufficient funds, as selection happens first.
    let short = UnspentOutput { txid: vec![9; 31], vout: 0, value: 10 };
    let utxos = vec![short];
    let r = build_transaction_with_fee(&utxos, &own_address(), &dst_address(), 1_000, 0);
    assert!(matches!(r, Err(WalletError::InsufficientFunds { .. })));
}
