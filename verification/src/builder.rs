//! UTXO selection and transaction assembly: the greedy covering selection
//! over the supplied outputs and the construction of the unsigned
//! transaction for a given fee.
use vstd::prelude::*;

use crate::address::{AddressModel, BitcoinAddress};
use crate::errors::WalletError;
use crate::tx::{
    sum_input_values, sum_utxo_values, InputModel, OutputModel, TxModel, UnsignedInput,
    UnsignedOutput, UnsignedTransaction, UnspentOutput, UtxoModel, SEQUENCE_FINAL,
};

verus! {

/// Outputs below this value are treated as dust and never created as
/// change; with the default of zero, any positive remainder is kept.
pub const DUST_THRESHOLD: u64 = 0;

/// The models of a slice of unspent outputs.
pub open spec fn utxos_view(utxos: Seq<UnspentOutput>) -> Seq<UtxoModel> {
    utxos.map_values(|u: UnspentOutput| u@)
}

/// How many outputs the greedy selector takes: it scans the supplied
/// sequence from its end and stops as soon as the accumulated value
/// reaches the target, or when the sequence is exhausted.
pub open spec fn greedy_take(utxos: Seq<UtxoModel>, target: int) -> int
    decreases utxos.len(),
{
    if utxos.len() == 0 {
        0
    } else if utxos.last().value >= target {
        1
    } else {
        1 + greedy_take(utxos.drop_last(), target - utxos.last().value)
    }
}

/// The input built from one selected unspent output: sequence number set
/// to final, value carried forward.
pub open spec fn utxo_input(u: UtxoModel) -> InputModel {
    InputModel { txid: u.txid, vout: u.vout, value: u.value, sequence: SEQUENCE_FINAL }
}

/// The first `k` selected inputs: the supplied outputs taken from the end,
/// newest position first.
pub open spec fn selected_inputs(utxos: Seq<UtxoModel>, k: int) -> Seq<InputModel> {
    Seq::new(k as nat, |j: int| utxo_input(utxos[utxos.len() - 1 - j]))
}

/// The total value of a sequence of unspent outputs is never negative.
pub proof fn lemma_sum_utxos_nonneg(utxos: Seq<UtxoModel>)
    ensures
        sum_utxo_values(utxos) >= 0,
    decreases utxos.len(),
{
    if utxos.len() > 0 {
        lemma_sum_utxos_nonneg(utxos.drop_last());
    }
}

/// The selector never takes more outputs than exist.
pub proof fn lemma_greedy_take_bounds(utxos: Seq<UtxoModel>, target: int)
    ensures
        0 <= greedy_take(utxos, target) <= utxos.len(),
    decreases utxos.len(),
{
    if utxos.len() > 0 && !(utxos.last().value >= target) {
        lemma_greedy_take_bounds(utxos.drop_last(), target - utxos.last().value);
    }
}

/// The value selected by taking `k` outputs from the end.
pub proof fn lemma_selected_sum(utxos: Seq<UtxoModel>, k: int)
    requires
        0 <= k <= utxos.len(),
    ensures
        sum_input_values(selected_inputs(utxos, k)) == sum_utxo_values(utxos) - sum_utxo_values(
            utxos.take(utxos.len() - k),
        ),
    decreases k,
{
    if k == 0 {
        assert(utxos.take(utxos.len() as int) =~= utxos);
        assert(selected_inputs(utxos, 0) =~= Seq::<InputModel>::empty());
    } else {
        lemma_selected_sum(utxos, k - 1);
        assert(selected_inputs(utxos, k).drop_last() =~= selected_inputs(utxos, k - 1));
        let m = utxos.len() - k;
        assert(utxos.take(m + 1).drop_last() =~= utxos.take(m));
        assert(selected_inputs(utxos, k).last() == utxo_input(utxos[m]));
        assert(utxos.take(m + 1).last() == utxos[m]);
    }
}

/// Sums split over concatenation of input sequences.
pub proof fn lemma_sum_inputs_concat(a: Seq<InputModel>, b: Seq<InputModel>)
    ensures
        sum_input_values(a + b) == sum_input_values(a) + sum_input_values(b),
    decreases b.len(),
{
    if b.len() == 0 {
        assert(a + b =~= a);
    } else {
        lemma_sum_inputs_concat(a, b.drop_last());
        assert((a + b).drop_last() =~= a + b.drop_last());
        assert((a + b).last() == b.last());
    }
}

/// When the whole set covers the target, so does the greedy selection.
pub proof fn lemma_greedy_covers(utxos: Seq<UtxoModel>, target: int)
    requires
        sum_utxo_values(utxos) >= target,
    ensures
        sum_input_values(selected_inputs(utxos, greedy_take(utxos, target))) >= target,
    decreases utxos.len(),
{
    reveal_with_fuel(sum_input_values, 4);
    reveal_with_fuel(sum_utxo_values, 4);
    let k = greedy_take(utxos, target);
    let ins = selected_inputs(utxos, k);
    if utxos.len() == 0 {
        assert(ins =~= Seq::<InputModel>::empty());
    } else {
        let last = utxos.last();
        if last.value >= target {
            assert(ins =~= seq![utxo_input(last)]);
            assert(ins.drop_last() =~= Seq::<InputModel>::empty());
        } else {
            let rest = utxos.drop_last();
            lemma_greedy_covers(rest, target - last.value);
            let k2 = greedy_take(rest, target - last.value);
            lemma_greedy_take_bounds(rest, target - last.value);
            assert(ins =~= seq![utxo_input(last)] + selected_inputs(rest, k2));
            lemma_sum_inputs_concat(seq![utxo_input(last)], selected_inputs(rest, k2));
            assert(sum_input_values(seq![utxo_input(last)]) == last.value) by {
                assert(seq![utxo_input(last)].drop_last() =~= Seq::<InputModel>::empty());
            }
        }
    }
}

/// The greedy selection never takes more value than the whole set holds.
pub proof fn lemma_selected_le_total(utxos: Seq<UtxoModel>, k: int)
    requires
        0 <= k <= utxos.len(),
    ensures
        sum_input_values(selected_inputs(utxos, k)) <= sum_utxo_values(utxos),
{
    lemma_selected_sum(utxos, k);
    lemma_sum_utxos_nonneg(utxos.take(utxos.len() - k));
}

/// The outputs of a built transaction: the payment, and the change output
/// exactly when the remainder is positive and at least the dust floor.
pub open spec fn built_outputs(own: AddressModel, dst: AddressModel, amount: u64, change: int)
    -> Seq<OutputModel> {
    let pay = OutputModel { address: dst, value: amount };
    if change > 0 && change >= DUST_THRESHOLD {
        seq![pay, OutputModel { address: own, value: change as u64 }]
    } else {
        seq![pay]
    }
}

/// What building a transaction for a given fee returns, for every input:
/// the insufficient-funds failure with its totals, the malformed-outpoint
/// failure, or the exact transaction.
pub open spec fn build_with_fee_model(
    utxos: Seq<UtxoModel>,
    own: AddressModel,
    dst: AddressModel,
    amount: u64,
    fee: u64,
) -> Result<TxModel, WalletError> {
    let target = amount + fee;
    let total = sum_utxo_values(utxos);
    if total < target {
        Err(
            WalletError::InsufficientFunds { available: total as u64, amount, fee },
        )
    } else {
        let k = greedy_take(utxos, target);
        let ins = selected_inputs(utxos, k);
        if exists|j: int| 0 <= j < k && (#[trigger] ins[j]).txid.len() != 32 {
            Err(WalletError::MalformedUtxoReference)
        } else {
            let change = sum_input_values(ins) - target;
            Ok(TxModel { inputs: ins, outputs: built_outputs(own, dst, amount, change), lock_time: 0 })
        }
    }
}

/// Builds the unsigned transaction that sends `amount` to the destination
/// with the given fee: greedy selection over the supplied outputs (oldest
/// first, drained from the end), one payment output, and a change output
/// back to the payer unless the remainder is dust.
#[verifier::loop_isolation(false)]
pub fn build_transaction_with_fee(
    own_utxos: &Vec<UnspentOutput>,
    own_address: &BitcoinAddress,
    dst_address: &BitcoinAddress,
    amount: u64,
    fee: u64,
) -> (r: Result<UnsignedTransaction, WalletError>)
    requires
        sum_utxo_values(utxos_view(own_utxos@)) <= u64::MAX,
    ensures
        ({
            let spec_r = build_with_fee_model(
                utxos_view(own_utxos@),
                own_address@,
                dst_address@,
                amount,
                fee,
            );
            match r {
                Ok(tx) => spec_r == Ok::<TxModel, WalletError>(tx@),
                Err(e) => spec_r == Err::<TxModel, WalletError>(e),
            }
        }),
{
    let ghost model = utxos_view(own_utxos@);
    let ghost target = amount + fee;
    let n: usize = own_utxos.len();
    proof {
        lemma_sum_utxos_nonneg(model);
        assert(model.take(n as int) =~= model);
    }

    // Greedy selection: walk the supplied outputs from the end,
    // accumulating value until the target is covered.
    let mut taken: usize = 0;
    let mut total: u64 = 0;
    let mut covered: bool = false;
    while taken < n && !covered
        invariant
            0 <= taken <= n,
            total == sum_utxo_values(model) - sum_utxo_values(model.take(n - taken)),
            covered ==> total >= target && greedy_take(model, target) == taken,
            !covered ==> greedy_take(model, target) == taken + greedy_take(
                model.take(n - taken),
                target - total,
            ),
        decreases n - taken,
    {
        let ghost rem = model.take(n - taken);
        let u = &own_utxos[n - 1 - taken];
        proof {
            lemma_sum_utxos_nonneg(model.take(n - taken - 1));
            assert(rem.last() == u@);
            assert(rem.drop_last() =~= model.take(n - taken - 1));
            assert(model.take(n - taken).drop_last() =~= model.take(n - taken - 1));
        }
        let value = u.value;
        proof {
            assert(total + value == sum_utxo_values(model) - sum_utxo_values(
                model.take(n - taken - 1),
            ));
            assert(total + value <= sum_utxo_values(model));
        }
        total = total + value;
        taken = taken + 1;
        if total as u128 >= amount as u128 + fee as u128 {
            covered = true;
            proof {
                assert(greedy_take(rem, target - (total - value)) == 1);
            }
        } else {
            proof {
                assert(greedy_take(rem, target - (total - value)) == 1 + greedy_take(
                    rem.drop_last(),
                    target - total,
                ));
            }
        }
    }
    proof {
        if !covered {
            assert(taken == n);
            assert(model.take(0) =~= Seq::<UtxoModel>::empty());
            assert(total == sum_utxo_values(model));
            assert(greedy_take(model, target) == n);
        }
        lemma_sum_utxos_nonneg(model.take(n - taken));
    }

    if !covered && (total as u128) < amount as u128 + fee as u128 {
        return Err(WalletError::InsufficientFunds { available: total, amount, fee });
    }
    // A zero target with no outputs to take is covered vacuously.
    proof {
        if !covered {
            assert(total >= target);
            assert(greedy_take(model, target) == taken);
        }
        assert(sum_utxo_values(model) >= target);
        lemma_greedy_take_bounds(model, target);
        lemma_selected_sum(model, taken as int);
        lemma_sum_utxos_nonneg(model.take(n - taken));
        assert(sum_input_values(selected_inputs(model, taken as int)) == total);
    }

    // Build one input per selected output, newest position first; a
    // malformed outpoint reference fails the whole build.
    let ghost sel = selected_inputs(model, taken as int);
    let mut inputs: Vec<UnsignedInput> = Vec::new();
    let mut j: usize = 0;
    while j < taken
        invariant
            0 <= j <= taken <= n,
            inputs@.map_values(|i: UnsignedInput| i@) =~= sel.take(j as int),
            forall|m: int| 0 <= m < j ==> (#[trigger] sel[m]).txid.len() == 32,
        decreases taken - j,
    {
        let u = &own_utxos[n - 1 - j];
        if u.txid.len() != 32 {
            proof {
                assert(sel[j as int].txid.len() != 32);
            }
            return Err(WalletError::MalformedUtxoReference);
        }
        let input = UnsignedInput {
            txid: u.txid.clone(),
            vout: u.vout,
            value: u.value,
            sequence: SEQUENCE_FINAL,
        };
        proof {
            assert(input@ =~= sel[j as int]);
        }
        inputs.push(input);
        proof {
            assert(inputs@.map_values(|i: UnsignedInput| i@) =~= sel.take(j + 1));
        }
        j = j + 1;
    }
    proof {
        assert(sel.take(taken as int) =~= sel);
        assert(forall|m: int| 0 <= m < taken ==> (#[trigger] sel[m]).txid.len() == 32);
    }

    // The payment output, and change back to the payer unless dust.
    let change: u64 = total - amount - fee;
    let mut outputs: Vec<UnsignedOutput> = Vec::new();
    outputs.push(UnsignedOutput { address: dst_address.clone(), value: amount });
    if change > 0 && change >= DUST_THRESHOLD {
        outputs.push(UnsignedOutput { address: own_address.clone(), value: change });
    }

    let tx = UnsignedTransaction { inputs, outputs, lock_time: 0 };
    proof {
        assert(tx@.inputs =~= sel);
        assert(tx@.outputs =~= built_outputs(
            own_address@,
            dst_address@,
            amount,
            sum_input_values(sel) - target,
        ));
        assert(tx@ =~= build_with_fee_model(model, own_address@, dst_address@, amount, fee).unwrap());
    }
    Ok(tx)
}

/// A non-empty set whose total cannot cover amount plus fee always fails
/// with the insufficient-funds error carrying the full totals, and no
/// partial selection is returned.
pub proof fn lemma_insufficient_funds(
    utxos: Seq<UtxoModel>,
    own: AddressModel,
    dst: AddressModel,
    amount: u64,
    fee: u64,
)
    requires
        sum_utxo_values(utxos) < amount + fee,
    ensures
        build_with_fee_model(utxos, own, dst, amount, fee) == Err::<TxModel, WalletError>(
            WalletError::InsufficientFunds {
                available: sum_utxo_values(utxos) as u64,
                amount,
                fee,
            },
        ),
{
}

/// No value is created or destroyed: every successful build pays out
/// exactly the selected input value minus the fee.
pub proof fn lemma_value_conservation(
    utxos: Seq<UtxoModel>,
    own: AddressModel,
    dst: AddressModel,
    amount: u64,
    fee: u64,
)
    requires
        build_with_fee_model(utxos, own, dst, amount, fee) is Ok,
        sum_utxo_values(utxos) <= u64::MAX,
    ensures
        ({
            let tx = build_with_fee_model(utxos, own, dst, amount, fee).unwrap();
            sum_input_values(tx.inputs) - crate::tx::sum_output_values(tx.outputs) == fee
        }),
{
    reveal_with_fuel(crate::tx::sum_output_values, 4);
    let target = amount + fee;
    let k = greedy_take(utxos, target);
    let ins = selected_inputs(utxos, k);
    let change = sum_input_values(ins) - target;
    let tx = build_with_fee_model(utxos, own, dst, amount, fee).unwrap();
    let pay = OutputModel { address: dst, value: amount };
    lemma_greedy_take_bounds(utxos, target);
    lemma_greedy_covers(utxos, target);
    lemma_selected_le_total(utxos, k);
    assert(0 <= change <= u64::MAX);
    if change > 0 && change >= DUST_THRESHOLD {
        let chg = OutputModel { address: own, value: change as u64 };
        assert(tx.outputs =~= seq![pay, chg]);
        assert(tx.outputs.drop_last() =~= seq![pay]);
        assert(seq![pay].drop_last() =~= Seq::<OutputModel>::empty());
        assert(crate::tx::sum_output_values(tx.outputs) == amount + change);
    } else {
        assert(tx.outputs =~= seq![pay]);
        assert(tx.outputs.drop_last() =~= Seq::<OutputModel>::empty());
        assert(crate::tx::sum_output_values(tx.outputs) == amount);
        // With the default zero dust floor the remainder here is zero.
        assert(change == 0);
    }
}

} // verus!
