//! A spend that is built from an index which shows the chain is valid
//! against that chain.

use crate::chain::block::BlockModel;
use crate::chain::blockchain::{
    spec_find_transaction, spec_inputs_spendable, spec_is_output_spent, RecordModel,
};
use crate::chain::transaction::{
    spec_balanced, spec_input_signed, spec_input_signed_with, spec_input_sum, spec_inputs_of,
    spec_inputs_of_selection, spec_inputs_resolve, spec_planned_spend, spec_referenced_output,
    spec_signed_form_of, spec_spend_made, spec_verify, sum_values, InputModel, OutputModel,
    Transaction,
};
use crate::error::BlockchainError;
use crate::storage::utxo_set::{
    spec_gathered, spec_gathered_in, spec_selected, spec_taken_in, SelectionModel, UTXOSet,
};
use crate::wallet::wallet::spec_hash_pub_key;
use crate::wallet::wallets::Wallets;
use vstd::prelude::*;

verus! {

/// Whether a record of the index shows a transaction of the chain as the
/// chain holds it: the chain holds the transaction, the record holds all its
/// outputs in their places, and the chain spends none of them.
pub open spec fn spec_record_shown(chain: Seq<BlockModel>, record: RecordModel) -> bool {
    match spec_find_transaction(chain, record.txid) {
        Some(transaction) => transaction.vout == record.outputs && record.outputs.len()
            <= usize::MAX && forall|v: int|
            0 <= v < record.outputs.len() ==> !#[trigger] spec_is_output_spent(
                chain,
                record.txid,
                v as usize,
            ),
        None => false,
    }
}

/// Whether an index shows a chain: every record shows a transaction of the
/// chain as the chain holds it. The places of such an index are the places
/// of the chain.
pub open spec fn spec_index_shows_chain(chain: Seq<BlockModel>, records: Seq<RecordModel>) -> bool {
    forall|r: int| 0 <= r < records.len() ==> spec_record_shown(chain, #[trigger] records[r])
}

/// The sum of the values of the outputs at the places given.
pub open spec fn spec_value_at(outputs: Seq<OutputModel>, places: Seq<usize>) -> int
    decreases places.len(),
{
    if places.len() == 0 {
        0
    } else {
        spec_value_at(outputs, places.drop_last()) + outputs[places.last() as int].value
    }
}

/// The sum at places depends on the outputs at those places only.
proof fn lemma_value_at_same(a: Seq<OutputModel>, b: Seq<OutputModel>, places: Seq<usize>)
    requires
        forall|j: int|
            0 <= j < places.len() ==> (#[trigger] places[j]) < a.len() && places[j] < b.len()
                && a[places[j] as int] == b[places[j] as int],
    ensures
        spec_value_at(a, places) == spec_value_at(b, places),
    decreases places.len(),
{
    if places.len() > 0 {
        let front = places.drop_last();
        assert forall|j: int| 0 <= j < front.len() implies (#[trigger] front[j]) < a.len()
            && front[j] < b.len() && a[front[j] as int] == b[front[j] as int] by {
            assert(front[j] == places[j]);
        }
        lemma_value_at_same(a, b, front);
        assert(places.last() == places[places.len() - 1]);
    }
}

/// What is taken from one record: places of the record whose outputs are
/// locked to the key hash; and, unless the amount ran into the largest
/// number of 64 bits, the amount grows by the values at those places.
proof fn lemma_taken_in(gathered: u64, outputs: Seq<OutputModel>, hash: Seq<u8>, amount: u64)
    requires
        outputs.len() <= usize::MAX,
    ensures
        spec_gathered_in(gathered, outputs, hash, amount) >= gathered,
        forall|j: int|
            0 <= j < spec_taken_in(gathered, outputs, hash, amount).len() ==> (
            #[trigger] spec_taken_in(gathered, outputs, hash, amount)[j]) < outputs.len()
                && outputs[spec_taken_in(gathered, outputs, hash, amount)[j] as int].pub_key_hash
                == hash,
        spec_gathered_in(gathered, outputs, hash, amount) < u64::MAX ==> spec_gathered_in(
            gathered,
            outputs,
            hash,
            amount,
        ) == gathered + spec_value_at(outputs, spec_taken_in(gathered, outputs, hash, amount)),
    decreases outputs.len(),
{
    if outputs.len() > 0 {
        let front = outputs.drop_last();
        lemma_taken_in(gathered, front, hash, amount);
        let before = spec_gathered_in(gathered, front, hash, amount);
        let earlier = spec_taken_in(gathered, front, hash, amount);
        let taken = spec_taken_in(gathered, outputs, hash, amount);
        assert forall|j: int| 0 <= j < earlier.len() implies (#[trigger] earlier[j]) < front.len()
            && earlier[j] < outputs.len() && front[earlier[j] as int] == outputs[earlier[j] as int] by {}
        lemma_value_at_same(front, outputs, earlier);
        let after = spec_gathered_in(gathered, outputs, hash, amount);
        assert(after >= before);
        if outputs.last().pub_key_hash == hash && before < amount {
            assert(taken == earlier.push((outputs.len() - 1) as usize));
            assert(taken.drop_last() =~= earlier);
            assert(taken.last() == (outputs.len() - 1) as usize);
            assert(outputs[taken.last() as int] == outputs.last());
            if after < u64::MAX {
                assert(after == before + outputs.last().value);
                assert(spec_value_at(outputs, taken) == spec_value_at(outputs, earlier)
                    + outputs.last().value);
            }
            assert forall|j: int| 0 <= j < taken.len() implies (#[trigger] taken[j]) < outputs.len()
                && outputs[taken[j] as int].pub_key_hash == hash by {
                if j < earlier.len() {
                    assert(taken[j] == earlier[j]);
                }
            }
        } else {
            assert(taken == earlier);
            assert forall|j: int| 0 <= j < taken.len() implies (#[trigger] taken[j]) < outputs.len()
                && outputs[taken[j] as int].pub_key_hash == hash by {
                assert(taken[j] == earlier[j]);
            }
        }
    }
}

/// The sum of the values that inputs name is the sum over the first and the
/// sum over the rest.
proof fn lemma_input_sum_concat(chain: Seq<BlockModel>, a: Seq<InputModel>, b: Seq<InputModel>)
    ensures
        spec_input_sum(chain, a + b) == spec_input_sum(chain, a) + spec_input_sum(chain, b),
    decreases b.len(),
{
    if b.len() == 0 {
        assert(a + b =~= a);
    } else {
        assert((a + b).drop_last() =~= a + b.drop_last());
        assert((a + b).last() == b.last());
        lemma_input_sum_concat(chain, a, b.drop_last());
    }
}

/// Whether an input of a spend is in order against the chain: it carries the
/// key, and it names an output of the chain that is locked to the hash of
/// the key and that the chain has not spent.
pub open spec fn spec_input_in_order(
    chain: Seq<BlockModel>,
    input: InputModel,
    hash: Seq<u8>,
    key: Seq<u8>,
) -> bool {
    &&& input.pub_key == key
    &&& spec_find_transaction(chain, input.txid) is Some
    &&& !spec_is_output_spent(chain, input.txid, input.vout)
    &&& match spec_referenced_output(chain, input) {
        Some(output) => output.pub_key_hash == hash,
        None => false,
    }
}

/// The inputs of one selection from a record that shows the chain are in
/// order, and the values that they name are those at the places taken.
proof fn lemma_selection_in_order(
    chain: Seq<BlockModel>,
    record: RecordModel,
    places: Seq<usize>,
    hash: Seq<u8>,
    key: Seq<u8>,
)
    requires
        spec_record_shown(chain, record),
        forall|j: int|
            0 <= j < places.len() ==> (#[trigger] places[j]) < record.outputs.len()
                && record.outputs[places[j] as int].pub_key_hash == hash,
    ensures
        spec_input_sum(
            chain,
            spec_inputs_of_selection(SelectionModel { txid: record.txid, vouts: places }, key),
        ) == spec_value_at(record.outputs, places),
        forall|i: int|
            0 <= i < places.len() ==> spec_input_in_order(
                chain,
                #[trigger] spec_inputs_of_selection(
                    SelectionModel { txid: record.txid, vouts: places },
                    key,
                )[i],
                hash,
                key,
            ),
    decreases places.len(),
{
    let inputs = spec_inputs_of_selection(SelectionModel { txid: record.txid, vouts: places }, key);
    if places.len() > 0 {
        let front = places.drop_last();
        let earlier = spec_inputs_of_selection(
            SelectionModel { txid: record.txid, vouts: front },
            key,
        );
        assert forall|j: int| 0 <= j < front.len() implies (#[trigger] front[j])
            < record.outputs.len() && record.outputs[front[j] as int].pub_key_hash == hash by {
            assert(front[j] == places[j]);
        }
        lemma_selection_in_order(chain, record, front, hash, key);
        assert(inputs.drop_last() =~= earlier);
        let last = places[places.len() - 1];
        assert(inputs.last().txid == record.txid && inputs.last().vout == last);
        assert(!spec_is_output_spent(chain, record.txid, (last as int) as usize));
        assert forall|i: int| 0 <= i < places.len() implies spec_input_in_order(
            chain,
            #[trigger] inputs[i],
            hash,
            key,
        ) by {
            let place = places[i];
            assert(inputs[i].txid == record.txid && inputs[i].vout == place);
            assert(!spec_is_output_spent(chain, record.txid, (place as int) as usize));
        }
    }
}

/// The inputs that are selected from an index which shows the chain are in
/// order; and, unless the amount gathered ran into the largest number of 64
/// bits, the values that they name are what was gathered.
proof fn lemma_selected_in_order(
    chain: Seq<BlockModel>,
    records: Seq<RecordModel>,
    hash: Seq<u8>,
    key: Seq<u8>,
    amount: u64,
)
    requires
        spec_index_shows_chain(chain, records),
    ensures
        forall|i: int|
            0 <= i < spec_inputs_of(spec_selected(records, hash, amount), key).len()
                ==> spec_input_in_order(
                chain,
                #[trigger] spec_inputs_of(spec_selected(records, hash, amount), key)[i],
                hash,
                key,
            ),
        spec_gathered(records, hash, amount) < u64::MAX ==> spec_input_sum(
            chain,
            spec_inputs_of(spec_selected(records, hash, amount), key),
        ) == spec_gathered(records, hash, amount),
    decreases records.len(),
{
    let inputs = spec_inputs_of(spec_selected(records, hash, amount), key);
    if records.len() == 0 {
        assert(inputs =~= Seq::<InputModel>::empty());
    } else {
        let front = records.drop_last();
        let record = records.last();
        assert forall|r: int| 0 <= r < front.len() implies spec_record_shown(
            chain,
            #[trigger] front[r],
        ) by {
            assert(front[r] == records[r]);
        }
        assert(spec_record_shown(chain, records[records.len() - 1]));
        lemma_selected_in_order(chain, front, hash, key, amount);
        let before = spec_gathered(front, hash, amount);
        let earlier = spec_inputs_of(spec_selected(front, hash, amount), key);
        let taken = spec_taken_in(before, record.outputs, hash, amount);
        lemma_taken_in(before, record.outputs, hash, amount);
        lemma_selection_in_order(chain, record, taken, hash, key);
        let added = spec_inputs_of_selection(
            SelectionModel { txid: record.txid, vouts: taken },
            key,
        );
        if taken.len() > 0 {
            let selected = spec_selected(records, hash, amount);
            assert(selected.drop_last() =~= spec_selected(front, hash, amount));
            assert(inputs == earlier + added);
            lemma_input_sum_concat(chain, earlier, added);
            assert forall|i: int| 0 <= i < inputs.len() implies spec_input_in_order(
                chain,
                #[trigger] inputs[i],
                hash,
                key,
            ) by {
                if i < earlier.len() {
                    assert(inputs[i] == earlier[i]);
                } else {
                    assert(inputs[i] == added[i - earlier.len()]);
                }
            }
        } else {
            assert(inputs == earlier);
        }
    }
}

/// The sum of the values that inputs name depends on the outputs that they
/// name, not on keys and signatures.
proof fn lemma_input_sum_of_refs(chain: Seq<BlockModel>, a: Seq<InputModel>, b: Seq<InputModel>)
    requires
        a.len() == b.len(),
        forall|i: int|
            0 <= i < a.len() ==> (#[trigger] a[i]).txid == b[i].txid && a[i].vout == b[i].vout,
    ensures
        spec_input_sum(chain, a) == spec_input_sum(chain, b),
    decreases a.len(),
{
    if a.len() > 0 {
        let x = a.drop_last();
        let y = b.drop_last();
        assert forall|i: int| 0 <= i < x.len() implies (#[trigger] x[i]).txid == y[i].txid
            && x[i].vout == y[i].vout by {
            assert(x[i] == a[i] && y[i] == b[i]);
        }
        lemma_input_sum_of_refs(chain, x, y);
        assert(a.last() == a[a.len() - 1] && b.last() == b[b.len() - 1]);
        assert(a[a.len() - 1].txid == b[a.len() - 1].txid);
    }
}

/// A spend that is built verifies: where the index from which the outputs
/// were gathered shows the chain, the wallet of the sender is well formed,
/// and what was gathered is below the largest number of 64 bits, the spend
/// that was built and signed is valid against the main chain.
pub proof fn lemma_built_spend_verifies(
    out: Result<Transaction, BlockchainError>,
    from: Seq<char>,
    to: Seq<char>,
    amount: u64,
    fee_amount: u64,
    utxo_set: UTXOSet,
    wallets: Wallets,
)
    requires
        spec_spend_made(out, from, to, amount, fee_amount, utxo_set, wallets),
        out is Ok,
        wallets.spec_wallet(from) is Some ==> wallets.spec_wallet(from)->Some_0.wf(),
        spec_index_shows_chain(utxo_set@.main_chain(), utxo_set@.chainstate),
        wallets.spec_wallet(from) is Some ==> spec_gathered(
            utxo_set@.chainstate,
            spec_hash_pub_key(wallets.spec_wallet(from)->Some_0.spec_key()),
            (amount + fee_amount) as u64,
        ) < u64::MAX,
    ensures
        spec_verify(utxo_set@.main_chain(), out->Ok_0@),
        !out->Ok_0@.is_coinbase(),
{
    let chain = utxo_set@.main_chain();
    let records = utxo_set@.chainstate;
    let wallet = wallets.spec_wallet(from)->Some_0;
    let key = wallet.spec_key();
    let hash = spec_hash_pub_key(key);
    let needed = (amount + fee_amount) as u64;
    let gathered = spec_gathered(records, hash, needed);
    let unsigned = spec_planned_spend(from, to, amount, fee_amount, utxo_set, wallet);
    let signed = out->Ok_0@;
    let inputs = spec_inputs_of(spec_selected(records, hash, needed), key);
    assert(unsigned.vin == inputs);
    assert(spec_signed_form_of(signed, unsigned));
    lemma_selected_in_order(chain, records, hash, key, needed);
    lemma_input_sum_of_refs(chain, signed.vin, inputs);
    // the inputs name outputs of the chain that no block spends
    assert forall|i: int| 0 <= i < signed.vin.len() implies !spec_is_output_spent(
        chain,
        (#[trigger] signed.vin[i]).txid,
        signed.vin[i].vout,
    ) && spec_find_transaction(chain, signed.vin[i].txid) is Some && spec_referenced_output(
        chain,
        signed.vin[i],
    ) is Some by {
        assert(spec_input_in_order(chain, inputs[i], hash, key));
        assert(spec_referenced_output(chain, signed.vin[i]) == spec_referenced_output(
            chain,
            inputs[i],
        ));
    }
    assert(signed.vin.len() > 0) by {
        if signed.vin.len() == 0 {
            assert(spec_input_sum(chain, inputs) == 0);
        }
    }
    assert(signed.vin[0].pub_key == key);
    assert(!signed.is_coinbase());
    assert(spec_inputs_spendable(chain, signed));
    // the values balance
    let change = (gathered - needed) as u64;
    assert(signed.vout == unsigned.vout);
    reveal_with_fuel(sum_values, 3);
    if change > 0 {
        assert(unsigned.vout.drop_last() =~= seq![unsigned.vout[0]]);
        assert(unsigned.vout.drop_last().drop_last() =~= Seq::<OutputModel>::empty());
        assert(sum_values(unsigned.vout.drop_last()) == amount);
        assert(sum_values(unsigned.vout) == amount + change);
    } else {
        assert(unsigned.vout.drop_last() =~= Seq::<OutputModel>::empty());
        assert(sum_values(unsigned.vout) == amount);
    }
    assert(spec_inputs_resolve(chain, signed.vin));
    assert(spec_balanced(chain, signed));
    // each input is signed by the owner of the output it spends
    assert forall|i: int| 0 <= i < signed.vin.len() implies #[trigger] spec_input_signed(
        chain,
        signed,
        i,
    ) by {
        assert(spec_input_in_order(chain, inputs[i], hash, key));
        assert(spec_referenced_output(chain, signed.vin[i]) == spec_referenced_output(
            chain,
            inputs[i],
        ));
        assert(spec_input_signed_with(chain, signed, wallet.spec_pkcs8(), i));
    }
}

} // verus!
