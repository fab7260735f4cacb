//! What holds of the records of the UTXO index, and of the index when a
//! block is applied to it a second time.

use crate::chain::block::BlockModel;
use crate::chain::blockchain::{
    lemma_record_index,
    spec_first_record_at,
    spec_get_record,
    spec_put_record,
    spec_record_absent,
    spec_record_index,
    RecordModel,
};
use crate::chain::transaction::{InputModel, OutputModel, TransactionModel};
use crate::storage::utxo_set::{spec_apply_block, spec_apply_transactions, spec_spend_inputs};
use vstd::prelude::*;

verus! {

/// Before a record of transaction `txid` at `k` there is a first one.
proof fn lemma_first_record_before(records: Seq<RecordModel>, txid: Seq<u8>, k: int) -> (i: int)
    requires
        0 <= k < records.len(),
        records[k].txid == txid,
    ensures
        spec_first_record_at(records, txid, i),
        i <= k,
    decreases k,
{
    if exists|j: int| 0 <= j < k && (#[trigger] records[j]).txid == txid {
        let j = choose|j: int| 0 <= j < k && (#[trigger] records[j]).txid == txid;
        lemma_first_record_before(records, txid, j)
    } else {
        k
    }
}

/// Where there is a record of transaction `txid`, the place of the first one
/// is what `spec_record_index` names.
pub proof fn lemma_record_present(records: Seq<RecordModel>, txid: Seq<u8>)
    requires
        !spec_record_absent(records, txid),
    ensures
        spec_first_record_at(records, txid, spec_record_index(records, txid)),
{
    let k = choose|k: int| 0 <= k < records.len() && (#[trigger] records[k]).txid == txid;
    let i = lemma_first_record_before(records, txid, k);
}

/// What was written for a transaction is what the index holds for it.
pub proof fn lemma_get_after_put(
    records: Seq<RecordModel>,
    txid: Seq<u8>,
    outputs: Seq<OutputModel>,
)
    ensures
        spec_get_record(spec_put_record(records, txid, outputs), txid) == Some(outputs),
{
    let after = spec_put_record(records, txid, outputs);
    if spec_record_absent(records, txid) {
        let i = records.len() as int;
        assert(after[i].txid == txid);
        assert forall|j: int| 0 <= j < i implies (#[trigger] after[j]).txid != txid by {
            assert(after[j] == records[j]);
        }
        lemma_record_index(after, txid, i);
    } else {
        lemma_record_present(records, txid);
        let i = spec_record_index(records, txid);
        assert(after[i].txid == txid);
        assert forall|j: int| 0 <= j < i implies (#[trigger] after[j]).txid != txid by {
            assert(after[j] == records[j]);
        }
        lemma_record_index(after, txid, i);
    }
}

/// Writing for one transaction leaves what the index holds for another.
pub proof fn lemma_get_after_put_other(
    records: Seq<RecordModel>,
    txid: Seq<u8>,
    outputs: Seq<OutputModel>,
    other: Seq<u8>,
)
    requires
        other != txid,
    ensures
        spec_get_record(spec_put_record(records, txid, outputs), other) == spec_get_record(
            records,
            other,
        ),
{
    let after = spec_put_record(records, txid, outputs);
    if !spec_record_absent(records, txid) {
        lemma_record_present(records, txid);
    }
    assert(after.len() >= records.len());
    assert forall|j: int| 0 <= j < records.len() implies ((#[trigger] after[j]).txid == other) == (
    records[j].txid == other) && (after[j].txid == other ==> after[j] == records[j]) by {}
    if spec_record_absent(records, other) {
        assert forall|j: int| 0 <= j < after.len() implies (#[trigger] after[j]).txid != other by {
            if j < records.len() {
                assert(records[j].txid != other);
                assert((after[j].txid == other) == (records[j].txid == other));
            }
        }
    } else {
        lemma_record_present(records, other);
        let i = spec_record_index(records, other);
        assert((after[i].txid == other) == (records[i].txid == other));
        assert(after[i] == records[i]);
        assert forall|j: int| 0 <= j < i implies (#[trigger] after[j]).txid != other by {
            assert(records[j].txid != other);
            assert((after[j].txid == other) == (records[j].txid == other));
        }
        lemma_record_index(after, other, i);
    }
}

/// Writing what the index holds already changes nothing.
pub proof fn lemma_put_what_is_there(
    records: Seq<RecordModel>,
    txid: Seq<u8>,
    outputs: Seq<OutputModel>,
)
    requires
        spec_get_record(records, txid) == Some(outputs),
    ensures
        spec_put_record(records, txid, outputs) == records,
{
    lemma_record_present(records, txid);
    let i = spec_record_index(records, txid);
    assert(records[i] == (RecordModel { txid, outputs }));
    assert(spec_put_record(records, txid, outputs) =~= records);
}

/// An input is past for an index when the index holds no record of the
/// transaction it names, or a record that is not empty and has no output at
/// the place it names.
pub open spec fn spec_input_is_past(records: Seq<RecordModel>, input: InputModel) -> bool {
    match spec_get_record(records, input.txid) {
        None => true,
        Some(outputs) => 0 < outputs.len() <= input.vout,
    }
}

/// The transactions are past for an index when the index holds for each of
/// them its outputs, and every input of those that are no coinbase is past.
pub open spec fn spec_transactions_are_past(
    records: Seq<RecordModel>,
    transactions: Seq<TransactionModel>,
) -> bool {
    &&& forall|t: int|
        0 <= t < transactions.len() ==> spec_get_record(records, (#[trigger] transactions[t]).id)
            == Some(transactions[t].vout)
    &&& forall|t: int, i: int|
        0 <= t < transactions.len() && !transactions[t].is_coinbase() && 0 <= i
            < transactions[t].vin.len() ==> spec_input_is_past(
            records,
            #[trigger] transactions[t].vin[i],
        )
}

/// Inputs that are past are rejected or take nothing.
pub proof fn lemma_past_inputs_take_nothing(records: Seq<RecordModel>, inputs: Seq<InputModel>)
    requires
        forall|i: int| 0 <= i < inputs.len() ==> spec_input_is_past(records, #[trigger] inputs[i]),
    ensures
        spec_spend_inputs(records, inputs) is None || spec_spend_inputs(records, inputs) == Some(
            records,
        ),
    decreases inputs.len(),
{
    if inputs.len() > 0 {
        let front = inputs.drop_last();
        assert forall|i: int| 0 <= i < front.len() implies spec_input_is_past(
            records,
            #[trigger] front[i],
        ) by {
            assert(front[i] == inputs[i]);
        }
        lemma_past_inputs_take_nothing(records, front);
        if spec_spend_inputs(records, front) is Some {
            let input = inputs.last();
            assert(input == inputs[inputs.len() - 1]);
            assert(spec_input_is_past(records, input));
            match spec_get_record(records, input.txid) {
                None => {},
                Some(outputs) => {
                    lemma_put_what_is_there(records, input.txid, outputs);
                },
            }
        }
    }
}

/// Applying a block a second time: where the transactions of the block are
/// past for the index that its first application left, the second is
/// rejected or leaves that index as it is.
pub proof fn lemma_block_applies_once(records: Seq<RecordModel>, block: BlockModel)
    requires
        spec_apply_block(records, block) is Some,
        spec_transactions_are_past(spec_apply_block(records, block)->Some_0, block.transactions),
    ensures
        spec_apply_block(spec_apply_block(records, block)->Some_0, block) is None
            || spec_apply_block(spec_apply_block(records, block)->Some_0, block)
            == spec_apply_block(records, block),
{
    lemma_past_block_changes_nothing(spec_apply_block(records, block)->Some_0, block);
}

/// A block whose transactions are past for an index is rejected by it or
/// leaves it as it is.
pub proof fn lemma_past_block_changes_nothing(records: Seq<RecordModel>, block: BlockModel)
    requires
        spec_transactions_are_past(records, block.transactions),
    ensures
        spec_apply_block(records, block) is None || spec_apply_block(records, block) == Some(
            records,
        ),
{
    lemma_past_transactions_change_nothing(records, block.transactions);
}

/// Transactions that are past for an index are rejected by it or leave it
/// as it is.
pub proof fn lemma_past_transactions_change_nothing(
    records: Seq<RecordModel>,
    transactions: Seq<TransactionModel>,
)
    requires
        spec_transactions_are_past(records, transactions),
    ensures
        spec_apply_transactions(records, transactions) is None || spec_apply_transactions(
            records,
            transactions,
        ) == Some(records),
    decreases transactions.len(),
{
    if transactions.len() > 0 {
        let front = transactions.drop_last();
        let last = transactions.last();
        assert(spec_transactions_are_past(records, front)) by {
            assert forall|t: int| 0 <= t < front.len() implies spec_get_record(
                records,
                (#[trigger] front[t]).id,
            ) == Some(front[t].vout) by {
                assert(front[t] == transactions[t]);
            }
            assert forall|t: int, i: int|
                0 <= t < front.len() && !front[t].is_coinbase() && 0 <= i
                    < front[t].vin.len() implies spec_input_is_past(
                records,
                #[trigger] front[t].vin[i],
            ) by {
                assert(front[t] == transactions[t]);
                assert(spec_input_is_past(records, transactions[t].vin[i]));
            }
        }
        lemma_past_transactions_change_nothing(records, front);
        if spec_apply_transactions(records, front) is Some {
            let n = transactions.len() - 1;
            assert(last == transactions[n]);
            if !last.is_coinbase() {
                assert forall|i: int| 0 <= i < last.vin.len() implies spec_input_is_past(
                    records,
                    #[trigger] last.vin[i],
                ) by {
                    assert(spec_input_is_past(records, transactions[n].vin[i]));
                }
                lemma_past_inputs_take_nothing(records, last.vin);
            }
            assert(spec_get_record(records, transactions[n].id) == Some(transactions[n].vout));
            lemma_put_what_is_there(records, last.id, last.vout);
        }
    }
}

/// Every transaction of the list is a coinbase, and no two have the same
/// identifier.
pub open spec fn spec_distinct_coinbases(transactions: Seq<TransactionModel>) -> bool {
    &&& forall|t: int| 0 <= t < transactions.len() ==> (#[trigger] transactions[t]).is_coinbase()
    &&& forall|t: int, u: int|
        0 <= t < u < transactions.len() ==> (#[trigger] transactions[t]).id != (
        #[trigger] transactions[u]).id
}

/// Coinbases are never rejected, and after them the index holds for each its
/// outputs and for every other transaction what it held before.
pub proof fn lemma_coinbases_are_written(
    records: Seq<RecordModel>,
    transactions: Seq<TransactionModel>,
)
    requires
        spec_distinct_coinbases(transactions),
    ensures
        spec_apply_transactions(records, transactions) is Some,
        forall|t: int|
            0 <= t < transactions.len() ==> spec_get_record(
                spec_apply_transactions(records, transactions)->Some_0,
                (#[trigger] transactions[t]).id,
            ) == Some(transactions[t].vout),
        forall|txid: Seq<u8>|
            (forall|t: int| 0 <= t < transactions.len() ==> (#[trigger] transactions[t]).id != txid)
                ==> #[trigger] spec_get_record(
                spec_apply_transactions(records, transactions)->Some_0,
                txid,
            ) == spec_get_record(records, txid),
    decreases transactions.len(),
{
    if transactions.len() > 0 {
        let front = transactions.drop_last();
        let last = transactions.last();
        let n = transactions.len() - 1;
        assert(last == transactions[n]);
        assert(spec_distinct_coinbases(front)) by {
            assert forall|t: int| 0 <= t < front.len() implies (#[trigger] front[t]).is_coinbase() by {
                assert(front[t] == transactions[t]);
            }
            assert forall|t: int, u: int| 0 <= t < u < front.len() implies (#[trigger] front[t]).id
                != (#[trigger] front[u]).id by {
                assert(front[t] == transactions[t]);
                assert(front[u] == transactions[u]);
            }
        }
        lemma_coinbases_are_written(records, front);
        let before = spec_apply_transactions(records, front)->Some_0;
        let after = spec_put_record(before, last.id, last.vout);
        assert(spec_apply_transactions(records, transactions) == Some(after));
        lemma_get_after_put(before, last.id, last.vout);
        assert forall|t: int| 0 <= t < transactions.len() implies spec_get_record(
            after,
            (#[trigger] transactions[t]).id,
        ) == Some(transactions[t].vout) by {
            if t < n {
                assert(front[t] == transactions[t]);
                assert(transactions[t].id != transactions[n].id);
                lemma_get_after_put_other(before, last.id, last.vout, transactions[t].id);
            }
        }
        assert forall|txid: Seq<u8>|
            (forall|t: int|
                0 <= t < transactions.len() ==> (#[trigger] transactions[t]).id
                    != txid) implies #[trigger] spec_get_record(after, txid) == spec_get_record(
            records,
            txid,
        ) by {
            assert(transactions[n].id != txid);
            lemma_get_after_put_other(before, last.id, last.vout, txid);
            assert forall|t: int| 0 <= t < front.len() implies (#[trigger] front[t]).id != txid by {
                assert(front[t] == transactions[t]);
            }
        }
    }
}

/// Applying a block that spends nothing a second time: a block of
/// coinbases with identifiers of their own, applied to the index that its
/// first application left, leaves that index as it is.
pub proof fn lemma_coinbase_block_applies_once(records: Seq<RecordModel>, block: BlockModel)
    requires
        spec_distinct_coinbases(block.transactions),
    ensures
        spec_apply_block(records, block) is Some,
        spec_apply_block(spec_apply_block(records, block)->Some_0, block) == spec_apply_block(
            records,
            block,
        ),
{
    lemma_coinbases_are_written(records, block.transactions);
    let once = spec_apply_block(records, block)->Some_0;
    lemma_coinbases_are_written(once, block.transactions);
    assert(spec_transactions_are_past(once, block.transactions));
    lemma_past_transactions_change_nothing(once, block.transactions);
}

} // verus!
