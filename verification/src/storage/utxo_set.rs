//! The UTXO index: for each transaction the outputs that are left, kept up
//! with the chain block by block or rebuilt from the whole chain.

use crate::chain::block::{Block, BlockModel};
use crate::chain::blockchain::{
    copy_records, find_record_index, put_record, record_models, remove_record, spec_find_utxo,
    spec_get_record, spec_put_record, spec_remove_record, Blockchain, ChainModel, RecordModel,
    UtxoRecord,
};
use crate::chain::transaction::{
    copy_outputs,
    input_models,
    lemma_sum_values_grows,
    output_models,
    sum_values,
    transaction_models,
    InputModel,
    OutputModel,
    TXInput,
    TXOutput,
    TransactionModel,
};
use crate::error::{owned, BlockchainError};
use crate::utils::crypto::{hex_encode, spec_hex_encode};
use vstd::prelude::*;

verus! {

/// The name of the subspace of the store that holds the index.
pub const UTXO_TREE: &'static str = "chainstate";

/// The outputs of one transaction that a spend takes.
pub struct SpendableOutputs {
    /// Identifier of the transaction.
    pub txid: Vec<u8>,
    /// The identifier in hexadecimal.
    pub txid_hex: String,
    /// The places of the outputs in the record of the transaction.
    pub vouts: Vec<usize>,
}

/// What a selection is: a transaction and places in its record.
pub struct SelectionModel {
    pub txid: Seq<u8>,
    pub vouts: Seq<usize>,
}

impl View for SpendableOutputs {
    type V = SelectionModel;

    open spec fn view(&self) -> SelectionModel {
        SelectionModel { txid: self.txid@, vouts: self.vouts@ }
    }
}

/// The selections of a list.
pub open spec fn selection_models(list: Seq<SpendableOutputs>) -> Seq<SelectionModel> {
    list.map_values(|s: SpendableOutputs| s@)
}

/// An amount plus a value, kept within 64 bits.
pub open spec fn spec_saturating_sum(amount: u64, value: u64) -> u64 {
    if amount + value > u64::MAX {
        u64::MAX
    } else {
        (amount + value) as u64
    }
}

/// The amount gathered after the outputs of one record were looked at: an
/// output counts where it is locked to the key hash and the amount asked for
/// is not yet reached.
pub open spec fn spec_gathered_in(
    gathered: u64,
    outputs: Seq<OutputModel>,
    pub_key_hash: Seq<u8>,
    amount: u64,
) -> u64
    decreases outputs.len(),
{
    if outputs.len() == 0 {
        gathered
    } else {
        let before = spec_gathered_in(gathered, outputs.drop_last(), pub_key_hash, amount);
        if outputs.last().pub_key_hash == pub_key_hash && before < amount {
            spec_saturating_sum(before, outputs.last().value)
        } else {
            before
        }
    }
}

/// The places of the outputs of one record that count.
pub open spec fn spec_taken_in(
    gathered: u64,
    outputs: Seq<OutputModel>,
    pub_key_hash: Seq<u8>,
    amount: u64,
) -> Seq<usize>
    decreases outputs.len(),
{
    if outputs.len() == 0 {
        Seq::empty()
    } else {
        let before = spec_gathered_in(gathered, outputs.drop_last(), pub_key_hash, amount);
        let taken = spec_taken_in(gathered, outputs.drop_last(), pub_key_hash, amount);
        if outputs.last().pub_key_hash == pub_key_hash && before < amount {
            taken.push((outputs.len() - 1) as usize)
        } else {
            taken
        }
    }
}

/// The amount gathered from the records, in the order of the store.
pub open spec fn spec_gathered(records: Seq<RecordModel>, pub_key_hash: Seq<u8>, amount: u64)
    -> u64
    decreases records.len(),
{
    if records.len() == 0 {
        0
    } else {
        spec_gathered_in(
            spec_gathered(records.drop_last(), pub_key_hash, amount),
            records.last().outputs,
            pub_key_hash,
            amount,
        )
    }
}

/// The selections made from the records, in the order of the store; a
/// record of which no output counts gives none.
pub open spec fn spec_selected(records: Seq<RecordModel>, pub_key_hash: Seq<u8>, amount: u64)
    -> Seq<SelectionModel>
    decreases records.len(),
{
    if records.len() == 0 {
        Seq::empty()
    } else {
        let before = spec_selected(records.drop_last(), pub_key_hash, amount);
        let taken = spec_taken_in(
            spec_gathered(records.drop_last(), pub_key_hash, amount),
            records.last().outputs,
            pub_key_hash,
            amount,
        );
        if taken.len() > 0 {
            before.push(SelectionModel { txid: records.last().txid, vouts: taken })
        } else {
            before
        }
    }
}

/// The outputs of a list that are locked to a key hash.
pub open spec fn spec_locked_in(outputs: Seq<OutputModel>, pub_key_hash: Seq<u8>) -> Seq<
    OutputModel,
>
    decreases outputs.len(),
{
    if outputs.len() == 0 {
        Seq::empty()
    } else {
        let before = spec_locked_in(outputs.drop_last(), pub_key_hash);
        if outputs.last().pub_key_hash == pub_key_hash {
            before.push(outputs.last())
        } else {
            before
        }
    }
}

/// The outputs of all records that are locked to a key hash, in the order of
/// the store.
pub open spec fn spec_locked(records: Seq<RecordModel>, pub_key_hash: Seq<u8>) -> Seq<OutputModel>
    decreases records.len(),
{
    if records.len() == 0 {
        Seq::empty()
    } else {
        spec_locked(records.drop_last(), pub_key_hash) + spec_locked_in(
            records.last().outputs,
            pub_key_hash,
        )
    }
}

/// The index after one input was applied: the output at the place `vout` of
/// the record leaves (nothing leaves where the record is shorter), and a
/// record that is left empty is dropped. `None` where there is no record.
pub open spec fn spec_spend_input(records: Seq<RecordModel>, input: InputModel) -> Option<
    Seq<RecordModel>,
> {
    match spec_get_record(records, input.txid) {
        None => None,
        Some(outputs) => {
            let left = if input.vout < outputs.len() {
                outputs.remove(input.vout as int)
            } else {
                outputs
            };
            if left.len() == 0 {
                Some(spec_remove_record(records, input.txid))
            } else {
                Some(spec_put_record(records, input.txid, left))
            }
        },
    }
}

/// The index after the inputs were applied in order.
pub open spec fn spec_spend_inputs(records: Seq<RecordModel>, inputs: Seq<InputModel>) -> Option<
    Seq<RecordModel>,
>
    decreases inputs.len(),
{
    if inputs.len() == 0 {
        Some(records)
    } else {
        match spec_spend_inputs(records, inputs.drop_last()) {
            Some(before) => spec_spend_input(before, inputs.last()),
            None => None,
        }
    }
}

/// The index after one transaction was applied: its inputs are spent, unless
/// it is a coinbase, and its outputs are written.
pub open spec fn spec_apply_transaction(records: Seq<RecordModel>, transaction: TransactionModel)
    -> Option<Seq<RecordModel>> {
    let spent = if transaction.is_coinbase() {
        Some(records)
    } else {
        spec_spend_inputs(records, transaction.vin)
    };
    match spent {
        Some(left) => Some(spec_put_record(left, transaction.id, transaction.vout)),
        None => None,
    }
}

/// The index after the transactions were applied in order.
pub open spec fn spec_apply_transactions(
    records: Seq<RecordModel>,
    transactions: Seq<TransactionModel>,
) -> Option<Seq<RecordModel>>
    decreases transactions.len(),
{
    if transactions.len() == 0 {
        Some(records)
    } else {
        match spec_apply_transactions(records, transactions.drop_last()) {
            Some(before) => spec_apply_transaction(before, transactions.last()),
            None => None,
        }
    }
}

/// The index after a block was applied; `None` where an input names a
/// transaction without a record.
pub open spec fn spec_apply_block(records: Seq<RecordModel>, block: BlockModel) -> Option<
    Seq<RecordModel>,
> {
    spec_apply_transactions(records, block.transactions)
}

/// An application that failed stays failed.
pub proof fn lemma_apply_stays_failed(
    records: Seq<RecordModel>,
    transactions: Seq<TransactionModel>,
    k: int,
)
    requires
        0 <= k <= transactions.len(),
        spec_apply_transactions(records, transactions.take(k)) is None,
    ensures
        spec_apply_transactions(records, transactions) is None,
    decreases transactions.len(),
{
    if k == transactions.len() {
        assert(transactions.take(k) =~= transactions);
    } else {
        assert(transactions.drop_last().take(k) =~= transactions.take(k));
        lemma_apply_stays_failed(records, transactions.drop_last(), k);
    }
}

/// Spending that failed stays failed.
pub proof fn lemma_spend_stays_failed(records: Seq<RecordModel>, inputs: Seq<InputModel>, k: int)
    requires
        0 <= k <= inputs.len(),
        spec_spend_inputs(records, inputs.take(k)) is None,
    ensures
        spec_spend_inputs(records, inputs) is None,
    decreases inputs.len(),
{
    if k == inputs.len() {
        assert(inputs.take(k) =~= inputs);
    } else {
        assert(inputs.drop_last().take(k) =~= inputs.take(k));
        lemma_spend_stays_failed(records, inputs.drop_last(), k);
    }
}

/// The UTXO index of a chain.
pub struct UTXOSet {
    blockchain: Blockchain,
}

impl View for UTXOSet {
    type V = ChainModel;

    closed spec fn view(&self) -> ChainModel {
        self.blockchain@
    }
}

impl UTXOSet {
    /// The index of `blockchain`.
    pub fn new(blockchain: Blockchain) -> (out: UTXOSet)
        ensures
            out@ == blockchain@,
    {
        UTXOSet { blockchain }
    }

    /// The chain.
    pub fn get_blockchain(&self) -> (out: &Blockchain)
        ensures
            out@ == self@,
    {
        &self.blockchain
    }

    /// Gives the chain back, with the index as it is now.
    pub fn into_blockchain(self) -> (out: Blockchain)
        ensures
            out@ == self@,
    {
        self.blockchain
    }

    /// Gathers outputs that are locked to `pub_key_hash` until `amount` is
    /// reached, going through the records in the order of the store. The
    /// result is the amount gathered (at most the largest amount that can be
    /// held) and, for each record that gave an output, the places taken.
    pub fn find_spendable_outputs(&self, pub_key_hash: &[u8], amount: u64) -> (out: (
        u64,
        Vec<SpendableOutputs>,
    ))
        ensures
            out.0 == spec_gathered(self@.chainstate, pub_key_hash@, amount),
            selection_models(out.1@) == spec_selected(self@.chainstate, pub_key_hash@, amount),
            forall|i: int|
                0 <= i < out.1@.len() ==> (#[trigger] out.1@[i]).txid_hex@ == spec_hex_encode(
                    out.1@[i].txid@,
                ),
    {
        let records = self.blockchain.get_chainstate();
        let ghost all = record_models(records@);
        let mut gathered: u64 = 0;
        let mut selected: Vec<SpendableOutputs> = Vec::new();
        let mut r: usize = 0;
        proof {
            assert(all.take(0) =~= Seq::<RecordModel>::empty());
            assert(selection_models(selected@) =~= Seq::<SelectionModel>::empty());
        }
        while r < records.len()
            invariant
                r <= records@.len(),
                all == record_models(records@),
                all.len() == records@.len(),
                gathered == spec_gathered(all.take(r as int), pub_key_hash@, amount),
                selection_models(selected@) == spec_selected(
                    all.take(r as int),
                    pub_key_hash@,
                    amount,
                ),
                forall|i: int|
                    0 <= i < selected@.len() ==> (#[trigger] selected@[i]).txid_hex@
                        == spec_hex_encode(selected@[i].txid@),
            decreases records@.len() - r,
        {
            let record = &records[r];
            let ghost outputs = output_models(record.outputs@);
            let ghost entry = gathered;
            let mut taken: Vec<usize> = Vec::new();
            let mut idx: usize = 0;
            proof {
                assert(all[r as int] == record@);
                assert(all.take(r + 1).drop_last() =~= all.take(r as int));
                assert(all.take(r + 1).last() == record@);
                assert(outputs.take(0) =~= Seq::<OutputModel>::empty());
            }
            while idx < record.outputs.len()
                invariant
                    idx <= record.outputs@.len(),
                    outputs == output_models(record.outputs@),
                    outputs.len() == record.outputs@.len(),
                    gathered == spec_gathered_in(entry, outputs.take(idx as int), pub_key_hash@, amount),
                    taken@ == spec_taken_in(entry, outputs.take(idx as int), pub_key_hash@, amount),
                decreases record.outputs@.len() - idx,
            {
                let out = &record.outputs[idx];
                proof {
                    assert(outputs.take(idx + 1).drop_last() =~= outputs.take(idx as int));
                    assert(outputs.take(idx + 1).last() == out@);
                }
                if out.is_locked_with_key(pub_key_hash) && gathered < amount {
                    gathered = match gathered.checked_add(out.get_value()) {
                        Some(sum) => sum,
                        None => u64::MAX,
                    };
                    taken.push(idx);
                }
                idx += 1;
            }
            proof {
                assert(outputs.take(outputs.len() as int) =~= outputs);
            }
            if taken.len() > 0 {
                let ghost before = selected@;
                let selection = SpendableOutputs {
                    txid: record.txid.clone(),
                    txid_hex: hex_encode(record.txid.as_slice()),
                    vouts: taken,
                };
                selected.push(selection);
                proof {
                    assert(selection_models(selected@) =~= selection_models(before).push(
                        SelectionModel { txid: record@.txid, vouts: taken@ },
                    ));
                }
            }
            r += 1;
        }
        proof {
            assert(all.take(all.len() as int) =~= all);
        }
        (gathered, selected)
    }

    /// As `find_spendable_outputs`; it never fails.
    pub fn find_spendable_outputs_safe(&self, pub_key_hash: &[u8], amount: u64) -> (out: Result<
        (u64, Vec<SpendableOutputs>),
        BlockchainError,
    >)
        ensures
            out is Ok,
            out->Ok_0.0 == spec_gathered(self@.chainstate, pub_key_hash@, amount),
            selection_models(out->Ok_0.1@) == spec_selected(self@.chainstate, pub_key_hash@, amount),
            forall|i: int|
                0 <= i < out->Ok_0.1@.len() ==> (#[trigger] out->Ok_0.1@[i]).txid_hex@
                    == spec_hex_encode(out->Ok_0.1@[i].txid@),
    {
        Ok(self.find_spendable_outputs(pub_key_hash, amount))
    }

    /// The outputs of the index that are locked to `pub_key_hash`, in the
    /// order of the store.
    pub fn find_utxo(&self, pub_key_hash: &[u8]) -> (out: Vec<TXOutput>)
        ensures
            output_models(out@) == spec_locked(self@.chainstate, pub_key_hash@),
    {
        let records = self.blockchain.get_chainstate();
        let ghost all = record_models(records@);
        let mut utxos: Vec<TXOutput> = Vec::new();
        let mut r: usize = 0;
        proof {
            assert(all.take(0) =~= Seq::<RecordModel>::empty());
            assert(output_models(utxos@) =~= Seq::<OutputModel>::empty());
        }
        while r < records.len()
            invariant
                r <= records@.len(),
                all == record_models(records@),
                all.len() == records@.len(),
                output_models(utxos@) == spec_locked(all.take(r as int), pub_key_hash@),
            decreases records@.len() - r,
        {
            let record = &records[r];
            let ghost outputs = output_models(record.outputs@);
            let ghost entry = output_models(utxos@);
            let mut idx: usize = 0;
            proof {
                assert(all[r as int] == record@);
                assert(all.take(r + 1).drop_last() =~= all.take(r as int));
                assert(all.take(r + 1).last() == record@);
                assert(outputs.take(0) =~= Seq::<OutputModel>::empty());
                assert(entry + spec_locked_in(outputs.take(0), pub_key_hash@) =~= entry);
            }
            while idx < record.outputs.len()
                invariant
                    idx <= record.outputs@.len(),
                    outputs == output_models(record.outputs@),
                    outputs.len() == record.outputs@.len(),
                    output_models(utxos@) == entry + spec_locked_in(
                        outputs.take(idx as int),
                        pub_key_hash@,
                    ),
                decreases record.outputs@.len() - idx,
            {
                let out = &record.outputs[idx];
                proof {
                    assert(outputs.take(idx + 1).drop_last() =~= outputs.take(idx as int));
                    assert(outputs.take(idx + 1).last() == out@);
                }
                if out.is_locked_with_key(pub_key_hash) {
                    let ghost before = utxos@;
                    utxos.push(out.clone());
                    proof {
                        assert(output_models(utxos@) =~= output_models(before).push(out@));
                        assert(entry + spec_locked_in(outputs.take(idx as int), pub_key_hash@).push(
                            out@,
                        ) =~= (entry + spec_locked_in(
                            outputs.take(idx as int),
                            pub_key_hash@,
                        )).push(out@));
                    }
                }
                idx += 1;
            }
            proof {
                assert(outputs.take(outputs.len() as int) =~= outputs);
            }
            r += 1;
        }
        proof {
            assert(all.take(all.len() as int) =~= all);
        }
        utxos
    }

    /// As `find_utxo`; it never fails.
    pub fn find_utxo_safe(&self, pub_key_hash: &[u8]) -> (out: Result<
        Vec<TXOutput>,
        BlockchainError,
    >)
        ensures
            out is Ok,
            output_models(out->Ok_0@) == spec_locked(self@.chainstate, pub_key_hash@),
    {
        Ok(self.find_utxo(pub_key_hash))
    }

    /// The balance of a key hash: the sum of the values of the outputs of
    /// the index that are locked with it, or `None` where the sum does not
    /// fit in 64 bits.
    pub fn get_balance(&self, pub_key_hash: &[u8]) -> (out: Option<u64>)
        ensures
            match out {
                Some(balance) => balance == sum_values(
                    spec_locked(self@.chainstate, pub_key_hash@),
                ),
                None => sum_values(spec_locked(self@.chainstate, pub_key_hash@)) > u64::MAX,
            },
    {
        let utxos = self.find_utxo(pub_key_hash);
        let ghost outputs = output_models(utxos@);
        let mut balance: u64 = 0;
        let mut i: usize = 0;
        assert(outputs.take(0) =~= Seq::<OutputModel>::empty());
        while i < utxos.len()
            invariant
                i <= utxos@.len(),
                outputs == output_models(utxos@),
                outputs.len() == utxos@.len(),
                outputs == spec_locked(self@.chainstate, pub_key_hash@),
                balance == sum_values(outputs.take(i as int)),
            decreases utxos@.len() - i,
        {
            proof {
                assert(outputs.take(i + 1).drop_last() =~= outputs.take(i as int));
                assert(outputs.take(i + 1).last() == utxos@[i as int]@);
            }
            match balance.checked_add(utxos[i].get_value()) {
                Some(sum) => { balance = sum; },
                None => {
                    proof {
                        lemma_sum_values_grows(outputs, i + 1);
                    }
                    return None;
                },
            }
            i += 1;
        }
        assert(outputs.take(outputs.len() as int) =~= outputs);
        Some(balance)
    }

    /// The number of records in the index.
    pub fn count_transactions(&self) -> (out: u64)
        ensures
            out == self@.chainstate.len(),
    {
        self.blockchain.get_chainstate().len() as u64
    }

    /// As `count_transactions`; it never fails.
    pub fn count_transactions_safe(&self) -> (out: Result<u64, BlockchainError>)
        ensures
            out is Ok,
            out->Ok_0 == self@.chainstate.len(),
    {
        Ok(self.count_transactions())
    }

    /// Rebuilds the index from the main chain.
    pub fn reindex(&mut self)
        ensures
            final(self)@ == (ChainModel {
                chainstate: spec_find_utxo(old(self)@.main_chain()),
                ..old(self)@
            }),
    {
        let utxo = self.blockchain.find_utxo();
        self.blockchain.set_chainstate(utxo);
    }

    /// As `reindex`; it never fails.
    pub fn reindex_safe(&mut self) -> (out: Result<(), BlockchainError>)
        ensures
            out is Ok,
            final(self)@ == (ChainModel {
                chainstate: spec_find_utxo(old(self)@.main_chain()),
                ..old(self)@
            }),
    {
        self.reindex();
        Ok(())
    }

    /// Applies `block` to the index; where that fails, the index stays as it
    /// was.
    pub fn update(&mut self, block: &Block)
        ensures
            final(self)@ == (ChainModel {
                chainstate: match spec_apply_block(old(self)@.chainstate, block@) {
                    Some(records) => records,
                    None => old(self)@.chainstate,
                },
                ..old(self)@
            }),
    {
        let _ = self.update_safe(block);
    }

    /// One input of a block, applied to the records.
    fn spend_input(records: &mut Vec<UtxoRecord>, input: &TXInput) -> (ok: bool)
        ensures
            match spec_spend_input(record_models(old(records)@), input@) {
                Some(after) => ok && record_models(final(records)@) == after,
                None => !ok && record_models(final(records)@) == record_models(old(records)@),
            },
    {
        let i = match find_record_index(records, input.get_txid()) {
            Some(i) => i,
            None => { return false; },
        };
        let ghost outputs = output_models(records@[i as int].outputs@);
        let mut updated_outs: Vec<TXOutput> = Vec::new();
        let vout = input.get_vout();
        let count = records[i].outputs.len();
        let mut idx: usize = 0;
        while idx < count
            invariant
                idx <= count,
                i < records@.len(),
                count == records@[i as int].outputs@.len(),
                outputs == output_models(records@[i as int].outputs@),
                records@ == old(records)@,
                output_models(updated_outs@) == (if vout < idx {
                    outputs.take(idx as int).remove(vout as int)
                } else {
                    outputs.take(idx as int)
                }),
            decreases count - idx,
        {
            if idx != vout {
                let ghost before = updated_outs@;
                updated_outs.push(records[i].outputs[idx].clone());
                proof {
                    assert(output_models(updated_outs@) =~= output_models(before).push(
                        outputs[idx as int],
                    ));
                    if vout < idx {
                        assert(outputs.take(idx + 1).remove(vout as int) =~= outputs.take(
                            idx as int,
                        ).remove(vout as int).push(outputs[idx as int]));
                    } else {
                        assert(outputs.take(idx + 1) =~= outputs.take(idx as int).push(
                            outputs[idx as int],
                        ));
                    }
                }
            } else {
                proof {
                    assert(outputs.take(idx + 1).remove(vout as int) =~= outputs.take(idx as int));
                }
            }
            idx += 1;
        }
        proof {
            assert(outputs.take(outputs.len() as int) =~= outputs);
        }
        if updated_outs.len() == 0 {
            remove_record(records, input.get_txid());
        } else {
            put_record(records, input.get_txid(), updated_outs);
        }
        true
    }

    /// Applies `block` to the index: for each transaction that is no
    /// coinbase the outputs that its inputs name leave their records, and for
    /// each transaction its outputs are written. `Database` where an input
    /// names a transaction without a record: then the index stays as it was.
    pub fn update_safe(&mut self, block: &Block) -> (out: Result<(), BlockchainError>)
        ensures
            match spec_apply_block(old(self)@.chainstate, block@) {
                Some(records) => out is Ok && final(self)@ == (ChainModel {
                    chainstate: records,
                    ..old(self)@
                }),
                None => out is Err && out->Err_0 is Database && final(self)@ == old(self)@,
            },
    {
        let mut records = copy_records(self.blockchain.get_chainstate().as_slice());
        let ghost start = self@.chainstate;
        let transactions = block.get_transactions();
        let ghost models = block@.transactions;
        let mut t: usize = 0;
        proof {
            assert(models.take(0) =~= Seq::<TransactionModel>::empty());
        }
        while t < transactions.len()
            invariant
                t <= transactions@.len(),
                start == old(self)@.chainstate,
                self@ == old(self)@,
                models == transaction_models(transactions@),
                models == block@.transactions,
                models.len() == transactions@.len(),
                spec_apply_transactions(start, models.take(t as int)) == Some(
                    record_models(records@),
                ),
            decreases transactions@.len() - t,
        {
            let tx = &transactions[t];
            let ghost entry = record_models(records@);
            proof {
                assert(models.take(t + 1).drop_last() =~= models.take(t as int));
                assert(models.take(t + 1).last() == tx@);
            }
            if !tx.is_coinbase() {
                let inputs = tx.get_vin();
                let ghost vin = tx@.vin;
                let mut i: usize = 0;
                proof {
                    assert(vin.take(0) =~= Seq::<InputModel>::empty());
                }
                while i < inputs.len()
                    invariant
                        i <= inputs@.len(),
                        vin == input_models(inputs@),
                        vin == tx@.vin,
                        vin.len() == inputs@.len(),
                        t < transactions@.len(),
                        models == block@.transactions,
                        models.len() == transactions@.len(),
                        models.take(t + 1).last() == tx@,
                        models.take(t + 1).drop_last() == models.take(t as int),
                        !tx@.is_coinbase(),
                        self@ == old(self)@,
                        start == old(self)@.chainstate,
                        spec_apply_transactions(start, models.take(t as int)) == Some(entry),
                        spec_spend_inputs(entry, vin.take(i as int)) == Some(
                            record_models(records@),
                        ),
                    decreases inputs@.len() - i,
                {
                    proof {
                        assert(vin.take(i + 1).drop_last() =~= vin.take(i as int));
                        assert(vin.take(i + 1).last() == inputs@[i as int]@);
                    }
                    if !Self::spend_input(&mut records, &inputs[i]) {
                        proof {
                            lemma_spend_stays_failed(entry, vin, i + 1);
                            lemma_apply_stays_failed(start, models, t + 1);
                        }
                        return Err(BlockchainError::Database(owned("UTXO not found")));
                    }
                    i += 1;
                }
                proof {
                    assert(vin.take(vin.len() as int) =~= vin);
                }
            }
            put_record(&mut records, tx.get_id(), copy_outputs(tx.get_vout()));
            t += 1;
        }
        proof {
            assert(models.take(models.len() as int) =~= models);
        }
        self.blockchain.set_chainstate(records);
        Ok(())
    }
}

} // verus!
