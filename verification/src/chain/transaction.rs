//! Transactions in the UTXO model: inputs spend earlier outputs, outputs lock
//! value to a key hash, and the identifier is the hash of the encoding.

use crate::error::{owned, BlockchainError};
use crate::utils::crypto::{sha256_digest, spec_sha256};
use crate::utils::serialization::{
    decode_bytes,
    decode_u64,
    encode_bytes,
    encode_u64,
    lemma_bytes_round_trip,
    lemma_encode_items_step,
    lemma_encode_u64_len,
    lemma_join4,
    lemma_parse_items_fails_on,
    lemma_list_round_trip,
    lemma_u64_round_trip,
    spec_encode_bytes,
    spec_encode_items,
    spec_encode_list,
    spec_encode_u64,
    spec_parse_bytes,
    spec_parse_items,
    spec_parse_list,
    spec_parse_u64,
};
use crate::wallet::wallet::{address_key_hash, spec_address_key_hash, spec_validate_address};
use vstd::prelude::*;

verus! {

/// What an input is: the output it spends, the signature and the public key.
pub struct InputModel {
    pub txid: Seq<u8>,
    pub vout: usize,
    pub signature: Seq<u8>,
    pub pub_key: Seq<u8>,
}

/// What an output is: a value locked to a key hash.
pub struct OutputModel {
    pub value: u64,
    pub pub_key_hash: Seq<u8>,
}

/// What a transaction is.
pub struct TransactionModel {
    pub id: Seq<u8>,
    pub vin: Seq<InputModel>,
    pub vout: Seq<OutputModel>,
    pub fee: u64,
}

impl InputModel {
    /// Every field can be held in memory.
    pub open spec fn wf(self) -> bool {
        self.txid.len() <= usize::MAX && self.signature.len() <= usize::MAX && self.pub_key.len()
            <= usize::MAX
    }

    /// The encoding: identifier, index, signature, public key.
    pub open spec fn encoding(self) -> Seq<u8> {
        spec_encode_bytes(self.txid) + spec_encode_u64(self.vout as u64) + spec_encode_bytes(
            self.signature,
        ) + spec_encode_bytes(self.pub_key)
    }

    /// Reads an input from the front of `bytes`.
    pub open spec fn parse(bytes: Seq<u8>) -> Option<(InputModel, Seq<u8>)> {
        match spec_parse_bytes(bytes) {
            Some((txid, r1)) => match spec_parse_u64(r1) {
                Some((vout, r2)) => if vout <= usize::MAX {
                    match spec_parse_bytes(r2) {
                        Some((signature, r3)) => match spec_parse_bytes(r3) {
                            Some((pub_key, r4)) => Some(
                                (InputModel { txid, vout: vout as usize, signature, pub_key }, r4),
                            ),
                            None => None,
                        },
                        None => None,
                    }
                } else {
                    None
                },
                None => None,
            },
            None => None,
        }
    }

    /// Reading an encoded input gives it back.
    pub proof fn lemma_round_trip(self, rest: Seq<u8>)
        requires
            self.wf(),
        ensures
            InputModel::parse(self.encoding() + rest) == Some((self, rest)),
    {
        let e1 = spec_encode_bytes(self.txid);
        let e2 = spec_encode_u64(self.vout as u64);
        let e3 = spec_encode_bytes(self.signature);
        let e4 = spec_encode_bytes(self.pub_key);
        let r3 = e4 + rest;
        let r2 = e3 + r3;
        let r1 = e2 + r2;
        lemma_join4(e1, e2, e3, e4, rest);
        assert(spec_parse_bytes(e1 + r1) == Some((self.txid, r1))) by {
            lemma_bytes_round_trip(self.txid, r1);
        }
        assert(spec_parse_u64(r1) == Some((self.vout as u64, r2))) by {
            lemma_u64_round_trip(self.vout as u64, r2);
        }
        assert(spec_parse_bytes(r2) == Some((self.signature, r3))) by {
            lemma_bytes_round_trip(self.signature, r3);
        }
        assert(spec_parse_bytes(r3) == Some((self.pub_key, rest))) by {
            lemma_bytes_round_trip(self.pub_key, rest);
        }
    }

    /// The way inputs are written in a list.
    pub open spec fn encoder() -> spec_fn(InputModel) -> Seq<u8> {
        |m: InputModel| m.encoding()
    }

    /// The way inputs are read from a list.
    pub open spec fn parser() -> spec_fn(Seq<u8>) -> Option<(InputModel, Seq<u8>)> {
        |bytes: Seq<u8>| InputModel::parse(bytes)
    }
}

impl OutputModel {
    /// The key hash can be held in memory.
    pub open spec fn wf(self) -> bool {
        self.pub_key_hash.len() <= usize::MAX
    }

    /// The encoding: value, key hash.
    pub open spec fn encoding(self) -> Seq<u8> {
        spec_encode_u64(self.value) + spec_encode_bytes(self.pub_key_hash)
    }

    /// Reads an output from the front of `bytes`.
    pub open spec fn parse(bytes: Seq<u8>) -> Option<(OutputModel, Seq<u8>)> {
        match spec_parse_u64(bytes) {
            Some((value, r1)) => match spec_parse_bytes(r1) {
                Some((pub_key_hash, r2)) => Some((OutputModel { value, pub_key_hash }, r2)),
                None => None,
            },
            None => None,
        }
    }

    /// Reading an encoded output gives it back.
    pub proof fn lemma_round_trip(self, rest: Seq<u8>)
        requires
            self.wf(),
        ensures
            OutputModel::parse(self.encoding() + rest) == Some((self, rest)),
    {
        let e2 = spec_encode_bytes(self.pub_key_hash);
        lemma_u64_round_trip(self.value, e2 + rest);
        lemma_bytes_round_trip(self.pub_key_hash, rest);
        assert(self.encoding() + rest =~= spec_encode_u64(self.value) + (e2 + rest));
    }

    /// The way outputs are written in a list.
    pub open spec fn encoder() -> spec_fn(OutputModel) -> Seq<u8> {
        |m: OutputModel| m.encoding()
    }

    /// The way outputs are read from a list.
    pub open spec fn parser() -> spec_fn(Seq<u8>) -> Option<(OutputModel, Seq<u8>)> {
        |bytes: Seq<u8>| OutputModel::parse(bytes)
    }
}

/// The encoding of a list of outputs, as the UTXO index stores it.
pub open spec fn spec_encode_outputs(outputs: Seq<OutputModel>) -> Seq<u8> {
    spec_encode_list(outputs, OutputModel::encoder())
}

/// Reads a list of outputs from the front of `bytes`.
pub open spec fn spec_parse_outputs(bytes: Seq<u8>) -> Option<(Seq<OutputModel>, Seq<u8>)> {
    spec_parse_list(bytes, OutputModel::parser())
}

/// Every output of the list can be held in memory, and so can the list.
pub open spec fn outputs_wf(outputs: Seq<OutputModel>) -> bool {
    outputs.len() <= usize::MAX && forall|i: int| 0 <= i < outputs.len() ==> outputs[i].wf()
}

/// Every input of the list can be held in memory, and so can the list.
pub open spec fn inputs_wf(inputs: Seq<InputModel>) -> bool {
    inputs.len() <= usize::MAX && forall|i: int| 0 <= i < inputs.len() ==> inputs[i].wf()
}

/// Reading an encoded list of outputs gives it back.
pub proof fn lemma_outputs_round_trip(outputs: Seq<OutputModel>, rest: Seq<u8>)
    requires
        outputs_wf(outputs),
    ensures
        spec_parse_outputs(spec_encode_outputs(outputs) + rest) == Some((outputs, rest)),
{
    assert forall|i: int, r: Seq<u8>| 0 <= i < outputs.len() implies #[trigger] (
    OutputModel::parser())((OutputModel::encoder())(outputs[i]) + r) == Some((outputs[i], r)) by {
        outputs[i].lemma_round_trip(r);
    }
    lemma_list_round_trip(outputs, rest, OutputModel::encoder(), OutputModel::parser());
}

/// Reading an encoded list of inputs gives it back.
pub proof fn lemma_inputs_round_trip(inputs: Seq<InputModel>, rest: Seq<u8>)
    requires
        inputs_wf(inputs),
    ensures
        spec_parse_list(spec_encode_list(inputs, InputModel::encoder()) + rest, InputModel::parser())
            == Some((inputs, rest)),
{
    assert forall|i: int, r: Seq<u8>| 0 <= i < inputs.len() implies #[trigger] (
    InputModel::parser())((InputModel::encoder())(inputs[i]) + r) == Some((inputs[i], r)) by {
        inputs[i].lemma_round_trip(r);
    }
    lemma_list_round_trip(inputs, rest, InputModel::encoder(), InputModel::parser());
}

impl TransactionModel {
    /// Every part can be held in memory.
    pub open spec fn wf(self) -> bool {
        self.id.len() <= usize::MAX && inputs_wf(self.vin) && outputs_wf(self.vout)
    }

    /// The encoding: identifier, inputs, outputs, fee.
    pub open spec fn encoding(self) -> Seq<u8> {
        spec_encode_bytes(self.id) + spec_encode_list(self.vin, InputModel::encoder())
            + spec_encode_outputs(self.vout) + spec_encode_u64(self.fee)
    }

    /// Reads a transaction from the front of `bytes`.
    pub open spec fn parse(bytes: Seq<u8>) -> Option<(TransactionModel, Seq<u8>)> {
        match spec_parse_bytes(bytes) {
            Some((id, r1)) => match spec_parse_list(r1, InputModel::parser()) {
                Some((vin, r2)) => match spec_parse_outputs(r2) {
                    Some((vout, r3)) => match spec_parse_u64(r3) {
                        Some((fee, r4)) => Some((TransactionModel { id, vin, vout, fee }, r4)),
                        None => None,
                    },
                    None => None,
                },
                None => None,
            },
            None => None,
        }
    }

    /// Reading an encoded transaction gives it back, whatever follows it.
    pub proof fn lemma_round_trip(self, rest: Seq<u8>)
        requires
            self.wf(),
        ensures
            TransactionModel::parse(self.encoding() + rest) == Some((self, rest)),
    {
        let e1 = spec_encode_bytes(self.id);
        let e2 = spec_encode_list(self.vin, InputModel::encoder());
        let e3 = spec_encode_outputs(self.vout);
        let e4 = spec_encode_u64(self.fee);
        let r3 = e4 + rest;
        let r2 = e3 + r3;
        let r1 = e2 + r2;
        lemma_join4(e1, e2, e3, e4, rest);
        assert(spec_parse_bytes(e1 + r1) == Some((self.id, r1))) by {
            lemma_bytes_round_trip(self.id, r1);
        }
        assert(spec_parse_list(r1, InputModel::parser()) == Some((self.vin, r2))) by {
            lemma_inputs_round_trip(self.vin, r2);
        }
        assert(spec_parse_outputs(r2) == Some((self.vout, r3))) by {
            lemma_outputs_round_trip(self.vout, r3);
        }
        assert(spec_parse_u64(r3) == Some((self.fee, rest))) by {
            lemma_u64_round_trip(self.fee, rest);
        }
    }

    /// The way transactions are written in a list.
    pub open spec fn encoder() -> spec_fn(TransactionModel) -> Seq<u8> {
        |m: TransactionModel| m.encoding()
    }

    /// The way transactions are read from a list.
    pub open spec fn parser() -> spec_fn(Seq<u8>) -> Option<(TransactionModel, Seq<u8>)> {
        |bytes: Seq<u8>| TransactionModel::parse(bytes)
    }

    /// The identifier that the transaction ought to have: SHA-256 of its
    /// encoding with the identifier left empty.
    pub open spec fn hash(self) -> Seq<u8> {
        spec_sha256(TransactionModel { id: Seq::empty(), ..self }.encoding())
    }

    /// Exactly one input, and that one without a public key.
    pub open spec fn is_coinbase(self) -> bool {
        self.vin.len() == 1 && self.vin[0].pub_key.len() == 0
    }

    /// The sum of the output values.
    pub open spec fn output_sum(self) -> int {
        sum_values(self.vout)
    }
}

/// The sum of the values of a list of outputs.
pub open spec fn sum_values(outputs: Seq<OutputModel>) -> int
    decreases outputs.len(),
{
    if outputs.len() == 0 {
        0
    } else {
        sum_values(outputs.drop_last()) + outputs.last().value
    }
}

/// An input: a reference to an output of an earlier transaction, with the
/// signature and the public key of the spender.
#[derive(Debug)]
pub struct TXInput {
    txid: Vec<u8>,
    vout: usize,
    signature: Vec<u8>,
    pub_key: Vec<u8>,
}

impl View for TXInput {
    type V = InputModel;

    closed spec fn view(&self) -> InputModel {
        InputModel {
            txid: self.txid@,
            vout: self.vout,
            signature: self.signature@,
            pub_key: self.pub_key@,
        }
    }
}

impl Clone for TXInput {
    fn clone(&self) -> (out: Self)
        ensures
            out@ == self@,
    {
        TXInput {
            txid: self.txid.clone(),
            vout: self.vout,
            signature: self.signature.clone(),
            pub_key: self.pub_key.clone(),
        }
    }
}

impl TXInput {
    /// An unsigned input that spends output `vout` of transaction `txid`.
    pub fn new(txid: &[u8], vout: usize) -> (out: TXInput)
        ensures
            out@ == (InputModel {
                txid: txid@,
                vout,
                signature: Seq::empty(),
                pub_key: Seq::empty(),
            }),
    {
        TXInput {
            txid: vstd::slice::slice_to_vec(txid),
            vout,
            signature: Vec::new(),
            pub_key: Vec::new(),
        }
    }

    /// An input made of its four parts.
    pub fn from_parts(txid: Vec<u8>, vout: usize, signature: Vec<u8>, pub_key: Vec<u8>) -> (out:
        TXInput)
        ensures
            out@ == (InputModel {
                txid: txid@,
                vout,
                signature: signature@,
                pub_key: pub_key@,
            }),
    {
        TXInput { txid, vout, signature, pub_key }
    }

    /// The identifier of the transaction whose output is spent.
    pub fn get_txid(&self) -> (out: &[u8])
        ensures
            out@ == self@.txid,
    {
        self.txid.as_slice()
    }

    /// The index of the output that is spent.
    pub fn get_vout(&self) -> (out: usize)
        ensures
            out == self@.vout,
    {
        self.vout
    }

    /// The signature.
    pub fn get_signature(&self) -> (out: &[u8])
        ensures
            out@ == self@.signature,
    {
        self.signature.as_slice()
    }

    /// The public key of the spender.
    pub fn get_pub_key(&self) -> (out: &[u8])
        ensures
            out@ == self@.pub_key,
    {
        self.pub_key.as_slice()
    }

}

/// An output: a value in the base denomination, locked to a key hash.
#[derive(Debug)]
pub struct TXOutput {
    value: u64,
    pub_key_hash: Vec<u8>,
}

impl View for TXOutput {
    type V = OutputModel;

    closed spec fn view(&self) -> OutputModel {
        OutputModel { value: self.value, pub_key_hash: self.pub_key_hash@ }
    }
}

impl Clone for TXOutput {
    fn clone(&self) -> (out: Self)
        ensures
            out@ == self@,
    {
        TXOutput { value: self.value, pub_key_hash: self.pub_key_hash.clone() }
    }
}

impl TXOutput {
    /// An output of `value` locked to the key hash of `address`:
    /// `Transaction` where the value is zero, `InvalidAddress` where the
    /// address is not valid.
    pub fn new(value: u64, address: &str) -> (out: Result<TXOutput, BlockchainError>)
        ensures
            value == 0 ==> out is Err && out->Err_0 is Transaction,
            value != 0 && !spec_validate_address(address@) ==> out is Err
                && out->Err_0 is InvalidAddress,
            value != 0 && spec_validate_address(address@) ==> out is Ok && out->Ok_0@ == (
            OutputModel { value, pub_key_hash: spec_address_key_hash(address@)->Some_0 }),
    {
        if value == 0 {
            return Err(BlockchainError::Transaction(owned("Transaction value must be positive")));
        }
        match address_key_hash(address) {
            Some(pub_key_hash) => Ok(TXOutput { value, pub_key_hash }),
            None => Err(BlockchainError::InvalidAddress(owned(address))),
        }
    }

    /// An output of `value` locked to `pub_key_hash`.
    pub fn from_parts(value: u64, pub_key_hash: Vec<u8>) -> (out: TXOutput)
        ensures
            out@ == (OutputModel { value, pub_key_hash: pub_key_hash@ }),
    {
        TXOutput { value, pub_key_hash }
    }

    /// The value.
    pub fn get_value(&self) -> (out: u64)
        ensures
            out == self@.value,
    {
        self.value
    }

    /// The key hash that the output is locked to.
    pub fn get_pub_key_hash(&self) -> (out: &[u8])
        ensures
            out@ == self@.pub_key_hash,
    {
        self.pub_key_hash.as_slice()
    }

    /// Whether the output is locked to `pub_key_hash`.
    pub fn is_locked_with_key(&self, pub_key_hash: &[u8]) -> (locked: bool)
        ensures
            locked == (self@.pub_key_hash == pub_key_hash@),
    {
        bytes_eq(self.pub_key_hash.as_slice(), pub_key_hash)
    }
}

/// Whether two byte strings are the same.
pub fn bytes_eq(a: &[u8], b: &[u8]) -> (same: bool)
    ensures
        same == (a@ == b@),
{
    if a.len() != b.len() {
        return false;
    }
    let mut i: usize = 0;
    while i < a.len()
        invariant
            i <= a@.len(),
            a@.len() == b@.len(),
            forall|k: int| 0 <= k < i ==> a@[k] == b@[k],
        decreases a@.len() - i,
    {
        if a[i] != b[i] {
            return false;
        }
        i += 1;
    }
    assert(a@ =~= b@);
    true
}

/// The models of a list of inputs.
pub open spec fn input_models(inputs: Seq<TXInput>) -> Seq<InputModel> {
    inputs.map_values(|i: TXInput| i@)
}

/// The models of a list of outputs.
pub open spec fn output_models(outputs: Seq<TXOutput>) -> Seq<OutputModel> {
    outputs.map_values(|o: TXOutput| o@)
}

/// The models of a list of transactions.
pub open spec fn transaction_models(transactions: Seq<Transaction>) -> Seq<TransactionModel> {
    transactions.map_values(|t: Transaction| t@)
}

/// A transaction: inputs that are spent, outputs that are made, and the fee
/// left to the miner.
#[derive(Debug)]
pub struct Transaction {
    id: Vec<u8>,
    vin: Vec<TXInput>,
    vout: Vec<TXOutput>,
    fee: u64,
}

impl View for Transaction {
    type V = TransactionModel;

    closed spec fn view(&self) -> TransactionModel {
        TransactionModel {
            id: self.id@,
            vin: input_models(self.vin@),
            vout: output_models(self.vout@),
            fee: self.fee,
        }
    }
}

/// A copy of a list of inputs.
pub fn copy_inputs(inputs: &[TXInput]) -> (out: Vec<TXInput>)
    ensures
        input_models(out@) == input_models(inputs@),
{
    let mut out: Vec<TXInput> = Vec::new();
    let mut i: usize = 0;
    while i < inputs.len()
        invariant
            i <= inputs@.len(),
            out@.len() == i,
            input_models(out@) == input_models(inputs@.take(i as int)),
        decreases inputs@.len() - i,
    {
        let item = inputs[i].clone();
        let ghost before = out@;
        out.push(item);
        proof {
            let want = input_models(inputs@.take(i + 1));
            let have = input_models(out@);
            assert(input_models(before) == input_models(inputs@.take(i as int)));
            assert forall|k: int| 0 <= k < have.len() implies have[k] == want[k] by {
                if k < i {
                    assert(have[k] == input_models(before)[k]);
                    assert(want[k] == input_models(inputs@.take(i as int))[k]);
                }
            }
            assert(have =~= want);
        }
        i += 1;
    }
    assert(inputs@.take(inputs@.len() as int) =~= inputs@);
    out
}

/// A copy of a list of outputs.
pub fn copy_outputs(outputs: &[TXOutput]) -> (out: Vec<TXOutput>)
    ensures
        output_models(out@) == output_models(outputs@),
{
    let mut out: Vec<TXOutput> = Vec::new();
    let mut i: usize = 0;
    while i < outputs.len()
        invariant
            i <= outputs@.len(),
            out@.len() == i,
            output_models(out@) == output_models(outputs@.take(i as int)),
        decreases outputs@.len() - i,
    {
        let item = outputs[i].clone();
        let ghost before = out@;
        out.push(item);
        proof {
            let want = output_models(outputs@.take(i + 1));
            let have = output_models(out@);
            assert(output_models(before) == output_models(outputs@.take(i as int)));
            assert forall|k: int| 0 <= k < have.len() implies have[k] == want[k] by {
                if k < i {
                    assert(have[k] == output_models(before)[k]);
                    assert(want[k] == output_models(outputs@.take(i as int))[k]);
                }
            }
            assert(have =~= want);
        }
        i += 1;
    }
    assert(outputs@.take(outputs@.len() as int) =~= outputs@);
    out
}

/// A copy of a list of transactions.
pub fn copy_transactions(transactions: &[Transaction]) -> (out: Vec<Transaction>)
    ensures
        transaction_models(out@) == transaction_models(transactions@),
{
    let mut out: Vec<Transaction> = Vec::new();
    let mut i: usize = 0;
    while i < transactions.len()
        invariant
            i <= transactions@.len(),
            out@.len() == i,
            transaction_models(out@) == transaction_models(transactions@.take(i as int)),
        decreases transactions@.len() - i,
    {
        let item = transactions[i].clone();
        let ghost before = out@;
        out.push(item);
        proof {
            let want = transaction_models(transactions@.take(i + 1));
            let have = transaction_models(out@);
            assert(transaction_models(before) == transaction_models(transactions@.take(i as int)));
            assert forall|k: int| 0 <= k < have.len() implies have[k] == want[k] by {
                if k < i {
                    assert(have[k] == transaction_models(before)[k]);
                    assert(want[k] == transaction_models(transactions@.take(i as int))[k]);
                }
            }
            assert(have =~= want);
        }
        i += 1;
    }
    assert(transactions@.take(transactions@.len() as int) =~= transactions@);
    out
}

impl Clone for Transaction {
    fn clone(&self) -> (out: Self)
        ensures
            out@ == self@,
    {
        Transaction {
            id: self.id.clone(),
            vin: copy_inputs(self.vin.as_slice()),
            vout: copy_outputs(self.vout.as_slice()),
            fee: self.fee,
        }
    }
}

} // verus!

verus! {

/// Appends the encoding of an input to `out`.
pub fn encode_input(input: &TXInput, out: &mut Vec<u8>)
    ensures
        final(out)@ == old(out)@ + input@.encoding(),
{
    encode_bytes(input.txid.as_slice(), out);
    encode_u64(input.vout as u64, out);
    encode_bytes(input.signature.as_slice(), out);
    encode_bytes(input.pub_key.as_slice(), out);
    assert(out@ =~= old(out)@ + input@.encoding());
}

/// Reads an input at `pos`.
pub fn decode_input(bytes: &[u8], pos: usize) -> (out: Option<(TXInput, usize)>)
    requires
        pos <= bytes@.len(),
    ensures
        match InputModel::parse(bytes@.skip(pos as int)) {
            Some((value, rest)) => out is Some && out->Some_0.0@ == value && pos <= out->Some_0.1
                <= bytes@.len() && bytes@.skip(out->Some_0.1 as int) == rest,
            None => out is None,
        },
{
    let (txid, pos1) = match decode_bytes(bytes, pos) {
        Some(found) => found,
        None => { return None; },
    };
    let (vout, pos2) = match decode_u64(bytes, pos1) {
        Some(found) => found,
        None => { return None; },
    };
    if vout > usize::MAX as u64 {
        return None;
    }
    let (signature, pos3) = match decode_bytes(bytes, pos2) {
        Some(found) => found,
        None => { return None; },
    };
    let (pub_key, pos4) = match decode_bytes(bytes, pos3) {
        Some(found) => found,
        None => { return None; },
    };
    Some((TXInput { txid, vout: vout as usize, signature, pub_key }, pos4))
}

/// Appends the encoding of an output to `out`.
pub fn encode_output(output: &TXOutput, out: &mut Vec<u8>)
    ensures
        final(out)@ == old(out)@ + output@.encoding(),
{
    encode_u64(output.value, out);
    encode_bytes(output.pub_key_hash.as_slice(), out);
    assert(out@ =~= old(out)@ + output@.encoding());
}

/// Reads an output at `pos`.
pub fn decode_output(bytes: &[u8], pos: usize) -> (out: Option<(TXOutput, usize)>)
    requires
        pos <= bytes@.len(),
    ensures
        match OutputModel::parse(bytes@.skip(pos as int)) {
            Some((value, rest)) => out is Some && out->Some_0.0@ == value && pos <= out->Some_0.1
                <= bytes@.len() && bytes@.skip(out->Some_0.1 as int) == rest,
            None => out is None,
        },
{
    let (value, pos1) = match decode_u64(bytes, pos) {
        Some(found) => found,
        None => { return None; },
    };
    let (pub_key_hash, pos2) = match decode_bytes(bytes, pos1) {
        Some(found) => found,
        None => { return None; },
    };
    Some((TXOutput { value, pub_key_hash }, pos2))
}

/// Appends the encoding of a list of inputs to `out`.
pub fn encode_inputs(items: &[TXInput], out: &mut Vec<u8>)
    ensures
        final(out)@ == old(out)@ + spec_encode_list(input_models(items@), InputModel::encoder()),
{
    let ghost start = out@;
    let ghost models = input_models(items@);
    encode_u64(items.len() as u64, out);
    let ghost head = out@;
    let mut i: usize = 0;
    assert(spec_encode_items(models.take(0), InputModel::encoder()) =~= Seq::<u8>::empty());
    assert(head + Seq::<u8>::empty() =~= head);
    while i < items.len()
        invariant
            i <= items@.len(),
            models == input_models(items@),
            models.len() == items@.len(),
            out@ == head + spec_encode_items(models.take(i as int), InputModel::encoder()),
        decreases items@.len() - i,
    {
        let ghost before = out@;
        encode_input(&items[i], out);
        proof {
            lemma_encode_items_step(models, i as int, InputModel::encoder());
            assert(models[i as int] == items@[i as int]@);
            assert(out@ =~= head + spec_encode_items(models.take(i + 1), InputModel::encoder()));
        }
        i += 1;
    }
    proof {
        assert(models.take(models.len() as int) =~= models);
        assert(out@ =~= start + spec_encode_list(models, InputModel::encoder()));
    }
}

/// Reads a list of inputs at `pos`.
pub fn decode_inputs(bytes: &[u8], pos: usize) -> (out: Option<(Vec<TXInput>, usize)>)
    requires
        pos <= bytes@.len(),
    ensures
        match spec_parse_list(bytes@.skip(pos as int), InputModel::parser()) {
            Some((value, rest)) => out is Some && input_models(out->Some_0.0@) == value && pos
                <= out->Some_0.1 <= bytes@.len() && bytes@.skip(out->Some_0.1 as int) == rest,
            None => out is None,
        },
{
    let (count, start) = match decode_u64(bytes, pos) {
        Some(found) => found,
        None => { return None; },
    };
    let ghost tail = bytes@.skip(start as int);
    let mut items: Vec<TXInput> = Vec::new();
    let mut at: usize = start;
    let mut i: u64 = 0;
    assert(input_models(items@) =~= Seq::<InputModel>::empty());
    while i < count
        invariant
            i <= count,
            pos <= start <= at <= bytes@.len(),
            tail == bytes@.skip(start as int),
            spec_parse_u64(bytes@.skip(pos as int)) == Some((count, tail)),
            items@.len() == i,
            spec_parse_items(tail, i as nat, InputModel::parser()) == Some(
                (input_models(items@), bytes@.skip(at as int)),
            ),
        decreases count - i,
    {
        match decode_input(bytes, at) {
            Some((item, next)) => {
                let ghost before = items@;
                items.push(item);
                proof {
                    let have = input_models(items@);
                    let want = input_models(before).push(item@);
                    assert(have =~= want);
                }
                at = next;
            },
            None => {
                proof {
                    assert((InputModel::parser())(bytes@.skip(at as int)) is None);
                    assert(spec_parse_items(tail, (i + 1) as nat, InputModel::parser()) is None);
                    lemma_parse_items_fails_on(
                        tail,
                        (i + 1) as nat,
                        count as nat,
                        InputModel::parser(),
                    );
                }
                return None;
            },
        }
        i += 1;
    }
    Some((items, at))
}

/// Appends the encoding of a list of outputs to `out`.
pub fn encode_outputs(items: &[TXOutput], out: &mut Vec<u8>)
    ensures
        final(out)@ == old(out)@ + spec_encode_list(output_models(items@), OutputModel::encoder()),
{
    let ghost start = out@;
    let ghost models = output_models(items@);
    encode_u64(items.len() as u64, out);
    let ghost head = out@;
    let mut i: usize = 0;
    assert(spec_encode_items(models.take(0), OutputModel::encoder()) =~= Seq::<u8>::empty());
    assert(head + Seq::<u8>::empty() =~= head);
    while i < items.len()
        invariant
            i <= items@.len(),
            models == output_models(items@),
            models.len() == items@.len(),
            out@ == head + spec_encode_items(models.take(i as int), OutputModel::encoder()),
        decreases items@.len() - i,
    {
        let ghost before = out@;
        encode_output(&items[i], out);
        proof {
            lemma_encode_items_step(models, i as int, OutputModel::encoder());
            assert(models[i as int] == items@[i as int]@);
            assert(out@ =~= head + spec_encode_items(models.take(i + 1), OutputModel::encoder()));
        }
        i += 1;
    }
    proof {
        assert(models.take(models.len() as int) =~= models);
        assert(out@ =~= start + spec_encode_list(models, OutputModel::encoder()));
    }
}

/// Reads a list of outputs at `pos`.
pub fn decode_outputs(bytes: &[u8], pos: usize) -> (out: Option<(Vec<TXOutput>, usize)>)
    requires
        pos <= bytes@.len(),
    ensures
        match spec_parse_list(bytes@.skip(pos as int), OutputModel::parser()) {
            Some((value, rest)) => out is Some && output_models(out->Some_0.0@) == value && pos
                <= out->Some_0.1 <= bytes@.len() && bytes@.skip(out->Some_0.1 as int) == rest,
            None => out is None,
        },
{
    let (count, start) = match decode_u64(bytes, pos) {
        Some(found) => found,
        None => { return None; },
    };
    let ghost tail = bytes@.skip(start as int);
    let mut items: Vec<TXOutput> = Vec::new();
    let mut at: usize = start;
    let mut i: u64 = 0;
    assert(output_models(items@) =~= Seq::<OutputModel>::empty());
    while i < count
        invariant
            i <= count,
            pos <= start <= at <= bytes@.len(),
            tail == bytes@.skip(start as int),
            spec_parse_u64(bytes@.skip(pos as int)) == Some((count, tail)),
            items@.len() == i,
            spec_parse_items(tail, i as nat, OutputModel::parser()) == Some(
                (output_models(items@), bytes@.skip(at as int)),
            ),
        decreases count - i,
    {
        match decode_output(bytes, at) {
            Some((item, next)) => {
                let ghost before = items@;
                items.push(item);
                proof {
                    let have = output_models(items@);
                    let want = output_models(before).push(item@);
                    assert(have =~= want);
                }
                at = next;
            },
            None => {
                proof {
                    assert((OutputModel::parser())(bytes@.skip(at as int)) is None);
                    assert(spec_parse_items(tail, (i + 1) as nat, OutputModel::parser()) is None);
                    lemma_parse_items_fails_on(
                        tail,
                        (i + 1) as nat,
                        count as nat,
                        OutputModel::parser(),
                    );
                }
                return None;
            },
        }
        i += 1;
    }
    Some((items, at))
}

/// Appends the encoding of a transaction to `out`.
pub fn encode_transaction(tx: &Transaction, out: &mut Vec<u8>)
    ensures
        final(out)@ == old(out)@ + tx@.encoding(),
{
    encode_bytes(tx.id.as_slice(), out);
    encode_inputs(tx.vin.as_slice(), out);
    encode_outputs(tx.vout.as_slice(), out);
    encode_u64(tx.fee, out);
    assert(out@ =~= old(out)@ + tx@.encoding());
}

/// Reads a transaction at `pos`.
pub fn decode_transaction(bytes: &[u8], pos: usize) -> (out: Option<(Transaction, usize)>)
    requires
        pos <= bytes@.len(),
    ensures
        match TransactionModel::parse(bytes@.skip(pos as int)) {
            Some((value, rest)) => out is Some && out->Some_0.0@ == value && pos <= out->Some_0.1
                <= bytes@.len() && bytes@.skip(out->Some_0.1 as int) == rest,
            None => out is None,
        },
{
    let (id, pos1) = match decode_bytes(bytes, pos) {
        Some(found) => found,
        None => { return None; },
    };
    let (vin, pos2) = match decode_inputs(bytes, pos1) {
        Some(found) => found,
        None => { return None; },
    };
    let (vout, pos3) = match decode_outputs(bytes, pos2) {
        Some(found) => found,
        None => { return None; },
    };
    let (fee, pos4) = match decode_u64(bytes, pos3) {
        Some(found) => found,
        None => { return None; },
    };
    Some((Transaction { id, vin, vout, fee }, pos4))
}

/// Appends the encoding of a list of transactions to `out`.
pub fn encode_transactions(items: &[Transaction], out: &mut Vec<u8>)
    ensures
        final(out)@ == old(out)@ + spec_encode_list(transaction_models(items@), TransactionModel::encoder()),
{
    let ghost start = out@;
    let ghost models = transaction_models(items@);
    encode_u64(items.len() as u64, out);
    let ghost head = out@;
    let mut i: usize = 0;
    assert(spec_encode_items(models.take(0), TransactionModel::encoder()) =~= Seq::<u8>::empty());
    assert(head + Seq::<u8>::empty() =~= head);
    while i < items.len()
        invariant
            i <= items@.len(),
            models == transaction_models(items@),
            models.len() == items@.len(),
            out@ == head + spec_encode_items(models.take(i as int), TransactionModel::encoder()),
        decreases items@.len() - i,
    {
        let ghost before = out@;
        encode_transaction(&items[i], out);
        proof {
            lemma_encode_items_step(models, i as int, TransactionModel::encoder());
            assert(models[i as int] == items@[i as int]@);
            assert(out@ =~= head + spec_encode_items(models.take(i + 1), TransactionModel::encoder()));
        }
        i += 1;
    }
    proof {
        assert(models.take(models.len() as int) =~= models);
        assert(out@ =~= start + spec_encode_list(models, TransactionModel::encoder()));
    }
}

/// Reads a list of transactions at `pos`.
pub fn decode_transactions(bytes: &[u8], pos: usize) -> (out: Option<(Vec<Transaction>, usize)>)
    requires
        pos <= bytes@.len(),
    ensures
        match spec_parse_list(bytes@.skip(pos as int), TransactionModel::parser()) {
            Some((value, rest)) => out is Some && transaction_models(out->Some_0.0@) == value && pos
                <= out->Some_0.1 <= bytes@.len() && bytes@.skip(out->Some_0.1 as int) == rest,
            None => out is None,
        },
{
    let (count, start) = match decode_u64(bytes, pos) {
        Some(found) => found,
        None => { return None; },
    };
    let ghost tail = bytes@.skip(start as int);
    let mut items: Vec<Transaction> = Vec::new();
    let mut at: usize = start;
    let mut i: u64 = 0;
    assert(transaction_models(items@) =~= Seq::<TransactionModel>::empty());
    while i < count
        invariant
            i <= count,
            pos <= start <= at <= bytes@.len(),
            tail == bytes@.skip(start as int),
            spec_parse_u64(bytes@.skip(pos as int)) == Some((count, tail)),
            items@.len() == i,
            spec_parse_items(tail, i as nat, TransactionModel::parser()) == Some(
                (transaction_models(items@), bytes@.skip(at as int)),
            ),
        decreases count - i,
    {
        match decode_transaction(bytes, at) {
            Some((item, next)) => {
                let ghost before = items@;
                items.push(item);
                proof {
                    let have = transaction_models(items@);
                    let want = transaction_models(before).push(item@);
                    assert(have =~= want);
                }
                at = next;
            },
            None => {
                proof {
                    assert((TransactionModel::parser())(bytes@.skip(at as int)) is None);
                    assert(spec_parse_items(tail, (i + 1) as nat, TransactionModel::parser()) is None);
                    lemma_parse_items_fails_on(
                        tail,
                        (i + 1) as nat,
                        count as nat,
                        TransactionModel::parser(),
                    );
                }
                return None;
            },
        }
        i += 1;
    }
    Some((items, at))
}

} // verus!

verus! {

/// The coinbase transaction that pays `reward` to `pub_key_hash`, made unique
/// by `extranonce`: one input without transaction, index or key, one output,
/// no fee, and the identifier that its encoding gives.
pub open spec fn spec_coinbase(reward: u64, pub_key_hash: Seq<u8>, extranonce: Seq<u8>)
    -> TransactionModel {
    let body = TransactionModel {
        id: Seq::empty(),
        vin: seq![
            InputModel {
                txid: Seq::empty(),
                vout: 0,
                signature: extranonce,
                pub_key: Seq::empty(),
            },
        ],
        vout: seq![OutputModel { value: reward, pub_key_hash }],
        fee: 0,
    };
    TransactionModel { id: body.hash(), ..body }
}

/// An input without signature and public key.
pub open spec fn spec_trim_input(input: InputModel) -> InputModel {
    InputModel { txid: input.txid, vout: input.vout, signature: Seq::empty(), pub_key: Seq::empty() }
}

impl TransactionModel {
    /// The copy that is signed: every input without signature and key.
    pub open spec fn trimmed(self) -> TransactionModel {
        TransactionModel { vin: self.vin.map_values(|i: InputModel| spec_trim_input(i)), ..self }
    }

    /// The digest that the signature of input `idx` covers: the hash of the
    /// trimmed copy in which input `idx` carries, in the place of its key, the
    /// key hash that locks the output it spends.
    pub open spec fn signing_digest(self, idx: int, locking_hash: Seq<u8>) -> Seq<u8> {
        let trimmed = self.trimmed();
        TransactionModel {
            vin: trimmed.vin.update(
                idx,
                InputModel { pub_key: locking_hash, ..trimmed.vin[idx] },
            ),
            ..trimmed
        }.hash()
    }

    /// A coinbase is in order when it has one input, at least one output and
    /// no fee.
    pub open spec fn coinbase_in_order(self) -> bool {
        self.vin.len() == 1 && self.vout.len() >= 1 && self.fee == 0
    }
}

/// Sixteen random bytes from `uuid::Uuid::new_v4`. Where the system gives
/// no random numbers the call panics; no argument brings that about.
#[verifier::external_body]
fn random_extranonce() -> (out: Vec<u8>)
    ensures
        out@.len() == 16,
{
    uuid::Uuid::new_v4().as_bytes().to_vec()
}

/// A fresh extranonce for a coinbase: sixteen random bytes.
pub(crate) fn fresh_extranonce() -> (out: Vec<u8>)
    ensures
        out@.len() == 16,
{
    random_extranonce()
}

impl Transaction {
    /// A transaction made of its four parts.
    pub fn from_parts(id: Vec<u8>, vin: Vec<TXInput>, vout: Vec<TXOutput>, fee: u64) -> (out:
        Transaction)
        ensures
            out@ == (TransactionModel {
                id: id@,
                vin: input_models(vin@),
                vout: output_models(vout@),
                fee,
            }),
    {
        Transaction { id, vin, vout, fee }
    }

    /// Every part of a transaction in memory can be held in memory.
    pub(crate) fn note_well_formed(&self)
        ensures
            self@.wf(),
    {
        let _ = self.id.len();
        let n = self.vin.len();
        let m = self.vout.len();
        let mut i: usize = 0;
        while i < n
            invariant
                i <= n,
                n == self.vin@.len(),
                forall|k: int| 0 <= k < i ==> (#[trigger] self.vin@[k])@.wf(),
            decreases n - i,
        {
            let _ = self.vin[i].txid.len();
            let _ = self.vin[i].signature.len();
            let _ = self.vin[i].pub_key.len();
            i += 1;
        }
        let mut j: usize = 0;
        while j < m
            invariant
                j <= m,
                m == self.vout@.len(),
                forall|k: int| 0 <= k < j ==> (#[trigger] self.vout@[k])@.wf(),
            decreases m - j,
        {
            let _ = self.vout[j].pub_key_hash.len();
            j += 1;
        }
        assert(forall|k: int| 0 <= k < self@.vin.len() ==> self@.vin[k] == self.vin@[k]@);
        assert(forall|k: int| 0 <= k < self@.vout.len() ==> self@.vout[k] == self.vout@[k]@);
    }

    /// The coinbase transaction that pays the block reward to `to`.
    pub fn new_coinbase_tx(to: &str) -> (out: Result<Transaction, BlockchainError>)
        ensures
            !spec_validate_address(to@) ==> out is Err && out->Err_0 is InvalidAddress,
            spec_validate_address(to@) ==> out is Ok && exists|extranonce: Seq<u8>|
                extranonce.len() == 16 && out->Ok_0@ == spec_coinbase(
                    crate::chain::monetary::INITIAL_BLOCK_REWARD,
                    spec_address_key_hash(to@)->Some_0,
                    extranonce,
                ),
    {
        Self::new_coinbase_tx_with_reward(to, crate::chain::monetary::INITIAL_BLOCK_REWARD)
    }

    /// The coinbase transaction that pays `reward` to `to`, with a fresh
    /// random extranonce.
    pub fn new_coinbase_tx_with_reward(to: &str, reward: u64) -> (out: Result<
        Transaction,
        BlockchainError,
    >)
        ensures
            reward == 0 ==> out is Err && out->Err_0 is Transaction,
            reward != 0 && !spec_validate_address(to@) ==> out is Err
                && out->Err_0 is InvalidAddress,
            reward != 0 && spec_validate_address(to@) ==> out is Ok && exists|extranonce: Seq<u8>|
                extranonce.len() == 16 && out->Ok_0@ == spec_coinbase(
                    reward,
                    spec_address_key_hash(to@)->Some_0,
                    extranonce,
                ),
    {
        let extranonce = random_extranonce();
        Self::new_coinbase_tx_with_extranonce(to, reward, extranonce)
    }

    /// The coinbase transaction that pays `reward` to `to` and carries
    /// `extranonce` in the place of a signature.
    pub fn new_coinbase_tx_with_extranonce(to: &str, reward: u64, extranonce: Vec<u8>) -> (out:
        Result<Transaction, BlockchainError>)
        ensures
            reward == 0 ==> out is Err && out->Err_0 is Transaction,
            reward != 0 && !spec_validate_address(to@) ==> out is Err
                && out->Err_0 is InvalidAddress,
            reward != 0 && spec_validate_address(to@) ==> out is Ok && out->Ok_0@ == spec_coinbase(
                reward,
                spec_address_key_hash(to@)->Some_0,
                extranonce@,
            ),
    {
        let txout = match TXOutput::new(reward, to) {
            Ok(txout) => txout,
            Err(e) => { return Err(e); },
        };
        let tx_input = TXInput {
            txid: Vec::new(),
            vout: 0,
            signature: extranonce,
            pub_key: Vec::new(),
        };
        let mut vin: Vec<TXInput> = Vec::new();
        vin.push(tx_input);
        let mut vout: Vec<TXOutput> = Vec::new();
        vout.push(txout);
        let mut tx = Transaction { id: Vec::new(), vin, vout, fee: 0 };
        proof {
            assert(tx@.vin =~= seq![
                InputModel {
                    txid: Seq::empty(),
                    vout: 0,
                    signature: extranonce@,
                    pub_key: Seq::empty(),
                },
            ]);
            assert(tx@.vout =~= seq![
                OutputModel { value: reward, pub_key_hash: spec_address_key_hash(to@)->Some_0 },
            ]);
            assert(tx@.id =~= Seq::<u8>::empty());
        }
        let id = tx.hash();
        tx.id = id;
        Ok(tx)
    }

    /// The coinbase transaction that pays the block reward and the collected
    /// fees to `to`.
    pub fn new_coinbase_tx_with_collected_fees(to: &str, collected_fees: u64) -> (out: Result<
        Transaction,
        BlockchainError,
    >)
        requires
            crate::chain::monetary::INITIAL_BLOCK_REWARD + collected_fees <= u64::MAX,
        ensures
            !spec_validate_address(to@) ==> out is Err && out->Err_0 is InvalidAddress,
            spec_validate_address(to@) ==> out is Ok && exists|extranonce: Seq<u8>|
                extranonce.len() == 16 && out->Ok_0@ == spec_coinbase(
                    (crate::chain::monetary::INITIAL_BLOCK_REWARD + collected_fees) as u64,
                    spec_address_key_hash(to@)->Some_0,
                    extranonce,
                ),
    {
        let total_reward = crate::chain::monetary::INITIAL_BLOCK_REWARD + collected_fees;
        Self::new_coinbase_tx_with_reward(to, total_reward)
    }

    /// The copy that is signed: every input without signature and key.
    pub fn trimmed_copy(&self) -> (out: Transaction)
        ensures
            out@ == self@.trimmed(),
    {
        let mut inputs: Vec<TXInput> = Vec::new();
        let mut i: usize = 0;
        while i < self.vin.len()
            invariant
                i <= self.vin@.len(),
                inputs@.len() == i,
                forall|k: int| 0 <= k < i ==> (#[trigger] inputs@[k])@ == spec_trim_input(
                    self.vin@[k]@,
                ),
            decreases self.vin@.len() - i,
        {
            inputs.push(TXInput::new(self.vin[i].get_txid(), self.vin[i].get_vout()));
            i += 1;
        }
        let out = Transaction {
            id: self.id.clone(),
            vin: inputs,
            vout: copy_outputs(self.vout.as_slice()),
            fee: self.fee,
        };
        assert(out@.vin =~= self@.trimmed().vin);
        out
    }

    /// The digest that the signature of input `idx` covers, given the key
    /// hash that locks the output it spends.
    pub fn signing_digest(&self, idx: usize, locking_hash: &[u8]) -> (out: Vec<u8>)
        requires
            idx < self@.vin.len(),
        ensures
            out@ == self@.signing_digest(idx as int, locking_hash@),
            out@.len() == 32,
    {
        let mut tx_copy = self.trimmed_copy();
        assert(tx_copy@.vin.len() == self@.vin.len());
        let ghost before = tx_copy@;
        let input = TXInput {
            txid: tx_copy.vin[idx].txid.clone(),
            vout: tx_copy.vin[idx].vout,
            signature: Vec::new(),
            pub_key: vstd::slice::slice_to_vec(locking_hash),
        };
        assert(input@ == (InputModel { pub_key: locking_hash@, ..before.vin[idx as int] }));
        tx_copy.vin.set(idx, input);
        assert(tx_copy@.vin =~= before.vin.update(
            idx as int,
            InputModel { pub_key: locking_hash@, ..before.vin[idx as int] },
        ));
        tx_copy.hash()
    }

    /// Whether a coinbase has one input, at least one output and no fee.
    pub fn verify_coinbase(&self) -> (ok: bool)
        ensures
            ok == self@.coinbase_in_order(),
    {
        self.vin.len() == 1 && self.vout.len() >= 1 && self.fee == 0
    }

    /// Whether the transaction has exactly one input, and that one without a
    /// public key.
    pub fn is_coinbase(&self) -> (out: bool)
        ensures
            out == self@.is_coinbase(),
    {
        self.vin.len() == 1 && self.vin[0].pub_key.len() == 0
    }

    /// SHA-256 of the encoding of the transaction with its identifier left
    /// empty.
    pub fn hash(&self) -> (out: Vec<u8>)
        ensures
            out@ == self@.hash(),
            out@.len() == 32,
    {
        let mut bytes: Vec<u8> = Vec::new();
        let empty: Vec<u8> = Vec::new();
        encode_bytes(empty.as_slice(), &mut bytes);
        encode_inputs(self.vin.as_slice(), &mut bytes);
        encode_outputs(self.vout.as_slice(), &mut bytes);
        encode_u64(self.fee, &mut bytes);
        assert(bytes@ =~= (TransactionModel { id: Seq::empty(), ..self@ }).encoding());
        sha256_digest(bytes.as_slice())
    }

    /// The identifier.
    pub fn get_id(&self) -> (out: &[u8])
        ensures
            out@ == self@.id,
    {
        self.id.as_slice()
    }

    /// A copy of the identifier.
    pub fn get_id_bytes(&self) -> (out: Vec<u8>)
        ensures
            out@ == self@.id,
    {
        self.id.clone()
    }

    /// The inputs.
    pub fn get_vin(&self) -> (out: &[TXInput])
        ensures
            input_models(out@) == self@.vin,
            out@.len() == self@.vin.len(),
    {
        self.vin.as_slice()
    }

    /// The outputs.
    pub fn get_vout(&self) -> (out: &[TXOutput])
        ensures
            output_models(out@) == self@.vout,
            out@.len() == self@.vout.len(),
    {
        self.vout.as_slice()
    }

    /// The fee.
    pub fn get_fee(&self) -> (out: u64)
        ensures
            out == self@.fee,
    {
        self.fee
    }

    /// Replaces the fee and leaves the rest as it is.
    pub fn set_fee(&mut self, fee: u64)
        ensures
            final(self)@ == (TransactionModel { fee, ..old(self)@ }),
    {
        self.fee = fee;
    }

    /// Writes the signature of input `idx` and leaves the rest as it is.
    pub fn set_signature(&mut self, idx: usize, signature: Vec<u8>)
        requires
            idx < old(self)@.vin.len(),
        ensures
            final(self)@ == (TransactionModel {
                vin: old(self)@.vin.update(
                    idx as int,
                    InputModel { signature: signature@, ..old(self)@.vin[idx as int] },
                ),
                ..old(self)@
            }),
    {
        let input = TXInput {
            txid: self.vin[idx].txid.clone(),
            vout: self.vin[idx].vout,
            signature,
            pub_key: self.vin[idx].pub_key.clone(),
        };
        self.vin.set(idx, input);
        assert(self@.vin =~= old(self)@.vin.update(
            idx as int,
            InputModel { signature: signature@, ..old(self)@.vin[idx as int] },
        ));
    }

    /// The fee per byte of the encoding, rounded down.
    pub fn calculate_fee_rate(&self) -> (out: Result<u64, BlockchainError>)
        ensures
            out is Ok,
            out->Ok_0 == self@.fee as int / self@.encoding().len() as int,
    {
        let bytes = self.encoded();
        let size = bytes.len();
        proof {
            lemma_encode_u64_len(self@.id.len() as u64);
        }
        Ok(self.fee / (size as u64))
    }

    /// The encoding of the transaction. Read back, it gives the transaction.
    pub fn encoded(&self) -> (out: Vec<u8>)
        ensures
            out@ == self@.encoding(),
            TransactionModel::parse(out@) == Some((self@, Seq::<u8>::empty())),
    {
        let mut bytes: Vec<u8> = Vec::new();
        encode_transaction(self, &mut bytes);
        self.note_well_formed();
        proof {
            assert(bytes@ =~= self@.encoding());
            self@.lemma_round_trip(Seq::empty());
            assert(self@.encoding() + Seq::<u8>::empty() =~= self@.encoding());
        }
        bytes
    }

    /// The encoding of the transaction; it never fails. Read back, it gives
    /// the transaction.
    pub fn serialize(&self) -> (out: Result<Vec<u8>, BlockchainError>)
        ensures
            out is Ok,
            out->Ok_0@ == self@.encoding(),
            TransactionModel::parse(out->Ok_0@) == Some((self@, Seq::<u8>::empty())),
    {
        Ok(self.encoded())
    }

    /// The transaction at the front of `bytes`; what follows it is ignored.
    /// `Serialization` where the bytes hold no transaction.
    pub fn deserialize(bytes: &[u8]) -> (out: Result<Transaction, BlockchainError>)
        ensures
            match TransactionModel::parse(bytes@) {
                Some((value, rest)) => out is Ok && out->Ok_0@ == value,
                None => out is Err && out->Err_0 is Serialization,
            },
    {
        assert(bytes@.skip(0) =~= bytes@);
        match decode_transaction(bytes, 0) {
            Some((tx, _)) => Ok(tx),
            None => Err(BlockchainError::Serialization(owned("Deserialization failed"))),
        }
    }

    /// The sum of the output values, or `Transaction` where it does not fit
    /// in 64 bits.
    pub fn get_output_value(&self) -> (out: Result<u64, BlockchainError>)
        ensures
            self@.output_sum() <= u64::MAX ==> out is Ok && out->Ok_0 == self@.output_sum(),
            self@.output_sum() > u64::MAX ==> out is Err && out->Err_0 is Transaction,
    {
        let mut total: u64 = 0;
        let mut i: usize = 0;
        let ghost outputs = self@.vout;
        assert(outputs.take(0) =~= Seq::<OutputModel>::empty());
        while i < self.vout.len()
            invariant
                i <= self.vout@.len(),
                outputs == self@.vout,
                outputs.len() == self.vout@.len(),
                total == sum_values(outputs.take(i as int)),
            decreases self.vout@.len() - i,
        {
            proof {
                assert(outputs.take(i + 1).drop_last() =~= outputs.take(i as int));
                assert(outputs.take(i + 1).last() == self.vout@[i as int]@);
            }
            match total.checked_add(self.vout[i].get_value()) {
                Some(sum) => { total = sum; },
                None => {
                    proof {
                        lemma_sum_values_grows(outputs, i + 1);
                    }
                    return Err(BlockchainError::Transaction(owned("Output value overflow")));
                },
            }
            i += 1;
        }
        assert(outputs.take(outputs.len() as int) =~= outputs);
        Ok(total)
    }
}

/// The sum of a prefix is at most the sum of the whole.
pub proof fn lemma_sum_values_grows(outputs: Seq<OutputModel>, k: int)
    requires
        0 <= k <= outputs.len(),
    ensures
        sum_values(outputs.take(k)) <= sum_values(outputs),
        sum_values(outputs) >= 0,
    decreases outputs.len(),
{
    if outputs.len() == 0 {
        assert(outputs.take(k) =~= outputs);
    } else if k == outputs.len() {
        assert(outputs.take(k) =~= outputs);
        lemma_sum_values_grows(outputs.drop_last(), k - 1);
    } else {
        lemma_sum_values_grows(outputs.drop_last(), k);
        assert(outputs.drop_last().take(k) =~= outputs.take(k));
    }
}

} // verus!

verus! {

use crate::chain::block::BlockModel;
use crate::chain::blockchain::{spec_find_transaction, spec_inputs_spendable, Blockchain};
use crate::utils::crypto::{
    ecdsa_p256_sha256_sign_digest, ecdsa_p256_sha256_sign_verify, spec_ecdsa_verify, spec_signs,
};
use crate::wallet::wallet::{hash_pub_key, spec_hash_pub_key};

/// The output that an input names in a chain: output `vout` of the first
/// transaction with the identifier `txid`.
pub open spec fn spec_referenced_output(chain: Seq<BlockModel>, input: InputModel) -> Option<
    OutputModel,
> {
    match spec_find_transaction(chain, input.txid) {
        Some(previous) => if input.vout < previous.vout.len() {
            Some(previous.vout[input.vout as int])
        } else {
            None
        },
        None => None,
    }
}

/// Whether every input names an output of the chain.
pub open spec fn spec_inputs_resolve(chain: Seq<BlockModel>, inputs: Seq<InputModel>) -> bool {
    forall|i: int| 0 <= i < inputs.len() ==> spec_referenced_output(chain, #[trigger] inputs[i])
        is Some
}

/// The sum of the values of the outputs that the inputs name.
pub open spec fn spec_input_sum(chain: Seq<BlockModel>, inputs: Seq<InputModel>) -> int
    decreases inputs.len(),
{
    if inputs.len() == 0 {
        0
    } else {
        spec_input_sum(chain, inputs.drop_last()) + (match spec_referenced_output(
            chain,
            inputs.last(),
        ) {
            Some(output) => output.value as int,
            None => 0,
        })
    }
}

/// The sum over a prefix of the inputs is at most the sum over all.
pub proof fn lemma_input_sum_grows(chain: Seq<BlockModel>, inputs: Seq<InputModel>, k: int)
    requires
        0 <= k <= inputs.len(),
    ensures
        0 <= spec_input_sum(chain, inputs.take(k)) <= spec_input_sum(chain, inputs),
    decreases inputs.len(),
{
    if inputs.len() == 0 {
        assert(inputs.take(k) =~= inputs);
    } else if k == inputs.len() {
        assert(inputs.take(k) =~= inputs);
        lemma_input_sum_grows(chain, inputs.drop_last(), k - 1);
    } else {
        lemma_input_sum_grows(chain, inputs.drop_last(), k);
        assert(inputs.drop_last().take(k) =~= inputs.take(k));
    }
}

/// Balance conservation: every input names an output of the chain, and the
/// values that come in are the values that go out plus the fee, with no sum
/// leaving 64 bits.
pub open spec fn spec_balanced(chain: Seq<BlockModel>, transaction: TransactionModel) -> bool {
    &&& spec_inputs_resolve(chain, transaction.vin)
    &&& spec_input_sum(chain, transaction.vin) <= u64::MAX
    &&& transaction.output_sum() + transaction.fee <= u64::MAX
    &&& spec_input_sum(chain, transaction.vin) == transaction.output_sum() + transaction.fee
}

/// Whether input `i` is signed by the owner of the output it spends: the
/// hash of its public key is the hash that locks the output, and its
/// signature is one of the signing digest under that key.
pub open spec fn spec_input_signed(chain: Seq<BlockModel>, transaction: TransactionModel, i: int)
    -> bool {
    match spec_referenced_output(chain, transaction.vin[i]) {
        Some(output) => spec_hash_pub_key(transaction.vin[i].pub_key) == output.pub_key_hash
            && spec_ecdsa_verify(
            transaction.vin[i].pub_key,
            transaction.vin[i].signature,
            transaction.signing_digest(i, output.pub_key_hash),
        ),
        None => false,
    }
}

/// Whether a transaction is valid against a chain. A coinbase needs one
/// input, an output and no fee. Any other transaction needs inputs that the
/// chain has not spent, balance conservation, and every input signed by the
/// owner of the output it spends.
pub open spec fn spec_verify(chain: Seq<BlockModel>, transaction: TransactionModel) -> bool {
    if transaction.is_coinbase() {
        transaction.coinbase_in_order()
    } else {
        &&& spec_inputs_spendable(chain, transaction)
        &&& spec_balanced(chain, transaction)
        &&& forall|i: int|
            0 <= i < transaction.vin.len() ==> #[trigger] spec_input_signed(chain, transaction, i)
    }
}

/// What signing leaves as it was: identifier, outputs, fee, and of every
/// input all but the signature.
pub open spec fn spec_signed_form_of(signed: TransactionModel, unsigned: TransactionModel) -> bool {
    &&& signed.id == unsigned.id
    &&& signed.vout == unsigned.vout
    &&& signed.fee == unsigned.fee
    &&& signed.vin.len() == unsigned.vin.len()
    &&& forall|i: int|
        0 <= i < signed.vin.len() ==> (#[trigger] signed.vin[i]).txid == unsigned.vin[i].txid
            && signed.vin[i].vout == unsigned.vin[i].vout && signed.vin[i].pub_key
            == unsigned.vin[i].pub_key
}

/// Whether the signature of input `i` is one of its signing digest under the
/// key pair of the document `pkcs8`.
pub open spec fn spec_input_signed_with(
    chain: Seq<BlockModel>,
    transaction: TransactionModel,
    pkcs8: Seq<u8>,
    i: int,
) -> bool {
    match spec_referenced_output(chain, transaction.vin[i]) {
        Some(output) => spec_signs(
            pkcs8,
            transaction.vin[i].signature,
            transaction.signing_digest(i, output.pub_key_hash),
        ),
        None => false,
    }
}

/// Whether every input carries a signature of its signing digest under the
/// key pair of the document `pkcs8`.
pub open spec fn spec_signed_with(
    chain: Seq<BlockModel>,
    transaction: TransactionModel,
    pkcs8: Seq<u8>,
) -> bool {
    forall|i: int|
        0 <= i < transaction.vin.len() ==> #[trigger] spec_input_signed_with(
            chain,
            transaction,
            pkcs8,
            i,
        )
}

/// The signing digests do not depend on signatures: two transactions that
/// differ in their signatures alone have the same.
pub proof fn lemma_signing_digest_ignores_signatures(
    signed: TransactionModel,
    unsigned: TransactionModel,
    idx: int,
    locking_hash: Seq<u8>,
)
    requires
        spec_signed_form_of(signed, unsigned),
        0 <= idx < signed.vin.len(),
    ensures
        signed.signing_digest(idx, locking_hash) == unsigned.signing_digest(idx, locking_hash),
{
    assert(signed.trimmed().vin =~= unsigned.trimmed().vin);
    assert(signed.trimmed() == unsigned.trimmed());
}

/// A signature that verifies under the key an input carries, for an input
/// whose key is that of the signing key pair and hashes to the lock of the
/// output it spends, makes that input signed by the owner.
pub proof fn lemma_signed_with_own_key(
    chain: Seq<BlockModel>,
    transaction: TransactionModel,
    pkcs8: Seq<u8>,
    i: int,
)
    requires
        0 <= i < transaction.vin.len(),
        spec_input_signed_with(chain, transaction, pkcs8, i),
        crate::utils::crypto::spec_public_key(pkcs8) == Some(transaction.vin[i].pub_key),
        spec_referenced_output(chain, transaction.vin[i]) is Some,
        spec_hash_pub_key(transaction.vin[i].pub_key) == spec_referenced_output(
            chain,
            transaction.vin[i],
        )->Some_0.pub_key_hash,
    ensures
        spec_input_signed(chain, transaction, i),
{
}

impl Transaction {
    /// The output that input `input` names in the main chain.
    fn referenced_output(blockchain: &Blockchain, input: &TXInput) -> (out: Option<TXOutput>)
        ensures
            match spec_referenced_output(blockchain@.main_chain(), input@) {
                Some(output) => out is Some && out->Some_0@ == output,
                None => out is None,
            },
    {
        match blockchain.find_transaction(input.get_txid()) {
            Some(previous) => {
                let outputs = previous.get_vout();
                if input.get_vout() < outputs.len() {
                    assert(previous@.vout[input@.vout as int] == outputs@[input@.vout as int]@);
                    Some(outputs[input.get_vout()].clone())
                } else {
                    None
                }
            },
            None => None,
        }
    }

    /// The sum of the values that the inputs name, or `None` where an input
    /// names no output of the main chain or the sum leaves 64 bits.
    fn checked_input_sum(&self, blockchain: &Blockchain) -> (out: Option<u64>)
        ensures
            match out {
                Some(total) => spec_inputs_resolve(blockchain@.main_chain(), self@.vin) && total
                    == spec_input_sum(blockchain@.main_chain(), self@.vin),
                None => !spec_inputs_resolve(blockchain@.main_chain(), self@.vin)
                    || spec_input_sum(blockchain@.main_chain(), self@.vin) > u64::MAX,
            },
    {
        let ghost chain = blockchain@.main_chain();
        let ghost inputs = self@.vin;
        let mut total: u64 = 0;
        let mut i: usize = 0;
        assert(inputs.take(0) =~= Seq::<InputModel>::empty());
        while i < self.vin.len()
            invariant
                i <= self.vin@.len(),
                chain == blockchain@.main_chain(),
                inputs == self@.vin,
                inputs.len() == self.vin@.len(),
                total == spec_input_sum(chain, inputs.take(i as int)),
                forall|j: int|
                    0 <= j < i ==> spec_referenced_output(chain, #[trigger] inputs[j]) is Some,
            decreases self.vin@.len() - i,
        {
            proof {
                assert(inputs[i as int] == self.vin@[i as int]@);
                assert(inputs.take(i + 1).drop_last() =~= inputs.take(i as int));
                assert(inputs.take(i + 1).last() == inputs[i as int]);
            }
            let output = match Self::referenced_output(blockchain, &self.vin[i]) {
                Some(output) => output,
                None => { return None; },
            };
            match total.checked_add(output.get_value()) {
                Some(sum) => { total = sum; },
                None => {
                    proof {
                        lemma_input_sum_grows(chain, inputs, i + 1);
                    }
                    return None;
                },
            }
            i += 1;
        }
        assert(inputs.take(inputs.len() as int) =~= inputs);
        Some(total)
    }

    /// Whether the transaction conserves value against the main chain.
    pub fn verify_balance(&self, blockchain: &Blockchain) -> (ok: bool)
        ensures
            ok == spec_balanced(blockchain@.main_chain(), self@),
    {
        let input_value = match self.checked_input_sum(blockchain) {
            Some(total) => total,
            None => { return false; },
        };
        let output_value = match self.get_output_value() {
            Ok(total) => total,
            Err(_) => {
                proof {
                    lemma_sum_values_grows(self@.vout, 0);
                }
                return false;
            },
        };
        let total_spent = match output_value.checked_add(self.fee) {
            Some(total) => total,
            None => { return false; },
        };
        input_value == total_spent
    }

    /// The sum of the values that the inputs name; 0 for a coinbase.
    /// `Transaction` where an input names no output of the main chain or the
    /// sum leaves 64 bits.
    pub fn get_input_value(&self, blockchain: &Blockchain) -> (out: Result<u64, BlockchainError>)
        ensures
            self@.is_coinbase() ==> out == Ok::<u64, BlockchainError>(0),
            !self@.is_coinbase() ==> (if spec_inputs_resolve(blockchain@.main_chain(), self@.vin)
                && spec_input_sum(blockchain@.main_chain(), self@.vin) <= u64::MAX {
                out is Ok && out->Ok_0 == spec_input_sum(blockchain@.main_chain(), self@.vin)
            } else {
                out is Err && out->Err_0 is Transaction
            }),
    {
        if self.is_coinbase() {
            return Ok(0);
        }
        match self.checked_input_sum(blockchain) {
            Some(total) => Ok(total),
            None => Err(
                BlockchainError::Transaction(
                    owned("Previous transaction not found, invalid output index or overflow"),
                ),
            ),
        }
    }

    /// `Ok(true)` for a coinbase and for a transaction that conserves value
    /// against the main chain; else `Transaction`.
    pub fn verify_balance_detailed(&self, blockchain: &Blockchain) -> (out: Result<
        bool,
        BlockchainError,
    >)
        ensures
            self@.is_coinbase() || spec_balanced(blockchain@.main_chain(), self@) ==> out == Ok::<
                bool,
                BlockchainError,
            >(true),
            !self@.is_coinbase() && !spec_balanced(blockchain@.main_chain(), self@) ==> out is Err
                && out->Err_0 is Transaction,
    {
        if self.is_coinbase() {
            return Ok(true);
        }
        if self.verify_balance(blockchain) {
            Ok(true)
        } else {
            Err(BlockchainError::Transaction(owned("Transaction balance violation")))
        }
    }

    /// Whether input `idx` is signed by the owner of the output it spends.
    fn verify_input(&self, blockchain: &Blockchain, idx: usize) -> (ok: bool)
        requires
            idx < self@.vin.len(),
        ensures
            ok == spec_input_signed(blockchain@.main_chain(), self@, idx as int),
    {
        let vin = &self.vin[idx];
        assert(self@.vin[idx as int] == vin@);
        let output = match Self::referenced_output(blockchain, vin) {
            Some(output) => output,
            None => { return false; },
        };
        let locking_hash = hash_pub_key(vin.get_pub_key());
        if !bytes_eq(locking_hash.as_slice(), output.get_pub_key_hash()) {
            return false;
        }
        let digest = self.signing_digest(idx, output.get_pub_key_hash());
        ecdsa_p256_sha256_sign_verify(vin.get_pub_key(), vin.get_signature(), digest.as_slice())
    }

    /// Whether the transaction is valid against the main chain.
    pub fn verify(&self, blockchain: &Blockchain) -> (ok: bool)
        ensures
            ok == spec_verify(blockchain@.main_chain(), self@),
            ok && !self@.is_coinbase() ==> spec_input_sum(blockchain@.main_chain(), self@.vin)
                == self@.output_sum() + self@.fee,
    {
        if self.is_coinbase() {
            return self.verify_coinbase();
        }
        match blockchain.validate_transaction_inputs(self) {
            Ok(_) => {},
            Err(_) => { return false; },
        }
        if !self.verify_balance(blockchain) {
            return false;
        }
        let ghost chain = blockchain@.main_chain();
        let mut idx: usize = 0;
        while idx < self.vin.len()
            invariant
                idx <= self.vin@.len(),
                self.vin@.len() == self@.vin.len(),
                chain == blockchain@.main_chain(),
                !self@.is_coinbase(),
                spec_inputs_spendable(chain, self@),
                spec_balanced(chain, self@),
                forall|i: int| 0 <= i < idx ==> #[trigger] spec_input_signed(chain, self@, i),
            decreases self.vin@.len() - idx,
        {
            if !self.verify_input(blockchain, idx) {
                return false;
            }
            idx += 1;
        }
        true
    }

    /// Signs every input with the key of `pkcs8`. `Transaction` where an
    /// input names no output of the main chain, `Crypto` where signing
    /// fails. On success only the signatures have changed, each is 64 bytes
    /// long, and each is a signature of its input's signing digest under the
    /// key pair of `pkcs8`.
    pub fn sign(&mut self, blockchain: &Blockchain, pkcs8: &[u8]) -> (out: Result<
        (),
        BlockchainError,
    >)
        ensures
            !spec_inputs_resolve(blockchain@.main_chain(), old(self)@.vin) ==> out is Err,
            out is Err ==> out->Err_0 is Transaction || out->Err_0 is Crypto,
            out is Err && out->Err_0 is Transaction ==> !spec_inputs_resolve(
                blockchain@.main_chain(),
                old(self)@.vin,
            ),
            spec_signed_form_of(final(self)@, old(self)@),
            out is Ok ==> forall|i: int|
                0 <= i < final(self)@.vin.len() ==> (#[trigger] final(self)@.vin[i]).signature.len()
                    == 64,
            out is Ok ==> spec_signed_with(blockchain@.main_chain(), final(self)@, pkcs8@),
    {
        let ghost chain = blockchain@.main_chain();
        let ghost start = self@;
        let count = self.vin.len();
        let mut idx: usize = 0;
        while idx < count
            invariant
                idx <= count,
                count == start.vin.len(),
                start == old(self)@,
                chain == blockchain@.main_chain(),
                spec_signed_form_of(self@, start),
                forall|i: int|
                    0 <= i < idx ==> spec_referenced_output(chain, #[trigger] start.vin[i]) is Some,
                forall|i: int| 0 <= i < idx ==> (#[trigger] self@.vin[i]).signature.len() == 64,
                forall|i: int|
                    0 <= i < idx ==> #[trigger] spec_input_signed_with(chain, self@, pkcs8@, i),
            decreases count - idx,
        {
            let ghost before = self@;
            assert(before.vin[idx as int] == self.vin@[idx as int]@);
            let output = match Self::referenced_output(blockchain, &self.vin[idx]) {
                Some(output) => output,
                None => {
                    proof {
                        assert(spec_referenced_output(chain, start.vin[idx as int]) is None);
                    }
                    return Err(
                        BlockchainError::Transaction(
                            owned("Previous transaction not found or invalid output index"),
                        ),
                    );
                },
            };
            let digest = self.signing_digest(idx, output.get_pub_key_hash());
            let signature = match ecdsa_p256_sha256_sign_digest(pkcs8, digest.as_slice()) {
                Ok(signature) => signature,
                Err(e) => { return Err(e); },
            };
            let ghost made = signature@;
            self.set_signature(idx, signature);
            proof {
                assert forall|i: int| 0 <= i < self@.vin.len() implies (#[trigger] self@.vin[i]).txid
                    == start.vin[i].txid && self@.vin[i].vout == start.vin[i].vout
                    && self@.vin[i].pub_key == start.vin[i].pub_key by {
                    assert(before.vin[i].txid == start.vin[i].txid);
                }
                assert forall|i: int| 0 <= i < idx + 1 implies (#[trigger] self@.vin[i]).signature.len()
                    == 64 by {
                    if i < idx {
                        assert(before.vin[i].signature.len() == 64);
                    }
                }
                assert(spec_signed_form_of(self@, before));
                assert forall|i: int| 0 <= i < idx + 1 implies #[trigger] spec_input_signed_with(
                    chain,
                    self@,
                    pkcs8@,
                    i,
                ) by {
                    let lock = spec_referenced_output(chain, before.vin[i])->Some_0.pub_key_hash;
                    lemma_signing_digest_ignores_signatures(self@, before, i, lock);
                    if i < idx {
                        assert(spec_input_signed_with(chain, before, pkcs8@, i));
                        assert(self@.vin[i] == before.vin[i]);
                    } else {
                        assert(self@.vin[i].signature == made);
                    }
                }
            }
            idx += 1;
        }
        Ok(())
    }
}

} // verus!

verus! {

use crate::chain::fees::{FeeCalculator, FeePriority};
use crate::storage::utxo_set::{
    selection_models, spec_gathered, spec_selected, SelectionModel, SpendableOutputs, UTXOSet,
};
use crate::wallet::wallet::{validate_address, Wallet};
use crate::wallet::wallets::Wallets;

/// The inputs that spend the places of one selection with a public key.
pub open spec fn spec_inputs_of_selection(selection: SelectionModel, pub_key: Seq<u8>) -> Seq<
    InputModel,
> {
    selection.vouts.map_values(
        |vout: usize|
            InputModel { txid: selection.txid, vout, signature: Seq::empty(), pub_key },
    )
}

/// The inputs that spend the places of all selections, in order.
pub open spec fn spec_inputs_of(selected: Seq<SelectionModel>, pub_key: Seq<u8>) -> Seq<InputModel>
    decreases selected.len(),
{
    if selected.len() == 0 {
        Seq::empty()
    } else {
        spec_inputs_of(selected.drop_last(), pub_key) + spec_inputs_of_selection(
            selected.last(),
            pub_key,
        )
    }
}

/// The spend before it is signed: the inputs, an output of `amount` to the
/// receiver, an output of the change to the sender where there is change,
/// the fee, and the identifier that the encoding gives.
pub open spec fn spec_unsigned_spend(
    inputs: Seq<InputModel>,
    amount: u64,
    to_hash: Seq<u8>,
    change: u64,
    from_hash: Seq<u8>,
    fee: u64,
) -> TransactionModel {
    let outputs = if change > 0 {
        seq![
            OutputModel { value: amount, pub_key_hash: to_hash },
            OutputModel { value: change, pub_key_hash: from_hash },
        ]
    } else {
        seq![OutputModel { value: amount, pub_key_hash: to_hash }]
    };
    let body = TransactionModel { id: Seq::empty(), vin: inputs, vout: outputs, fee };
    TransactionModel { id: body.hash(), ..body }
}

/// What stands in the way of a spend before any output is looked for.
pub open spec fn spec_request_in_order(from: Seq<char>, to: Seq<char>, amount: u64) -> bool {
    amount != 0 && spec_validate_address(from) && spec_validate_address(to)
}

/// What the making of a spend gives. Errors, in this order: `Transaction`
/// for an amount of zero, `InvalidAddress` for an address that is not valid,
/// `Wallet` where no wallet stands under `from`, `Transaction` where amount
/// plus fee leaves 64 bits, `InsufficientFunds` with what is needed and what
/// was gathered, `Transaction` where an input names no output of the main
/// chain, `Crypto` where signing fails. On success the result is the spend
/// that `spec_planned_spend` describes, and each input carries a signature
/// of 64 bytes, made of its signing digest under the wallet's key pair.
pub open spec fn spec_spend_made(
    out: Result<Transaction, BlockchainError>,
    from: Seq<char>,
    to: Seq<char>,
    amount: u64,
    fee_amount: u64,
    utxo_set: UTXOSet,
    wallets: Wallets,
) -> bool {
    if amount == 0 {
        out is Err && out->Err_0 is Transaction
    } else if !(spec_validate_address(from) && spec_validate_address(to)) {
        out is Err && out->Err_0 is InvalidAddress
    } else if wallets.spec_wallet(from) is None {
        out is Err && out->Err_0 is Wallet
    } else if amount + fee_amount > u64::MAX {
        out is Err && out->Err_0 is Transaction
    } else {
        let wallet = wallets.spec_wallet(from)->Some_0;
        let hash = spec_hash_pub_key(wallet.spec_key());
        let needed = (amount + fee_amount) as u64;
        let gathered = spec_gathered(utxo_set@.chainstate, hash, needed);
        let unsigned = spec_planned_spend(from, to, amount, fee_amount, utxo_set, wallet);
        if gathered < needed {
            out == Err::<Transaction, BlockchainError>(
                BlockchainError::InsufficientFunds { required: needed, available: gathered },
            )
        } else {
            &&& !spec_inputs_resolve(utxo_set@.main_chain(), unsigned.vin) ==> out is Err
            &&& out is Err ==> out->Err_0 is Transaction || out->Err_0 is Crypto
            &&& out is Err && out->Err_0 is Transaction ==> !spec_inputs_resolve(
                utxo_set@.main_chain(),
                unsigned.vin,
            )
            &&& out is Ok ==> {
                &&& spec_signed_form_of(out->Ok_0@, unsigned)
                &&& forall|k: int|
                    0 <= k < out->Ok_0@.vin.len() ==> (#[trigger] out->Ok_0@.vin[k]).signature.len()
                        == 64
                &&& spec_signed_with(utxo_set@.main_chain(), out->Ok_0@, wallet.spec_pkcs8())
            }
        }
    }
}

/// The spend, not yet signed, that pays `amount` from `from` to `to` with
/// the fee `fee_amount` out of the outputs gathered for `wallet`: the
/// payment first, then the change where any is left.
pub open spec fn spec_planned_spend(
    from: Seq<char>,
    to: Seq<char>,
    amount: u64,
    fee_amount: u64,
    utxo_set: UTXOSet,
    wallet: Wallet,
) -> TransactionModel {
    let key = wallet.spec_key();
    let hash = spec_hash_pub_key(key);
    let needed = (amount + fee_amount) as u64;
    let gathered = spec_gathered(utxo_set@.chainstate, hash, needed);
    spec_unsigned_spend(
        spec_inputs_of(spec_selected(utxo_set@.chainstate, hash, needed), key),
        amount,
        spec_address_key_hash(to)->Some_0,
        (gathered - needed) as u64,
        spec_address_key_hash(from)->Some_0,
        fee_amount,
    )
}

impl Transaction {
    /// The inputs that spend the places of all selections with `pub_key`.
    fn inputs_of(selected: &Vec<SpendableOutputs>, pub_key: &[u8]) -> (out: Vec<TXInput>)
        ensures
            input_models(out@) == spec_inputs_of(selection_models(selected@), pub_key@),
    {
        let ghost all = selection_models(selected@);
        let mut inputs: Vec<TXInput> = Vec::new();
        let mut s: usize = 0;
        proof {
            assert(all.take(0) =~= Seq::<SelectionModel>::empty());
            assert(input_models(inputs@) =~= Seq::<InputModel>::empty());
        }
        while s < selected.len()
            invariant
                s <= selected@.len(),
                all == selection_models(selected@),
                all.len() == selected@.len(),
                input_models(inputs@) == spec_inputs_of(all.take(s as int), pub_key@),
            decreases selected@.len() - s,
        {
            let selection = &selected[s];
            let ghost entry = input_models(inputs@);
            let ghost made = spec_inputs_of_selection(selection@, pub_key@);
            let mut k: usize = 0;
            proof {
                assert(all.take(s + 1).drop_last() =~= all.take(s as int));
                assert(all.take(s + 1).last() == selection@);
                assert(entry + made.take(0) =~= entry);
            }
            while k < selection.vouts.len()
                invariant
                    k <= selection.vouts@.len(),
                    made == spec_inputs_of_selection(selection@, pub_key@),
                    made.len() == selection.vouts@.len(),
                    input_models(inputs@) == entry + made.take(k as int),
                decreases selection.vouts@.len() - k,
            {
                let ghost before = inputs@;
                let input = TXInput {
                    txid: selection.txid.clone(),
                    vout: selection.vouts[k],
                    signature: Vec::new(),
                    pub_key: vstd::slice::slice_to_vec(pub_key),
                };
                inputs.push(input);
                proof {
                    assert(input@ == made[k as int]);
                    assert(input_models(inputs@) =~= input_models(before).push(made[k as int]));
                    assert(entry + made.take(k + 1) =~= (entry + made.take(k as int)).push(
                        made[k as int],
                    ));
                }
                k += 1;
            }
            proof {
                assert(made.take(made.len() as int) =~= made);
            }
            s += 1;
        }
        proof {
            assert(all.take(all.len() as int) =~= all);
        }
        inputs
    }

    /// Builds the spend of `amount` from the wallet at `from` to `to` with
    /// the fee `fee_amount`, not yet signed. The outputs are gathered from
    /// the index until `amount` plus fee is reached. Errors, in this order:
    /// `Transaction` for an amount of zero, `InvalidAddress` for an address
    /// that is not valid, `Wallet` where no wallet stands under `from`,
    /// `Transaction` where amount plus fee leaves 64 bits,
    /// `InsufficientFunds` where less was gathered than is needed.
    pub fn build_spend(
        from: &str,
        to: &str,
        amount: u64,
        fee_amount: u64,
        utxo_set: &UTXOSet,
        wallets: &Wallets,
    ) -> (out: Result<Transaction, BlockchainError>)
        ensures
            amount == 0 ==> out is Err && out->Err_0 is Transaction,
            amount != 0 && !(spec_validate_address(from@) && spec_validate_address(to@)) ==> out
                is Err && out->Err_0 is InvalidAddress,
            spec_request_in_order(from@, to@, amount) && wallets.spec_wallet(from@) is None ==> out
                is Err && out->Err_0 is Wallet,
            spec_request_in_order(from@, to@, amount) && wallets.spec_wallet(from@) is Some
                && amount + fee_amount > u64::MAX ==> out is Err && out->Err_0 is Transaction,
            spec_request_in_order(from@, to@, amount) && wallets.spec_wallet(from@) is Some
                && amount + fee_amount <= u64::MAX ==> ({
                let wallet = wallets.spec_wallet(from@)->Some_0;
                let needed = (amount + fee_amount) as u64;
                let gathered = spec_gathered(
                    utxo_set@.chainstate,
                    spec_hash_pub_key(wallet.spec_key()),
                    needed,
                );
                if gathered < needed {
                    out == Err::<Transaction, BlockchainError>(
                        BlockchainError::InsufficientFunds {
                            required: needed,
                            available: gathered,
                        },
                    )
                } else {
                    out is Ok && out->Ok_0@ == spec_planned_spend(
                        from@,
                        to@,
                        amount,
                        fee_amount,
                        *utxo_set,
                        wallet,
                    )
                }
            }),
    {
        if amount == 0 {
            return Err(BlockchainError::Transaction(owned("Amount must be positive")));
        }
        if !validate_address(from) {
            return Err(BlockchainError::InvalidAddress(owned("Invalid from address")));
        }
        if !validate_address(to) {
            return Err(BlockchainError::InvalidAddress(owned("Invalid to address")));
        }
        let wallet = match wallets.get_wallet(from) {
            Some(wallet) => wallet,
            None => {
                return Err(BlockchainError::Wallet(owned("Wallet not found for address")));
            },
        };
        let total_needed = match amount.checked_add(fee_amount) {
            Some(total) => total,
            None => {
                return Err(BlockchainError::Transaction(owned("Amount and fee out of range")));
            },
        };
        let public_key_hash = hash_pub_key(wallet.get_public_key());
        let (accumulated, valid_outputs) = utxo_set.find_spendable_outputs(
            public_key_hash.as_slice(),
            total_needed,
        );
        if accumulated < total_needed {
            return Err(
                BlockchainError::InsufficientFunds { required: total_needed, available: accumulated },
            );
        }
        let inputs = Self::inputs_of(&valid_outputs, wallet.get_public_key());
        let mut outputs: Vec<TXOutput> = Vec::new();
        match TXOutput::new(amount, to) {
            Ok(output) => { outputs.push(output); },
            Err(e) => { return Err(e); },
        }
        let change = accumulated - total_needed;
        if change > 0 {
            match TXOutput::new(change, from) {
                Ok(output) => { outputs.push(output); },
                Err(e) => { return Err(e); },
            }
        }
        let mut tx = Transaction { id: Vec::new(), vin: inputs, vout: outputs, fee: fee_amount };
        proof {
            let to_hash = spec_address_key_hash(to@)->Some_0;
            let from_hash = spec_address_key_hash(from@)->Some_0;
            if change > 0 {
                assert(tx@.vout =~= seq![
                    OutputModel { value: amount, pub_key_hash: to_hash },
                    OutputModel { value: change, pub_key_hash: from_hash },
                ]);
            } else {
                assert(tx@.vout =~= seq![OutputModel { value: amount, pub_key_hash: to_hash }]);
            }
            assert(tx@.id =~= Seq::<u8>::empty());
        }
        let id = tx.hash();
        tx.id = id;
        Ok(tx)
    }

    /// Builds and signs a spend with an explicit fee; see `build_spend` for
    /// the errors before signing and `sign` for those of signing. On success
    /// the result differs from the spend that `build_spend` gives in the
    /// signatures alone.
    pub fn new_utxo_transaction_with_explicit_fee(
        from: &str,
        to: &str,
        amount: u64,
        fee_amount: u64,
        utxo_set: &UTXOSet,
        wallets: &Wallets,
    ) -> (out: Result<Transaction, BlockchainError>)
        ensures
            spec_spend_made(out, from@, to@, amount, fee_amount, *utxo_set, *wallets),
    {
        let mut tx = match Self::build_spend(from, to, amount, fee_amount, utxo_set, wallets) {
            Ok(tx) => tx,
            Err(e) => { return Err(e); },
        };
        let wallet = match wallets.get_wallet(from) {
            Some(wallet) => wallet,
            None => {
                return Err(BlockchainError::Wallet(owned("Wallet not found for address")));
            },
        };
        match tx.sign(utxo_set.get_blockchain(), wallet.get_pkcs8()) {
            Ok(()) => {},
            Err(e) => { return Err(e); },
        }
        Ok(tx)
    }

    /// Builds and signs a spend whose fee the fee calculator sets for
    /// `priority`; see `new_utxo_transaction_with_explicit_fee`.
    pub fn new_utxo_transaction_with_priority(
        from: &str,
        to: &str,
        amount: u64,
        priority: FeePriority,
        utxo_set: &UTXOSet,
        wallets: &Wallets,
        fee_calculator: &FeeCalculator,
        mempool_size: usize,
    ) -> (out: Result<Transaction, BlockchainError>)
        ensures
            spec_spend_made(
                out,
                from@,
                to@,
                amount,
                fee_calculator.calculator.spec_fee(Some(priority), mempool_size) as u64,
                *utxo_set,
                *wallets,
            ),
    {
        let estimated_size = FeeCalculator::estimate_transaction_size(1, 2);
        let fee_amount = fee_calculator.calculate_fee(estimated_size, Some(priority), mempool_size);
        Self::new_utxo_transaction_with_explicit_fee(from, to, amount, fee_amount, utxo_set, wallets)
    }

    /// Builds and signs a spend at normal priority.
    pub fn new_utxo_transaction(
        from: &str,
        to: &str,
        amount: u64,
        utxo_set: &UTXOSet,
        wallets: &Wallets,
        fee_calculator: &FeeCalculator,
        mempool_size: usize,
    ) -> (out: Result<Transaction, BlockchainError>)
        ensures
            spec_spend_made(
                out,
                from@,
                to@,
                amount,
                fee_calculator.calculator.spec_fee(Some(FeePriority::Normal), mempool_size) as u64,
                *utxo_set,
                *wallets,
            ),
    {
        Self::new_utxo_transaction_with_priority(
            from,
            to,
            amount,
            FeePriority::Normal,
            utxo_set,
            wallets,
            fee_calculator,
            mempool_size,
        )
    }

    /// Builds and signs a spend whose fee is `fee_rate` per byte of a
    /// transaction of two inputs and two outputs: `Transaction` where the
    /// rate lies outside the range from 1 to 1000.
    pub fn new_utxo_transaction_with_fee(
        from: &str,
        to: &str,
        amount: u64,
        fee_rate: u64,
        utxo_set: &UTXOSet,
        wallets: &Wallets,
    ) -> (out: Result<Transaction, BlockchainError>)
        ensures
            !(1 <= fee_rate <= 1000) ==> out is Err && out->Err_0 is Transaction,
            1 <= fee_rate <= 1000 ==> spec_spend_made(
                out,
                from@,
                to@,
                amount,
                (158 * fee_rate) as u64,
                *utxo_set,
                *wallets,
            ),
    {
        match FeeCalculator::validate_fee_rate(fee_rate) {
            Ok(()) => {},
            Err(e) => { return Err(e); },
        }
        let estimated_size = FeeCalculator::estimate_transaction_size(2, 2);
        let legacy_fee = match FeeCalculator::calculate_legacy_fee(estimated_size, fee_rate) {
            Ok(fee) => fee,
            Err(e) => { return Err(e); },
        };
        Self::new_utxo_transaction_with_explicit_fee(from, to, amount, legacy_fee, utxo_set, wallets)
    }
}

} // verus!
