//! Reindex equivalence: what the UTXO index holds after the blocks of a chain
//! were applied one by one is what a rebuild from the chain holds, for the
//! chains whose outputs are spent in falling order of place.

use crate::chain::block::BlockModel;
use crate::chain::blockchain::{
    lemma_record_index,
    spec_any_spends,
    spec_find_in_transactions,
    spec_find_transaction,
    spec_append_outputs,
    spec_find_utxo,
    spec_get_record,
    spec_index_blocks,
    spec_index_transactions,
    spec_is_output_spent,
    spec_put_record,
    spec_record_absent,
    spec_record_index,
    spec_remove_record,
    spec_transaction_spends,
    spec_unspent_of,
    spec_unspent_outputs,
    RecordModel,
};
use crate::chain::spend_laws::{spec_index_shows_chain, spec_record_shown};
use crate::chain::transaction::{InputModel, OutputModel, TransactionModel};
use crate::storage::utxo_laws::{
    lemma_get_after_put, lemma_get_after_put_other, lemma_record_present,
};
use crate::storage::utxo_set::{
    spec_apply_block,
    spec_apply_transactions,
    spec_spend_input,
    spec_spend_inputs,
};
use vstd::prelude::*;

verus! {

/// The first `count` outputs that are not spent, in order.
pub open spec fn spec_left(outputs: Seq<OutputModel>, spent: spec_fn(int) -> bool, count: int)
    -> Seq<OutputModel>
    decreases count,
{
    if count <= 0 {
        Seq::empty()
    } else {
        let before = spec_left(outputs, spent, count - 1);
        if spent(count - 1) {
            before
        } else {
            before.push(outputs[count - 1])
        }
    }
}

/// What is left depends on which places are spent, not on how that is said.
pub proof fn lemma_left_same(
    outputs: Seq<OutputModel>,
    first: spec_fn(int) -> bool,
    second: spec_fn(int) -> bool,
    count: int,
)
    requires
        forall|v: int| 0 <= v < count ==> #[trigger] first(v) == second(v),
    ensures
        spec_left(outputs, first, count) == spec_left(outputs, second, count),
    decreases count,
{
    if count > 0 {
        lemma_left_same(outputs, first, second, count - 1);
    }
}

/// Where nothing is spent, everything is left.
pub proof fn lemma_left_untouched(outputs: Seq<OutputModel>, spent: spec_fn(int) -> bool, count: int)
    requires
        0 <= count <= outputs.len(),
        forall|v: int| 0 <= v < count ==> !#[trigger] spent(v),
    ensures
        spec_left(outputs, spent, count) == outputs.take(count),
    decreases count,
{
    if count > 0 {
        lemma_left_untouched(outputs, spent, count - 1);
        assert(outputs.take(count) =~= outputs.take(count - 1).push(outputs[count - 1]));
    } else {
        assert(outputs.take(0) =~= Seq::<OutputModel>::empty());
    }
}

/// Where no place up to `v` is spent, output `v` stands at place `v` of what
/// is left, and spending it takes that place out.
pub proof fn lemma_left_after_spend(
    outputs: Seq<OutputModel>,
    before: spec_fn(int) -> bool,
    after: spec_fn(int) -> bool,
    v: int,
    count: int,
)
    requires
        0 <= v < count <= outputs.len(),
        forall|u: int| 0 <= u <= v ==> !#[trigger] before(u),
        forall|u: int| 0 <= u < count ==> #[trigger] after(u) == (before(u) || u == v),
    ensures
        v < spec_left(outputs, before, count).len(),
        spec_left(outputs, after, count) == spec_left(outputs, before, count).remove(v),
    decreases count,
{
    if count == v + 1 {
        lemma_left_untouched(outputs, before, v + 1);
        lemma_left_untouched(outputs, after, v);
        assert(outputs.take(v + 1).remove(v) =~= outputs.take(v));
    } else {
        lemma_left_after_spend(outputs, before, after, v, count - 1);
        let shorter = spec_left(outputs, before, count - 1);
        if !before(count - 1) {
            assert(shorter.push(outputs[count - 1]).remove(v) =~= shorter.remove(v).push(
                outputs[count - 1],
            ));
        }
    }
}

/// Whether no two records of the index are of one transaction.
pub open spec fn spec_unique(records: Seq<RecordModel>) -> bool {
    forall|i: int, j: int|
        0 <= i < j < records.len() ==> (#[trigger] records[i]).txid != (#[trigger] records[j]).txid
}

/// Writing for a transaction keeps the records of the index apart.
pub proof fn lemma_put_keeps_unique(records: Seq<RecordModel>, txid: Seq<u8>, outputs: Seq<OutputModel>)
    requires
        spec_unique(records),
    ensures
        spec_unique(spec_put_record(records, txid, outputs)),
{
    let after = spec_put_record(records, txid, outputs);
    if !spec_record_absent(records, txid) {
        lemma_record_present(records, txid);
    }
    assert forall|i: int, j: int| 0 <= i < j < after.len() implies (#[trigger] after[i]).txid != (
    #[trigger] after[j]).txid by {
        if j < records.len() {
            assert(after[i].txid == records[i].txid);
            assert(after[j].txid == records[j].txid);
        } else {
            assert(after[i].txid == records[i].txid);
        }
    }
}

/// Taking the record of a transaction out of an index whose records are
/// apart leaves nothing for it, leaves what the index holds for another, and
/// keeps the records apart.
pub proof fn lemma_get_after_remove(records: Seq<RecordModel>, txid: Seq<u8>, other: Seq<u8>)
    requires
        spec_unique(records),
    ensures
        spec_unique(spec_remove_record(records, txid)),
        spec_get_record(spec_remove_record(records, txid), txid) is None,
        other != txid ==> spec_get_record(spec_remove_record(records, txid), other)
            == spec_get_record(records, other),
{
    let after = spec_remove_record(records, txid);
    if !spec_record_absent(records, txid) {
        lemma_record_present(records, txid);
        let i = spec_record_index(records, txid);
        assert forall|j: int| 0 <= j < after.len() implies (#[trigger] after[j]) == records[if j
            < i {
            j
        } else {
            j + 1
        }] by {}
        assert forall|j: int| 0 <= j < after.len() implies (#[trigger] after[j]).txid != txid by {
            if j < i {
                assert(after[j] == records[j]);
            } else {
                assert(after[j] == records[j + 1]);
                assert(records[i].txid != records[j + 1].txid);
            }
        }
        assert forall|a: int, b: int| 0 <= a < b < after.len() implies (#[trigger] after[a]).txid
            != (#[trigger] after[b]).txid by {
            let x = if a < i { a } else { a + 1 };
            let y = if b < i { b } else { b + 1 };
            assert(after[a] == records[x]);
            assert(after[b] == records[y]);
        }
        if other != txid {
            if spec_record_absent(records, other) {
                assert forall|j: int| 0 <= j < after.len() implies (#[trigger] after[j]).txid
                    != other by {
                    let x = if j < i { j } else { j + 1 };
                    assert(after[j] == records[x]);
                }
            } else {
                lemma_record_present(records, other);
                let k = spec_record_index(records, other);
                let at = if k < i { k } else { k - 1 };
                assert(after[at] == records[k]);
                assert forall|j: int| 0 <= j < at implies (#[trigger] after[j]).txid != other by {
                    let x = if j < i { j } else { j + 1 };
                    assert(after[j] == records[x]);
                }
                lemma_record_index(after, other, at);
            }
        }
    }
}

} // verus!

verus! {

/// Whether `t` is the place of a transaction in block `b` of the chain.
pub open spec fn spec_place(chain: Seq<BlockModel>, b: int, t: int) -> bool {
    0 <= b < chain.len() && 0 <= t < chain[b].transactions.len()
}

/// The index after the blocks of a chain were applied one by one, oldest
/// first; the chain is given newest first.
pub open spec fn spec_apply_chain(records: Seq<RecordModel>, chain: Seq<BlockModel>) -> Option<
    Seq<RecordModel>,
>
    decreases chain.len(),
{
    if chain.len() == 0 {
        Some(records)
    } else {
        match spec_apply_chain(records, chain.drop_first()) {
            Some(before) => spec_apply_block(before, chain[0]),
            None => None,
        }
    }
}

/// Whether no two transactions of the chain have the same identifier.
pub open spec fn spec_distinct(chain: Seq<BlockModel>) -> bool {
    forall|b: int, t: int, c: int, u: int|
        #[trigger] spec_place(chain, b, t) && #[trigger] spec_place(chain, c, u) && (b != c || t
            != u) ==> chain[b].transactions[t].id != chain[c].transactions[u].id
}

/// Whether an index holds for each transaction that is done what `content`
/// says of it, and nothing for an identifier that none of them has.
pub open spec fn spec_holds(
    records: Seq<RecordModel>,
    chain: Seq<BlockModel>,
    done: spec_fn(int, int) -> bool,
    content: spec_fn(int, int) -> Option<Seq<OutputModel>>,
) -> bool {
    &&& forall|b: int, t: int|
        #[trigger] spec_place(chain, b, t) && done(b, t) ==> spec_get_record(
            records,
            chain[b].transactions[t].id,
        ) == content(b, t)
    &&& forall|txid: Seq<u8>|
        (forall|b: int, t: int|
            #[trigger] spec_place(chain, b, t) && done(b, t) ==> chain[b].transactions[t].id
                != txid) ==> #[trigger] spec_get_record(records, txid) is None
}

/// What an index holds depends on which transactions are done and on what
/// is said of them, not on how that is said.
pub proof fn lemma_holds_same(
    records: Seq<RecordModel>,
    chain: Seq<BlockModel>,
    done: spec_fn(int, int) -> bool,
    content: spec_fn(int, int) -> Option<Seq<OutputModel>>,
    then: spec_fn(int, int) -> bool,
    next: spec_fn(int, int) -> Option<Seq<OutputModel>>,
)
    requires
        spec_holds(records, chain, done, content),
        forall|b: int, t: int| #[trigger] spec_place(chain, b, t) ==> done(b, t) == then(b, t),
        forall|b: int, t: int|
            #[trigger] spec_place(chain, b, t) && done(b, t) ==> content(b, t) == next(b, t),
    ensures
        spec_holds(records, chain, then, next),
{
    assert forall|txid: Seq<u8>|
        (forall|b: int, t: int|
            #[trigger] spec_place(chain, b, t) && then(b, t) ==> chain[b].transactions[t].id
                != txid) implies #[trigger] spec_get_record(records, txid) is None by {
        assert forall|b: int, t: int| #[trigger] spec_place(chain, b, t) && done(b, t) implies
            chain[b].transactions[t].id != txid by {
            assert(then(b, t));
        }
    }
}

/// An index that changes for one identifier alone holds what is said next,
/// where that differs from what was said before for that identifier alone,
/// and every transaction that is newly done has it.
pub proof fn lemma_holds_after_change(
    records: Seq<RecordModel>,
    after: Seq<RecordModel>,
    chain: Seq<BlockModel>,
    done: spec_fn(int, int) -> bool,
    content: spec_fn(int, int) -> Option<Seq<OutputModel>>,
    then: spec_fn(int, int) -> bool,
    next: spec_fn(int, int) -> Option<Seq<OutputModel>>,
    txid: Seq<u8>,
)
    requires
        spec_holds(records, chain, done, content),
        forall|b: int, t: int| #[trigger] spec_place(chain, b, t) && done(b, t) ==> then(b, t),
        forall|b: int, t: int|
            #[trigger] spec_place(chain, b, t) && then(b, t) && !done(b, t)
                ==> chain[b].transactions[t].id == txid,
        forall|other: Seq<u8>|
            other != txid ==> #[trigger] spec_get_record(after, other) == spec_get_record(
                records,
                other,
            ),
        forall|b: int, t: int|
            #[trigger] spec_place(chain, b, t) && then(b, t) && chain[b].transactions[t].id
                != txid ==> next(b, t) == content(b, t),
        forall|b: int, t: int|
            #[trigger] spec_place(chain, b, t) && then(b, t) && chain[b].transactions[t].id
                == txid ==> spec_get_record(after, txid) == next(b, t),
        (exists|b: int, t: int|
            #[trigger] spec_place(chain, b, t) && then(b, t) && chain[b].transactions[t].id
                == txid) || spec_get_record(after, txid) is None,
    ensures
        spec_holds(after, chain, then, next),
{
    assert forall|b: int, t: int| #[trigger] spec_place(chain, b, t) && then(b, t) implies
        spec_get_record(after, chain[b].transactions[t].id) == next(b, t) by {
        let id = chain[b].transactions[t].id;
        if id != txid {
            assert(done(b, t));
            assert(spec_get_record(after, id) == spec_get_record(records, id));
        }
    }
    assert forall|other: Seq<u8>|
        (forall|b: int, t: int|
            #[trigger] spec_place(chain, b, t) && then(b, t) ==> chain[b].transactions[t].id
                != other) implies #[trigger] spec_get_record(after, other) is None by {
        if other != txid {
            assert(spec_get_record(after, other) == spec_get_record(records, other));
            assert forall|b: int, t: int| #[trigger] spec_place(chain, b, t) && done(b, t) implies
                chain[b].transactions[t].id != other by {
                assert(then(b, t));
            }
        }
    }
}

/// `Some` of a list that is not empty, `None` of an empty one: an index
/// keeps no empty record.
pub open spec fn spec_some_if_any(outputs: Seq<OutputModel>) -> Option<Seq<OutputModel>> {
    if outputs.len() == 0 {
        None
    } else {
        Some(outputs)
    }
}

/// Whether transaction `t` of block `b` is applied before transaction `u`
/// of block `c`: the chain is given newest block first.
pub open spec fn spec_earlier(b: int, t: int, c: int, u: int) -> bool {
    b > c || (b == c && t < u)
}

/// Whether `i` is the place of an input that spends: an input of a
/// transaction of the chain that is no coinbase.
pub open spec fn spec_input_place(chain: Seq<BlockModel>, b: int, t: int, i: int) -> bool {
    spec_place(chain, b, t) && !chain[b].transactions[t].is_coinbase() && 0 <= i
        < chain[b].transactions[t].vin.len()
}

/// Input `i` of transaction `t` of block `b`.
pub open spec fn spec_input_at(chain: Seq<BlockModel>, b: int, t: int, i: int) -> InputModel {
    chain[b].transactions[t].vin[i]
}

/// Whether the input names an output of transaction `u` of block `c`.
pub open spec fn spec_names(chain: Seq<BlockModel>, c: int, u: int, input: InputModel) -> bool {
    spec_place(chain, c, u) && chain[c].transactions[u].id == input.txid && input.vout
        < chain[c].transactions[u].vout.len()
}

/// The chains of which reindex equivalence holds. Every transaction has an
/// output, and no more than a machine can count; no two transactions have
/// the same identifier; every input that spends names an output of a
/// transaction that is applied before its own; and the outputs of one
/// transaction are spent in falling order of place, none of them twice.
pub open spec fn spec_falling_order(chain: Seq<BlockModel>) -> bool {
    &&& forall|b: int, t: int| #[trigger]
        spec_place(chain, b, t) ==> 0 < chain[b].transactions[t].vout.len() <= usize::MAX
    &&& spec_distinct(chain)
    &&& forall|b: int, t: int, i: int| #[trigger]
        spec_input_place(chain, b, t, i) ==> exists|c: int, u: int|
            spec_earlier(c, u, b, t) && #[trigger] spec_names(
                chain,
                c,
                u,
                spec_input_at(chain, b, t, i),
            )
    &&& forall|b: int, t: int, i: int, c: int, u: int, j: int|
        #[trigger] spec_input_place(chain, b, t, i) && #[trigger] spec_input_place(chain, c, u, j)
            && (spec_earlier(b, t, c, u) || (b == c && t == u && i < j)) && spec_input_at(
            chain,
            b,
            t,
            i,
        ).txid == spec_input_at(chain, c, u, j).txid ==> spec_input_at(chain, b, t, i).vout
            > spec_input_at(chain, c, u, j).vout
}

/// Whether input `i` of transaction `t` of block `b` is applied when the
/// blocks older than block `m`, the first `n` transactions of block `m` and
/// the first `k` inputs of its next transaction are.
pub open spec fn spec_applied_input(m: int, n: int, k: int, b: int, t: int, i: int) -> bool {
    b > m || (b == m && t < n) || (b == m && t == n && i < k)
}

/// Whether input `i` of transaction `t` of block `b` spends output `v` of
/// transaction `txid`.
pub open spec fn spec_spends_at(
    chain: Seq<BlockModel>,
    b: int,
    t: int,
    i: int,
    txid: Seq<u8>,
    v: int,
) -> bool {
    spec_input_place(chain, b, t, i) && spec_input_at(chain, b, t, i).txid == txid
        && spec_input_at(chain, b, t, i).vout == v
}

/// Whether an input that is applied spends output `v` of transaction `txid`.
pub open spec fn spec_spent_so_far(
    chain: Seq<BlockModel>,
    m: int,
    n: int,
    k: int,
    txid: Seq<u8>,
    v: int,
) -> bool {
    exists|b: int, t: int, i: int| #[trigger]
        spec_spends_at(chain, b, t, i, txid, v) && spec_applied_input(m, n, k, b, t, i)
}

/// The places of transaction `txid` that the applied inputs spend.
pub open spec fn spec_spent_of(chain: Seq<BlockModel>, m: int, n: int, k: int, txid: Seq<u8>)
    -> spec_fn(int) -> bool {
    |v: int| spec_spent_so_far(chain, m, n, k, txid, v)
}

/// What the applied inputs leave of transaction `t` of block `b`.
pub open spec fn spec_left_of(chain: Seq<BlockModel>, m: int, n: int, k: int, b: int, t: int)
    -> Option<Seq<OutputModel>> {
    let transaction = chain[b].transactions[t];
    spec_some_if_any(
        spec_left(
            transaction.vout,
            spec_spent_of(chain, m, n, k, transaction.id),
            transaction.vout.len() as int,
        ),
    )
}

/// The transactions that are applied when the blocks older than block `m`
/// and the first `n` transactions of block `m` are.
pub open spec fn spec_done(m: int, n: int) -> spec_fn(int, int) -> bool {
    |b: int, t: int| b > m || (b == m && t < n)
}

/// What the applied inputs leave of each transaction.
pub open spec fn spec_content(chain: Seq<BlockModel>, m: int, n: int, k: int) -> spec_fn(
    int,
    int,
) -> Option<Seq<OutputModel>> {
    |b: int, t: int| spec_left_of(chain, m, n, k, b, t)
}

/// Where the same inputs are applied, the same is left of a transaction.
pub proof fn lemma_left_of_same(
    chain: Seq<BlockModel>,
    m: int,
    n: int,
    k: int,
    m2: int,
    n2: int,
    k2: int,
    b: int,
    t: int,
)
    requires
        forall|c: int, u: int, j: int| #[trigger]
            spec_input_place(chain, c, u, j) && spec_input_at(chain, c, u, j).txid
                == chain[b].transactions[t].id ==> spec_applied_input(m, n, k, c, u, j)
                == spec_applied_input(m2, n2, k2, c, u, j),
    ensures
        spec_left_of(chain, m, n, k, b, t) == spec_left_of(chain, m2, n2, k2, b, t),
{
    let transaction = chain[b].transactions[t];
    let first = spec_spent_of(chain, m, n, k, transaction.id);
    let second = spec_spent_of(chain, m2, n2, k2, transaction.id);
    assert forall|v: int| #[trigger] first(v) == second(v) by {
        if first(v) {
            let (c, u, j) = choose|c: int, u: int, j: int| #[trigger]
                spec_spends_at(chain, c, u, j, transaction.id, v) && spec_applied_input(
                    m,
                    n,
                    k,
                    c,
                    u,
                    j,
                );
            assert(spec_input_place(chain, c, u, j));
            assert(spec_spends_at(chain, c, u, j, transaction.id, v) && spec_applied_input(
                m2,
                n2,
                k2,
                c,
                u,
                j,
            ));
        }
        if second(v) {
            let (c, u, j) = choose|c: int, u: int, j: int| #[trigger]
                spec_spends_at(chain, c, u, j, transaction.id, v) && spec_applied_input(
                    m2,
                    n2,
                    k2,
                    c,
                    u,
                    j,
                );
            assert(spec_input_place(chain, c, u, j));
            assert(spec_spends_at(chain, c, u, j, transaction.id, v) && spec_applied_input(
                m,
                n,
                k,
                c,
                u,
                j,
            ));
        }
    }
    lemma_left_same(transaction.vout, first, second, transaction.vout.len() as int);
}

} // verus!

verus! {

/// The number of inputs that are applied before the outputs of a transaction
/// are written: none of a coinbase, else all.
pub open spec fn spec_inputs_applied(transaction: TransactionModel) -> int {
    if transaction.is_coinbase() {
        0
    } else {
        transaction.vin.len() as int
    }
}

/// No input that is applied spends an output of the transaction that is
/// written next.
proof fn lemma_new_outputs_are_unspent(chain: Seq<BlockModel>, m: int, n: int, v: int)
    requires
        spec_falling_order(chain),
        spec_place(chain, m, n),
    ensures
        !spec_spent_so_far(chain, m, n + 1, 0, chain[m].transactions[n].id, v),
{
    let id = chain[m].transactions[n].id;
    if spec_spent_so_far(chain, m, n + 1, 0, id, v) {
        let (b, t, i) = choose|b: int, t: int, i: int| #[trigger]
            spec_spends_at(chain, b, t, i, id, v) && spec_applied_input(m, n + 1, 0, b, t, i);
        assert(spec_input_place(chain, b, t, i));
        let (c, u) = choose|c: int, u: int|
            spec_earlier(c, u, b, t) && #[trigger] spec_names(
                chain,
                c,
                u,
                spec_input_at(chain, b, t, i),
            );
        assert(spec_place(chain, c, u));
        assert(spec_place(chain, m, n));
        assert(c == m && u == n);
    }
}

/// Writing the outputs of a transaction whose inputs are applied: the index
/// then holds what the applied inputs leave of each transaction that is
/// done, that one among them.
proof fn lemma_write_step(chain: Seq<BlockModel>, records: Seq<RecordModel>, m: int, n: int)
    requires
        spec_falling_order(chain),
        spec_place(chain, m, n),
        spec_unique(records),
        spec_holds(
            records,
            chain,
            spec_done(m, n),
            spec_content(chain, m, n, spec_inputs_applied(chain[m].transactions[n])),
        ),
    ensures
        spec_unique(
            spec_put_record(records, chain[m].transactions[n].id, chain[m].transactions[n].vout),
        ),
        spec_holds(
            spec_put_record(records, chain[m].transactions[n].id, chain[m].transactions[n].vout),
            chain,
            spec_done(m, n + 1),
            spec_content(chain, m, n + 1, 0),
        ),
{
    let new = chain[m].transactions[n];
    let k = spec_inputs_applied(new);
    let after = spec_put_record(records, new.id, new.vout);
    let done = spec_done(m, n);
    let then = spec_done(m, n + 1);
    let content = spec_content(chain, m, n, k);
    let next = spec_content(chain, m, n + 1, 0);
    lemma_put_keeps_unique(records, new.id, new.vout);
    lemma_get_after_put(records, new.id, new.vout);
    assert forall|other: Seq<u8>| other != new.id implies #[trigger] spec_get_record(after, other)
        == spec_get_record(records, other) by {
        lemma_get_after_put_other(records, new.id, new.vout, other);
    }
    assert forall|b: int, t: int|
        #[trigger] spec_place(chain, b, t) && then(b, t) && chain[b].transactions[t].id
            != new.id implies next(b, t) == content(b, t) by {
        assert forall|c: int, u: int, j: int| #[trigger]
            spec_input_place(chain, c, u, j) && spec_input_at(chain, c, u, j).txid
                == chain[b].transactions[t].id implies spec_applied_input(m, n + 1, 0, c, u, j)
            == spec_applied_input(m, n, k, c, u, j) by {}
        lemma_left_of_same(chain, m, n + 1, 0, m, n, k, b, t);
    }
    assert forall|b: int, t: int|
        #[trigger] spec_place(chain, b, t) && then(b, t) && chain[b].transactions[t].id
            == new.id implies spec_get_record(after, new.id) == next(b, t) by {
        assert(spec_place(chain, m, n));
        assert(b == m && t == n);
        let spent = spec_spent_of(chain, m, n + 1, 0, new.id);
        assert forall|v: int| 0 <= v < new.vout.len() implies !#[trigger] spent(v) by {
            lemma_new_outputs_are_unspent(chain, m, n, v);
        }
        lemma_left_untouched(new.vout, spent, new.vout.len() as int);
        assert(new.vout.take(new.vout.len() as int) =~= new.vout);
    }
    assert(spec_place(chain, m, n) && then(m, n));
    lemma_holds_after_change(records, after, chain, done, content, then, next, new.id);
}

/// Spending one more input: the index then holds what the applied inputs,
/// that one among them, leave of each transaction that is done.
proof fn lemma_spend_step(chain: Seq<BlockModel>, records: Seq<RecordModel>, m: int, n: int, k: int)
    requires
        spec_falling_order(chain),
        spec_input_place(chain, m, n, k - 1),
        spec_unique(records),
        spec_holds(records, chain, spec_done(m, n), spec_content(chain, m, n, k - 1)),
    ensures
        spec_spend_input(records, spec_input_at(chain, m, n, k - 1)) is Some,
        spec_unique(spec_spend_input(records, spec_input_at(chain, m, n, k - 1))->Some_0),
        spec_holds(
            spec_spend_input(records, spec_input_at(chain, m, n, k - 1))->Some_0,
            chain,
            spec_done(m, n),
            spec_content(chain, m, n, k),
        ),
{
    let input = spec_input_at(chain, m, n, k - 1);
    let v = input.vout as int;
    let (c, u) = choose|c: int, u: int|
        spec_earlier(c, u, m, n) && #[trigger] spec_names(chain, c, u, input);
    let spent = chain[c].transactions[u];
    let done = spec_done(m, n);
    let content = spec_content(chain, m, n, k - 1);
    let next = spec_content(chain, m, n, k);
    let before_fn = spec_spent_of(chain, m, n, k - 1, spent.id);
    let after_fn = spec_spent_of(chain, m, n, k, spent.id);
    let count = spent.vout.len() as int;
    assert(spec_place(chain, c, u) && done(c, u));
    assert(spec_get_record(records, spent.id) == content(c, u));
    assert forall|w: int| 0 <= w <= v implies !#[trigger] before_fn(w) by {
        if spec_spent_so_far(chain, m, n, k - 1, spent.id, w) {
            let (b, t, i) = choose|b: int, t: int, i: int| #[trigger]
                spec_spends_at(chain, b, t, i, spent.id, w) && spec_applied_input(
                    m,
                    n,
                    k - 1,
                    b,
                    t,
                    i,
                );
            assert(spec_input_place(chain, b, t, i));
            assert(spec_input_place(chain, m, n, k - 1));
            assert(spec_earlier(b, t, m, n) || (b == m && t == n && i < k - 1));
            assert(spec_input_at(chain, b, t, i).vout > spec_input_at(chain, m, n, k - 1).vout);
        }
    }
    assert forall|w: int| 0 <= w < count implies #[trigger] after_fn(w) == (before_fn(w) || w
        == v) by {
        if before_fn(w) {
            let (b, t, i) = choose|b: int, t: int, i: int| #[trigger]
                spec_spends_at(chain, b, t, i, spent.id, w) && spec_applied_input(
                    m,
                    n,
                    k - 1,
                    b,
                    t,
                    i,
                );
            assert(spec_spends_at(chain, b, t, i, spent.id, w) && spec_applied_input(
                m,
                n,
                k,
                b,
                t,
                i,
            ));
        }
        if w == v {
            assert(spec_spends_at(chain, m, n, k - 1, spent.id, w) && spec_applied_input(
                m,
                n,
                k,
                m,
                n,
                k - 1,
            ));
        }
        if after_fn(w) {
            let (b, t, i) = choose|b: int, t: int, i: int| #[trigger]
                spec_spends_at(chain, b, t, i, spent.id, w) && spec_applied_input(
                    m,
                    n,
                    k,
                    b,
                    t,
                    i,
                );
            if !(b == m && t == n && i == k - 1) {
                assert(spec_spends_at(chain, b, t, i, spent.id, w) && spec_applied_input(
                    m,
                    n,
                    k - 1,
                    b,
                    t,
                    i,
                ));
            }
        }
    }
    lemma_left_after_spend(spent.vout, before_fn, after_fn, v, count);
    let held = spec_left(spent.vout, before_fn, count);
    let left = spec_left(spent.vout, after_fn, count);
    assert(spec_get_record(records, input.txid) == Some(held));
    let after = spec_spend_input(records, input)->Some_0;
    if left.len() == 0 {
        assert(after == spec_remove_record(records, spent.id));
        lemma_get_after_remove(records, spent.id, spent.id);
        assert forall|other: Seq<u8>| other != spent.id implies #[trigger] spec_get_record(
            after,
            other,
        ) == spec_get_record(records, other) by {
            lemma_get_after_remove(records, spent.id, other);
        }
    } else {
        assert(after == spec_put_record(records, spent.id, left));
        lemma_put_keeps_unique(records, spent.id, left);
        lemma_get_after_put(records, spent.id, left);
        assert forall|other: Seq<u8>| other != spent.id implies #[trigger] spec_get_record(
            after,
            other,
        ) == spec_get_record(records, other) by {
            lemma_get_after_put_other(records, spent.id, left, other);
        }
    }
    assert forall|b: int, t: int|
        #[trigger] spec_place(chain, b, t) && done(b, t) && chain[b].transactions[t].id
            != spent.id implies next(b, t) == content(b, t) by {
        assert forall|c2: int, u2: int, j: int| #[trigger]
            spec_input_place(chain, c2, u2, j) && spec_input_at(chain, c2, u2, j).txid
                == chain[b].transactions[t].id implies spec_applied_input(m, n, k, c2, u2, j)
            == spec_applied_input(m, n, k - 1, c2, u2, j) by {}
        lemma_left_of_same(chain, m, n, k, m, n, k - 1, b, t);
    }
    assert forall|b: int, t: int|
        #[trigger] spec_place(chain, b, t) && done(b, t) && chain[b].transactions[t].id
            == spent.id implies spec_get_record(after, spent.id) == next(b, t) by {
        assert(spec_place(chain, c, u));
        assert(b == c && t == u);
    }
    lemma_holds_after_change(records, after, chain, done, content, done, next, spent.id);
}

} // verus!

verus! {

/// The index after the blocks older than block `m`, the first `n`
/// transactions of block `m` and the first `k` inputs of its next
/// transaction were applied to an empty index.
pub open spec fn spec_applied_to(chain: Seq<BlockModel>, m: int, n: int, k: int) -> Option<
    Seq<RecordModel>,
> {
    match spec_apply_chain(Seq::empty(), chain.skip(m + 1)) {
        Some(older) => match spec_apply_transactions(older, chain[m].transactions.take(n)) {
            Some(records) => if k == 0 {
                Some(records)
            } else {
                spec_spend_inputs(records, chain[m].transactions[n].vin.take(k))
            },
            None => None,
        },
        None => None,
    }
}

/// Applying never fails on a chain whose outputs are spent in falling
/// order, and the index holds, at each point, what the applied inputs leave
/// of each transaction that is done.
proof fn lemma_applying_holds(chain: Seq<BlockModel>, m: int, n: int, k: int)
    requires
        spec_falling_order(chain),
        0 <= m < chain.len(),
        0 <= n <= chain[m].transactions.len(),
        0 <= k,
        k > 0 ==> spec_input_place(chain, m, n, k - 1),
    ensures
        spec_applied_to(chain, m, n, k) is Some,
        spec_unique(spec_applied_to(chain, m, n, k)->Some_0),
        spec_holds(
            spec_applied_to(chain, m, n, k)->Some_0,
            chain,
            spec_done(m, n),
            spec_content(chain, m, n, k),
        ),
    decreases chain.len() - m, n, k,
{
    let transactions = chain[m].transactions;
    if k > 0 {
        lemma_applying_holds(chain, m, n, k - 1);
        let inputs = transactions[n].vin;
        let records = spec_applied_to(chain, m, n, k - 1)->Some_0;
        assert(inputs.take(k).drop_last() =~= inputs.take(k - 1));
        assert(inputs.take(k).last() == inputs[k - 1]);
        assert(inputs.take(0) =~= Seq::<InputModel>::empty());
        assert(spec_applied_to(chain, m, n, k) == spec_spend_input(
            records,
            spec_input_at(chain, m, n, k - 1),
        ));
        lemma_spend_step(chain, records, m, n, k);
    } else if n > 0 {
        let new = transactions[n - 1];
        let applied = spec_inputs_applied(new);
        assert(spec_place(chain, m, n - 1));
        lemma_applying_holds(chain, m, n - 1, applied);
        let records = spec_applied_to(chain, m, n - 1, applied)->Some_0;
        assert(transactions.take(n).drop_last() =~= transactions.take(n - 1));
        assert(transactions.take(n).last() == new);
        assert(new.vin.take(new.vin.len() as int) =~= new.vin);
        assert(new.vin.take(0) =~= Seq::<InputModel>::empty());
        assert(spec_applied_to(chain, m, n, 0) == Some(
            spec_put_record(records, new.id, new.vout),
        ));
        lemma_write_step(chain, records, m, n - 1);
    } else if m + 1 < chain.len() {
        let before = chain[m + 1].transactions;
        let count = before.len() as int;
        lemma_applying_holds(chain, m + 1, count, 0);
        assert(before.take(count) =~= before);
        assert(chain.skip(m + 1).drop_first() =~= chain.skip(m + 2));
        assert(chain.skip(m + 1)[0] == chain[m + 1]);
        assert(transactions.take(0) =~= Seq::<TransactionModel>::empty());
        assert(spec_applied_to(chain, m, 0, 0) == spec_applied_to(chain, m + 1, count, 0));
        let records = spec_applied_to(chain, m, 0, 0)->Some_0;
        let done = spec_done(m + 1, count);
        let content = spec_content(chain, m + 1, count, 0);
        let then = spec_done(m, 0);
        let next = spec_content(chain, m, 0, 0);
        assert forall|b: int, t: int|
            #[trigger] spec_place(chain, b, t) && done(b, t) implies content(b, t) == next(
            b,
            t,
        ) by {
            assert forall|c: int, u: int, j: int| #[trigger]
                spec_input_place(chain, c, u, j) && spec_input_at(chain, c, u, j).txid
                    == chain[b].transactions[t].id implies spec_applied_input(
                m + 1,
                count,
                0,
                c,
                u,
                j,
            ) == spec_applied_input(m, 0, 0, c, u, j) by {}
            lemma_left_of_same(chain, m + 1, count, 0, m, 0, 0, b, t);
        }
        lemma_holds_same(records, chain, done, content, then, next);
    } else {
        assert(chain.skip(m + 1) =~= Seq::<BlockModel>::empty());
        assert(transactions.take(0) =~= Seq::<TransactionModel>::empty());
        assert(spec_applied_to(chain, m, 0, 0) == Some(Seq::<RecordModel>::empty()));
    }
}

/// What a rebuild writes for transaction `t` of block `b`: the outputs that
/// no block of the chain spends, where there are any.
pub open spec fn spec_rebuilt_of(chain: Seq<BlockModel>) -> spec_fn(int, int) -> Option<
    Seq<OutputModel>,
> {
    |b: int, t: int| spec_some_if_any(spec_unspent_outputs(chain, chain[b].transactions[t]))
}

/// The transactions that a rebuild has seen when it stands before
/// transaction `n` of block `m`: the chain is walked newest block first.
pub open spec fn spec_seen(m: int, n: int) -> spec_fn(int, int) -> bool {
    |b: int, t: int| b < m || (b == m && t < n)
}

/// The index of a rebuild that stands before transaction `n` of block `m`.
pub open spec fn spec_rebuilt_to(chain: Seq<BlockModel>, m: int, n: int) -> Seq<RecordModel> {
    spec_index_transactions(
        chain,
        spec_index_blocks(chain, Seq::empty(), chain.take(m)),
        chain[m].transactions.take(n),
    )
}

/// A rebuild of a chain in which no two transactions have the same
/// identifier holds, at each point, for each transaction that it has seen
/// the outputs that no block of the chain spends.
proof fn lemma_rebuild_holds(chain: Seq<BlockModel>, m: int, n: int)
    requires
        spec_distinct(chain),
        0 <= m < chain.len(),
        0 <= n <= chain[m].transactions.len(),
    ensures
        spec_holds(spec_rebuilt_to(chain, m, n), chain, spec_seen(m, n), spec_rebuilt_of(chain)),
    decreases m, n,
{
    let transactions = chain[m].transactions;
    let content = spec_rebuilt_of(chain);
    if n > 0 {
        lemma_rebuild_holds(chain, m, n - 1);
        let new = transactions[n - 1];
        let records = spec_rebuilt_to(chain, m, n - 1);
        let unspent = spec_unspent_outputs(chain, new);
        let after = spec_append_outputs(records, new.id, unspent);
        let done = spec_seen(m, n - 1);
        let then = spec_seen(m, n);
        assert(transactions.take(n).drop_last() =~= transactions.take(n - 1));
        assert(transactions.take(n).last() == new);
        assert(spec_rebuilt_to(chain, m, n) == after);
        assert(spec_place(chain, m, n - 1));
        assert(spec_get_record(records, new.id) is None) by {
            assert forall|b: int, t: int| #[trigger] spec_place(chain, b, t) && done(b, t) implies
                chain[b].transactions[t].id != new.id by {
                assert(b != m || t != n - 1);
            }
        }
        if unspent.len() > 0 {
            lemma_get_after_put(records, new.id, unspent);
        }
        assert forall|other: Seq<u8>| other != new.id implies #[trigger] spec_get_record(
            after,
            other,
        ) == spec_get_record(records, other) by {
            if unspent.len() > 0 {
                lemma_get_after_put_other(records, new.id, unspent, other);
            }
        }
        assert forall|b: int, t: int|
            #[trigger] spec_place(chain, b, t) && then(b, t) && chain[b].transactions[t].id
                == new.id implies spec_get_record(after, new.id) == content(b, t) by {
            assert(b == m && t == n - 1);
        }
        assert(spec_place(chain, m, n - 1) && then(m, n - 1));
        lemma_holds_after_change(records, after, chain, done, content, then, content, new.id);
    } else if m > 0 {
        let before = chain[m - 1].transactions;
        let count = before.len() as int;
        lemma_rebuild_holds(chain, m - 1, count);
        assert(before.take(count) =~= before);
        assert(chain.take(m).drop_last() =~= chain.take(m - 1));
        assert(chain.take(m).last() == chain[m - 1]);
        assert(transactions.take(0) =~= Seq::<TransactionModel>::empty());
        assert(spec_rebuilt_to(chain, m, 0) == spec_rebuilt_to(chain, m - 1, count));
        lemma_holds_same(
            spec_rebuilt_to(chain, m, 0),
            chain,
            spec_seen(m - 1, count),
            content,
            spec_seen(m, 0),
            content,
        );
    } else {
        assert(chain.take(0) =~= Seq::<BlockModel>::empty());
        assert(transactions.take(0) =~= Seq::<TransactionModel>::empty());
        assert(spec_rebuilt_to(chain, 0, 0) =~= Seq::<RecordModel>::empty());
    }
}

/// When every block is applied, an output is spent so far exactly where a
/// block of the chain spends it.
proof fn lemma_spent_at_the_end(chain: Seq<BlockModel>, txid: Seq<u8>, v: usize)
    requires
        chain.len() > 0,
    ensures
        spec_spent_so_far(chain, 0, chain[0].transactions.len() as int, 0, txid, v as int)
            == spec_is_output_spent(chain, txid, v),
{
    let count = chain[0].transactions.len() as int;
    if spec_spent_so_far(chain, 0, count, 0, txid, v as int) {
        let (b, t, i) = choose|b: int, t: int, i: int| #[trigger]
            spec_spends_at(chain, b, t, i, txid, v as int) && spec_applied_input(
                0,
                count,
                0,
                b,
                t,
                i,
            );
        let transaction = chain[b].transactions[t];
        assert(transaction.vin[i].txid == txid && transaction.vin[i].vout == v);
        assert(spec_transaction_spends(transaction, txid, v));
        assert(spec_any_spends(chain[b].transactions, txid, v));
        assert(spec_is_output_spent(chain, txid, v));
    }
    if spec_is_output_spent(chain, txid, v) {
        let b = choose|b: int|
            0 <= b < chain.len() && spec_any_spends((#[trigger] chain[b]).transactions, txid, v);
        let t = choose|t: int|
            0 <= t < chain[b].transactions.len() && spec_transaction_spends(
                #[trigger] chain[b].transactions[t],
                txid,
                v,
            );
        let transaction = chain[b].transactions[t];
        let i = choose|i: int|
            0 <= i < transaction.vin.len() && (#[trigger] transaction.vin[i]).txid == txid
                && transaction.vin[i].vout == v;
        assert(spec_spends_at(chain, b, t, i, txid, v as int) && spec_applied_input(
            0,
            count,
            0,
            b,
            t,
            i,
        ));
    }
}

/// When every block is applied, what the applied inputs leave of a
/// transaction are its outputs that no block of the chain spends.
proof fn lemma_left_at_the_end(chain: Seq<BlockModel>, transaction: TransactionModel, count: int)
    requires
        chain.len() > 0,
        0 <= count <= transaction.vout.len() <= usize::MAX,
    ensures
        spec_left(
            transaction.vout,
            spec_spent_of(chain, 0, chain[0].transactions.len() as int, 0, transaction.id),
            count,
        ) == spec_unspent_of(chain, transaction, count),
    decreases count,
{
    if count > 0 {
        lemma_left_at_the_end(chain, transaction, count - 1);
        lemma_spent_at_the_end(chain, transaction.id, (count - 1) as usize);
    }
}

/// Reindex equivalence, for the chains whose outputs are spent in falling
/// order of place: applying the blocks of the chain one by one, oldest
/// first, to an empty index never fails, and the index that it leaves holds
/// for every transaction what a rebuild from the chain holds for it. The two
/// may differ in the order of their records only.
pub proof fn lemma_rebuild_agrees_with_applying(chain: Seq<BlockModel>, txid: Seq<u8>)
    requires
        spec_falling_order(chain),
    ensures
        spec_apply_chain(Seq::empty(), chain) is Some,
        spec_get_record(spec_apply_chain(Seq::empty(), chain)->Some_0, txid) == spec_get_record(
            spec_find_utxo(chain),
            txid,
        ),
{
    if chain.len() == 0 {
        assert(spec_find_utxo(chain) =~= Seq::<RecordModel>::empty());
    } else {
        let last = chain.len() - 1;
        let newest = chain[0].transactions;
        let oldest = chain[last].transactions;
        let count = newest.len() as int;
        lemma_rebuild_holds(chain, last, oldest.len() as int);
        lemma_applying_holds(chain, 0, count, 0);
        assert(oldest.take(oldest.len() as int) =~= oldest);
        assert(newest.take(count) =~= newest);
        assert(chain.take(last) =~= chain.drop_last());
        assert(chain.skip(1) =~= chain.drop_first());
        let rebuilt = spec_find_utxo(chain);
        assert(rebuilt == spec_rebuilt_to(chain, last, oldest.len() as int));
        assert(spec_apply_chain(Seq::empty(), chain) == spec_applied_to(chain, 0, count, 0));
        let applied = spec_apply_chain(Seq::empty(), chain)->Some_0;
        let seen = spec_seen(last, oldest.len() as int);
        let done = spec_done(0, count);
        let said = spec_rebuilt_of(chain);
        let left = spec_content(chain, 0, count, 0);
        if exists|b: int, t: int|
            #[trigger] spec_place(chain, b, t) && chain[b].transactions[t].id == txid {
            let (b, t) = choose|b: int, t: int|
                #[trigger] spec_place(chain, b, t) && chain[b].transactions[t].id == txid;
            let transaction = chain[b].transactions[t];
            assert(seen(b, t) && done(b, t));
            assert(spec_get_record(rebuilt, txid) == said(b, t));
            assert(spec_get_record(applied, txid) == left(b, t));
            lemma_left_at_the_end(chain, transaction, transaction.vout.len() as int);
        } else {
            assert forall|b: int, t: int| #[trigger] spec_place(chain, b, t) && seen(b, t) implies
                chain[b].transactions[t].id != txid by {}
            assert forall|b: int, t: int| #[trigger] spec_place(chain, b, t) && done(b, t) implies
                chain[b].transactions[t].id != txid by {}
            assert(spec_get_record(rebuilt, txid) is None);
            assert(spec_get_record(applied, txid) is None);
        }
    }
}

} // verus!

verus! {

/// Whether output `v` of transaction `t` of block `b` is spent by a block of
/// the chain.
pub open spec fn spec_spent_at(chain: Seq<BlockModel>, b: int, t: int, v: int) -> bool {
    spec_is_output_spent(chain, chain[b].transactions[t].id, v as usize)
}

/// Whether every transaction of the chain is spent as a whole or not at
/// all, and has no more outputs than a machine can count.
pub open spec fn spec_spent_whole(chain: Seq<BlockModel>) -> bool {
    &&& forall|b: int, t: int| #[trigger]
        spec_place(chain, b, t) ==> chain[b].transactions[t].vout.len() <= usize::MAX
    &&& forall|b: int, t: int, v: int, w: int|
        spec_place(chain, b, t) && 0 <= v < chain[b].transactions[t].vout.len() && 0 <= w
            < chain[b].transactions[t].vout.len() ==> #[trigger] spec_spent_at(chain, b, t, v)
            == #[trigger] spec_spent_at(chain, b, t, w)
}

/// A list of transactions none of which has the identifier holds none with
/// it.
proof fn lemma_find_in_none(transactions: Seq<TransactionModel>, txid: Seq<u8>)
    requires
        forall|t: int| 0 <= t < transactions.len() ==> (#[trigger] transactions[t]).id != txid,
    ensures
        spec_find_in_transactions(transactions, txid) is None,
    decreases transactions.len(),
{
    if transactions.len() > 0 {
        let rest = transactions.drop_first();
        assert(transactions[0].id != txid);
        assert forall|t: int| 0 <= t < rest.len() implies (#[trigger] rest[t]).id != txid by {
            assert(rest[t] == transactions[t + 1]);
        }
        lemma_find_in_none(rest, txid);
    }
}

/// The first transaction of a list with the identifier of transaction `t`
/// is transaction `t`, where none before it has that identifier.
proof fn lemma_find_in_at(transactions: Seq<TransactionModel>, t: int)
    requires
        0 <= t < transactions.len(),
        forall|u: int| 0 <= u < t ==> (#[trigger] transactions[u]).id != transactions[t].id,
    ensures
        spec_find_in_transactions(transactions, transactions[t].id) == Some(transactions[t]),
    decreases t,
{
    if t > 0 {
        let rest = transactions.drop_first();
        assert(transactions[0].id != transactions[t].id);
        assert(rest[t - 1] == transactions[t]);
        assert forall|u: int| 0 <= u < t - 1 implies (#[trigger] rest[u]).id != rest[t - 1].id by {
            assert(rest[u] == transactions[u + 1]);
        }
        lemma_find_in_at(rest, t - 1);
    }
}

/// In a chain whose transactions have identifiers of their own, the
/// transaction that is found under the identifier of a transaction of the
/// chain is that transaction.
proof fn lemma_find_transaction_at(chain: Seq<BlockModel>, k: int, b: int, t: int)
    requires
        spec_distinct(chain),
        spec_place(chain, b, t),
        0 <= k <= b,
    ensures
        spec_find_transaction(chain.skip(k), chain[b].transactions[t].id) == Some(
            chain[b].transactions[t],
        ),
    decreases b - k,
{
    let txid = chain[b].transactions[t].id;
    let rest = chain.skip(k);
    assert(rest[0] == chain[k]);
    if k == b {
        assert forall|u: int| 0 <= u < t implies (#[trigger] chain[b].transactions[u]).id
            != txid by {
            assert(spec_place(chain, b, u));
        }
        lemma_find_in_at(chain[b].transactions, t);
    } else {
        assert forall|u: int| 0 <= u < chain[k].transactions.len() implies (
        #[trigger] chain[k].transactions[u]).id != txid by {
            assert(spec_place(chain, k, u));
        }
        lemma_find_in_none(chain[k].transactions, txid);
        assert(rest.drop_first() =~= chain.skip(k + 1));
        lemma_find_transaction_at(chain, k + 1, b, t);
    }
}

/// Where no output before `count` is spent, all of them are unspent.
proof fn lemma_unspent_all(chain: Seq<BlockModel>, transaction: TransactionModel, count: int)
    requires
        0 <= count <= transaction.vout.len(),
        forall|v: int|
            0 <= v < count ==> !#[trigger] spec_is_output_spent(chain, transaction.id, v as usize),
    ensures
        spec_unspent_of(chain, transaction, count) == transaction.vout.take(count),
    decreases count,
{
    if count > 0 {
        lemma_unspent_all(chain, transaction, count - 1);
        assert(!spec_is_output_spent(chain, transaction.id, ((count - 1) as int) as usize));
        assert(transaction.vout.take(count) =~= transaction.vout.take(count - 1).push(
            transaction.vout[count - 1],
        ));
    } else {
        assert(transaction.vout.take(0) =~= Seq::<OutputModel>::empty());
    }
}

/// Where every output before `count` is spent, none of them is unspent.
proof fn lemma_unspent_none(chain: Seq<BlockModel>, transaction: TransactionModel, count: int)
    requires
        0 <= count <= transaction.vout.len(),
        forall|v: int|
            0 <= v < count ==> #[trigger] spec_is_output_spent(chain, transaction.id, v as usize),
    ensures
        spec_unspent_of(chain, transaction, count).len() == 0,
    decreases count,
{
    if count > 0 {
        lemma_unspent_none(chain, transaction, count - 1);
        assert(spec_is_output_spent(chain, transaction.id, ((count - 1) as int) as usize));
    }
}

/// A rebuild of a chain whose transactions have identifiers of their own and
/// are spent as a whole or not at all holds, at each point, records that
/// show the chain.
proof fn lemma_rebuild_shows(chain: Seq<BlockModel>, m: int, n: int)
    requires
        spec_distinct(chain),
        spec_spent_whole(chain),
        0 <= m < chain.len(),
        0 <= n <= chain[m].transactions.len(),
    ensures
        spec_index_shows_chain(chain, spec_rebuilt_to(chain, m, n)),
    decreases m, n,
{
    let transactions = chain[m].transactions;
    if n > 0 {
        lemma_rebuild_shows(chain, m, n - 1);
        lemma_rebuild_holds(chain, m, n - 1);
        let new = transactions[n - 1];
        let records = spec_rebuilt_to(chain, m, n - 1);
        let unspent = spec_unspent_outputs(chain, new);
        let after = spec_append_outputs(records, new.id, unspent);
        let done = spec_seen(m, n - 1);
        assert(transactions.take(n).drop_last() =~= transactions.take(n - 1));
        assert(transactions.take(n).last() == new);
        assert(spec_rebuilt_to(chain, m, n) == after);
        assert(spec_place(chain, m, n - 1));
        if unspent.len() > 0 {
            assert(spec_get_record(records, new.id) is None) by {
                assert forall|b: int, t: int|
                    #[trigger] spec_place(chain, b, t) && done(b, t) implies chain[b].transactions[t].id
                    != new.id by {
                    assert(b != m || t != n - 1);
                }
            }
            assert(after == records.push(RecordModel { txid: new.id, outputs: unspent }));
            let count = new.vout.len() as int;
            if spec_spent_at(chain, m, n - 1, 0) {
                assert forall|v: int| 0 <= v < count implies #[trigger] spec_is_output_spent(
                    chain,
                    new.id,
                    v as usize,
                ) by {
                    assert(spec_spent_at(chain, m, n - 1, v) == spec_spent_at(chain, m, n - 1, 0));
                }
                lemma_unspent_none(chain, new, count);
            } else {
                assert forall|v: int| 0 <= v < count implies !#[trigger] spec_is_output_spent(
                    chain,
                    new.id,
                    v as usize,
                ) by {
                    assert(spec_spent_at(chain, m, n - 1, v) == spec_spent_at(chain, m, n - 1, 0));
                }
                lemma_unspent_all(chain, new, count);
                assert(new.vout.take(count) =~= new.vout);
            }
            lemma_find_transaction_at(chain, 0, m, n - 1);
            assert(chain.skip(0) =~= chain);
            assert(spec_record_shown(chain, RecordModel { txid: new.id, outputs: unspent }));
            assert forall|r: int| 0 <= r < after.len() implies spec_record_shown(
                chain,
                #[trigger] after[r],
            ) by {
                if r < records.len() {
                    assert(after[r] == records[r]);
                }
            }
        }
    } else if m > 0 {
        let before = chain[m - 1].transactions;
        let count = before.len() as int;
        lemma_rebuild_shows(chain, m - 1, count);
        assert(before.take(count) =~= before);
        assert(chain.take(m).drop_last() =~= chain.take(m - 1));
        assert(chain.take(m).last() == chain[m - 1]);
        assert(transactions.take(0) =~= Seq::<TransactionModel>::empty());
        assert(spec_rebuilt_to(chain, m, 0) == spec_rebuilt_to(chain, m - 1, count));
    } else {
        assert(chain.take(0) =~= Seq::<BlockModel>::empty());
        assert(transactions.take(0) =~= Seq::<TransactionModel>::empty());
        assert(spec_rebuilt_to(chain, 0, 0) =~= Seq::<RecordModel>::empty());
    }
}

/// The index of a rebuild shows the chain, where the transactions of the
/// chain have identifiers of their own and each is spent as a whole or not
/// at all: its records hold the outputs of the chain in the places of the
/// chain, so that what is gathered from it can be spent.
pub proof fn lemma_rebuild_shows_chain(chain: Seq<BlockModel>)
    requires
        spec_distinct(chain),
        spec_spent_whole(chain),
    ensures
        spec_index_shows_chain(chain, spec_find_utxo(chain)),
{
    if chain.len() == 0 {
        assert(spec_find_utxo(chain) =~= Seq::<RecordModel>::empty());
    } else {
        let last = chain.len() - 1;
        let oldest = chain[last].transactions;
        lemma_rebuild_shows(chain, last, oldest.len() as int);
        assert(oldest.take(oldest.len() as int) =~= oldest);
        assert(chain.take(last) =~= chain.drop_last());
        assert(spec_find_utxo(chain) == spec_rebuilt_to(chain, last, oldest.len() as int));
    }
}

} // verus!
