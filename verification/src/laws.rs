//! The store's laws: what committed batches do to every later read.
//!
//! Each law is stated over the typed model, which the getters answer
//! exactly (their contracts), so a law about `apply_tops` is a law
//! about what the reads return after `commit`.

use vstd::prelude::*;
use crate::model::{StoreModel, TypedOp, apply_top, apply_tops, lemma_apply_tops_concat};
use crate::store::{
    attach_tops,
    attach_txs_upto,
    cell_meta_tops_upto,
    del_cell_meta_tops_upto,
    detach_tops,
    detach_txs_upto,
    insert_block_tops,
    spec_cell_output,
    spec_transaction,
    spec_tx_cell_meta,
    tx_attach_tops,
    tx_detach_tops,
    uncle_marks_upto,
    uncle_unmarks_upto,
};
use crate::types::{BlockV, H256, OutPoint, TransactionAddress, TransactionV, UncleBlockV};

verus! {

/// No two transactions of the block share a hash.
pub open spec fn distinct_tx_hashes(txs: Seq<TransactionV>) -> bool {
    forall|x: int, y: int|
        0 <= x < y < txs.len() ==> (#[trigger] txs[x]).hash != (#[trigger] txs[y]).hash
}

/// Inserting a block writes exactly its four facets and touches nothing
/// else.
pub proof fn lemma_insert_block_effect(m: StoreModel, b: BlockV)
    ensures
        ({
            let m2 = apply_tops(m, insert_block_tops(b));
            &&& m2.headers == m.headers.insert(b.header.hash, b.header)
            &&& m2.uncles == m.uncles.insert(b.header.hash, b.uncles)
            &&& m2.proposals == m.proposals.insert(b.header.hash, b.proposals)
            &&& m2.bodies == m.bodies.insert(b.header.hash, b.transactions)
            &&& m2 == StoreModel {
                headers: m2.headers,
                uncles: m2.uncles,
                proposals: m2.proposals,
                bodies: m2.bodies,
                ..m
            }
        }),
{
    reveal_with_fuel(apply_tops, 6);
    let s = insert_block_tops(b);
    let s1 = s.drop_first();
    let s2 = s1.drop_first();
    let s3 = s2.drop_first();
    assert(s1 =~= seq![s[1], s[2], s[3]]);
    assert(s2 =~= seq![s[2], s[3]]);
    assert(s3 =~= seq![s[3]]);
    assert(s3.drop_first() =~= Seq::<TypedOp>::empty());
    assert(apply_tops(m, s) == apply_top(
        apply_top(apply_top(apply_top(m, s[0]), s[1]), s[2]),
        s[3],
    ));
}

/// After `insert_block(B)` commits, each facet read answers exactly the
/// block's own content, and `get_block(B.hash)` reassembles `B`.
pub proof fn lemma_insert_block_round_trip(m: StoreModel, b: BlockV)
    ensures
        ({
            let m2 = apply_tops(m, insert_block_tops(b));
            &&& m2.headers.contains_key(b.header.hash) && m2.headers[b.header.hash] == b.header
            &&& m2.bodies.contains_key(b.header.hash) && m2.bodies[b.header.hash]
                == b.transactions
            &&& m2.uncles.contains_key(b.header.hash) && m2.uncles[b.header.hash] == b.uncles
            &&& m2.proposals.contains_key(b.header.hash) && m2.proposals[b.header.hash]
                == b.proposals
        }),
{
    reveal_with_fuel(apply_tops, 6);
    lemma_insert_block_effect(m, b);
}

/// The cell-meta run of one transaction: adds one entry per output so
/// far, and touches no other cell key and no other component.
proof fn lemma_cell_metas_effect(
    m: StoreModel,
    t: TransactionV,
    number: u64,
    epoch: u64,
    cellbase: bool,
    j: int,
)
    requires
        0 <= j <= t.outputs.len(),
        t.outputs.len() <= u32::MAX,
    ensures
        ({
            let m2 = apply_tops(m, cell_meta_tops_upto(t, number, epoch, cellbase, j));
            &&& forall|y: int|
                0 <= y < j ==> #[trigger] m2.cell_metas.contains_key(OutPoint { tx_hash: t.hash, index: y as u32 },
                ) && m2.cell_metas[OutPoint { tx_hash: t.hash, index: y as u32 }]
                    == spec_tx_cell_meta(t, number, epoch, cellbase, y)
            &&& forall|p: OutPoint|
                #![trigger writes_cell_of(t, j, p)]
                !writes_cell_of(t, j, p) ==> (m2.cell_metas.contains_key(p)
                    == m.cell_metas.contains_key(p) && (m.cell_metas.contains_key(p)
                    ==> m2.cell_metas[p] == m.cell_metas[p]))
            &&& m2 == StoreModel { cell_metas: m2.cell_metas, ..m }
        }),
    decreases j,
{
    reveal_with_fuel(apply_tops, 6);
    if j == 0 {
        assert(cell_meta_tops_upto(t, number, epoch, cellbase, 0) =~= Seq::<TypedOp>::empty());
    } else {
        lemma_cell_metas_effect(m, t, number, epoch, cellbase, j - 1);
        let m1 = apply_tops(m, cell_meta_tops_upto(t, number, epoch, cellbase, j - 1));
        let op = TypedOp::PutCellMeta(
            OutPoint { tx_hash: t.hash, index: (j - 1) as u32 },
            spec_tx_cell_meta(t, number, epoch, cellbase, j - 1),
        );
        lemma_apply_tops_concat(
            m,
            cell_meta_tops_upto(t, number, epoch, cellbase, j - 1),
            seq![op],
        );
        assert(seq![op].drop_first() =~= Seq::<TypedOp>::empty());
        assert(apply_tops(m1, seq![op]) == apply_top(m1, op));
        let m2 = apply_top(m1, op);
        assert forall|y: int|
            0 <= y < j implies #[trigger] m2.cell_metas.contains_key(OutPoint { tx_hash: t.hash, index: y as u32 },
        ) && m2.cell_metas[OutPoint { tx_hash: t.hash, index: y as u32 }] == spec_tx_cell_meta(
            t,
            number,
            epoch,
            cellbase,
            y,
        ) by {
            if y < j - 1 {
                assert(OutPoint { tx_hash: t.hash, index: y as u32 } != OutPoint {
                    tx_hash: t.hash,
                    index: (j - 1) as u32,
                });
            }
        }
        assert forall|p: OutPoint|
            !writes_cell_of(t, j, p) implies (m2.cell_metas.contains_key(p)
            == m.cell_metas.contains_key(p) && (m.cell_metas.contains_key(p)
            ==> m2.cell_metas[p] == m.cell_metas[p])) by {
            assert(!writes_cell_of(t, j - 1, p));
            assert(p != (OutPoint { tx_hash: t.hash, index: (j - 1) as u32 })) by {
                if p == (OutPoint { tx_hash: t.hash, index: (j - 1) as u32 }) {
                    assert(writes_cell_of(t, j, p));
                }
            }
        }
    }
}

/// Attaching one transaction: its address plus its cell metas.
proof fn lemma_tx_attach_effect(
    m: StoreModel,
    t: TransactionV,
    bh: H256,
    number: u64,
    epoch: u64,
    i: int,
)
    requires
        t.outputs.len() <= u32::MAX,
        0 <= i,
    ensures
        ({
            let m2 = apply_tops(m, tx_attach_tops(t, bh, number, epoch, i));
            &&& m2.tx_addrs == m.tx_addrs.insert(
                t.hash,
                TransactionAddress { block_hash: bh, index: i as u32 },
            )
            &&& forall|y: int|
                0 <= y < t.outputs.len() ==> #[trigger] m2.cell_metas.contains_key(OutPoint { tx_hash: t.hash, index: y as u32 },
                ) && m2.cell_metas[OutPoint { tx_hash: t.hash, index: y as u32 }]
                    == spec_tx_cell_meta(t, number, epoch, i == 0, y)
            &&& forall|p: OutPoint|
                #![trigger writes_cell_of(t, t.outputs.len() as int, p)]
                !writes_cell_of(t, t.outputs.len() as int, p) ==> (m2.cell_metas.contains_key(p)
                    == m.cell_metas.contains_key(p) && (m.cell_metas.contains_key(p)
                    ==> m2.cell_metas[p] == m.cell_metas[p]))
            &&& m2 == StoreModel { tx_addrs: m2.tx_addrs, cell_metas: m2.cell_metas, ..m }
        }),
{
    reveal_with_fuel(apply_tops, 6);
    let addr_op = TypedOp::PutTxAddr(
        t.hash,
        TransactionAddress { block_hash: bh, index: i as u32 },
    );
    lemma_apply_tops_concat(
        m,
        seq![addr_op],
        cell_meta_tops_upto(t, number, epoch, i == 0, t.outputs.len() as int),
    );
    assert(seq![addr_op].drop_first() =~= Seq::<TypedOp>::empty());
    let m1 = apply_top(m, addr_op);
    assert(apply_tops(m, seq![addr_op]) == m1);
    lemma_cell_metas_effect(m1, t, number, epoch, i == 0, t.outputs.len() as int);
    let m2 = apply_tops(m1, cell_meta_tops_upto(t, number, epoch, i == 0, t.outputs.len() as int));
    assert forall|p: OutPoint|
        !writes_cell_of(t, t.outputs.len() as int, p) implies (m2.cell_metas.contains_key(p)
        == m.cell_metas.contains_key(p) && (m.cell_metas.contains_key(p)
        ==> m2.cell_metas[p] == m.cell_metas[p])) by {
        assert(m2.cell_metas.contains_key(p) == m1.cell_metas.contains_key(p) && (
        m1.cell_metas.contains_key(p) ==> m2.cell_metas[p] == m1.cell_metas[p]));
    }
}

/// Some transaction among the first `i` has this hash.
pub open spec fn names_tx(txs: Seq<TransactionV>, i: int, h: H256) -> bool {
    exists|x: int| 0 <= x < i && (#[trigger] txs[x]).hash == h
}

/// Some transaction among the first `i` writes this cell key.
pub open spec fn names_cell(txs: Seq<TransactionV>, i: int, p: OutPoint) -> bool {
    exists|x: int|
        0 <= x < i && (#[trigger] txs[x]).hash == p.tx_hash && p.index < txs[x].outputs.len()
}

/// Some uncle among the first `k` has this hash.
pub open spec fn names_uncle(us: Seq<UncleBlockV>, k: int, h: H256) -> bool {
    exists|x: int| 0 <= x < k && (#[trigger] us[x]).header.hash == h
}

/// The cell key `p` is one of the first `j` output keys of `t`.
pub open spec fn writes_cell_of(t: TransactionV, j: int, p: OutPoint) -> bool {
    p.tx_hash == t.hash && p.index < j
}

/// Attaching the first `i` transactions.
#[verifier::rlimit(100)]
#[verifier::spinoff_prover]
proof fn lemma_attach_txs_effect(
    m: StoreModel,
    txs: Seq<TransactionV>,
    bh: H256,
    number: u64,
    epoch: u64,
    i: int,
)
    requires
        0 <= i <= txs.len(),
        txs.len() <= u32::MAX,
        forall|x: int| 0 <= x < txs.len() ==> (#[trigger] txs[x]).outputs.len() <= u32::MAX,
        distinct_tx_hashes(txs),
    ensures
        ({
            let m2 = apply_tops(m, attach_txs_upto(txs, bh, number, epoch, i));
            &&& forall|x: int|
                0 <= x < i ==> m2.tx_addrs.contains_key((#[trigger] txs[x]).hash)
                    && m2.tx_addrs[txs[x].hash] == TransactionAddress {
                    block_hash: bh,
                    index: x as u32,
                }
            &&& forall|h: H256|
                #![trigger names_tx(txs, i, h)]
                !names_tx(txs, i, h) ==> (m2.tx_addrs.contains_key(h)
                    == m.tx_addrs.contains_key(h) && (m.tx_addrs.contains_key(h)
                    ==> m2.tx_addrs[h] == m.tx_addrs[h]))
            &&& forall|x: int, y: int|
                0 <= x < i && 0 <= y < txs[x].outputs.len() ==> (
                #[trigger] m2.cell_metas.contains_key(
                    OutPoint { tx_hash: txs[x].hash, index: y as u32 },
                )) && m2.cell_metas[OutPoint { tx_hash: txs[x].hash, index: y as u32 }]
                    == spec_tx_cell_meta(txs[x], number, epoch, x == 0, y)
            &&& forall|p: OutPoint|
                #![trigger names_cell(txs, i, p)]
                !names_cell(txs, i, p) ==> (m2.cell_metas.contains_key(p)
                    == m.cell_metas.contains_key(p) && (m.cell_metas.contains_key(p)
                    ==> m2.cell_metas[p] == m.cell_metas[p]))
            &&& m2 == StoreModel { tx_addrs: m2.tx_addrs, cell_metas: m2.cell_metas, ..m }
        }),
    decreases i,
{
    reveal_with_fuel(apply_tops, 6);
    if i == 0 {
        assert(attach_txs_upto(txs, bh, number, epoch, 0) =~= Seq::<TypedOp>::empty());
    } else {
        lemma_attach_txs_effect(m, txs, bh, number, epoch, i - 1);
        let m1 = apply_tops(m, attach_txs_upto(txs, bh, number, epoch, i - 1));
        lemma_apply_tops_concat(
            m,
            attach_txs_upto(txs, bh, number, epoch, i - 1),
            tx_attach_tops(txs[i - 1], bh, number, epoch, i - 1),
        );
        lemma_tx_attach_effect(m1, txs[i - 1], bh, number, epoch, i - 1);
        let m2 = apply_tops(m1, tx_attach_tops(txs[i - 1], bh, number, epoch, i - 1));
        assert forall|x: int|
            0 <= x < i implies m2.tx_addrs.contains_key((#[trigger] txs[x]).hash)
            && m2.tx_addrs[txs[x].hash] == TransactionAddress {
            block_hash: bh,
            index: x as u32,
        } by {
            if x < i - 1 {
                assert(txs[x].hash != txs[i - 1].hash);
                assert(!names_tx(txs, i - 1, txs[x].hash) ==> m1.tx_addrs.contains_key(
                    txs[x].hash,
                ) == m.tx_addrs.contains_key(txs[x].hash));
            }
        }
        assert forall|x: int, y: int|
            0 <= x < i && 0 <= y < txs[x].outputs.len() implies (
        #[trigger] m2.cell_metas.contains_key(
            OutPoint { tx_hash: txs[x].hash, index: y as u32 },
        )) && m2.cell_metas[OutPoint { tx_hash: txs[x].hash, index: y as u32 }]
            == spec_tx_cell_meta(txs[x], number, epoch, x == 0, y) by {
            if x < i - 1 {
                assert(txs[x].hash != txs[i - 1].hash);
                assert(m1.cell_metas.contains_key(
                    OutPoint { tx_hash: txs[x].hash, index: y as u32 },
                ));
                assert(m1.cell_metas[OutPoint { tx_hash: txs[x].hash, index: y as u32 }]
                    == spec_tx_cell_meta(txs[x], number, epoch, x == 0, y));
                assert(!writes_cell_of(txs[i - 1], txs[i - 1].outputs.len() as int, OutPoint {
                    tx_hash: txs[x].hash,
                    index: y as u32,
                }));
            } else {
                assert(m2.cell_metas.contains_key(
                    OutPoint { tx_hash: txs[i - 1].hash, index: y as u32 },
                ));
            }
        }
        assert forall|h: H256|
            !names_tx(txs, i, h) implies (#[trigger] m2.tx_addrs.contains_key(h)
            == m.tx_addrs.contains_key(h) && (m.tx_addrs.contains_key(h) ==> m2.tx_addrs[h]
            == m.tx_addrs[h])) by {
            assert(!names_tx(txs, i - 1, h)) by {
                if names_tx(txs, i - 1, h) {
                    let x = choose|x: int| 0 <= x < i - 1 && (#[trigger] txs[x]).hash == h;
                    assert(names_tx(txs, i, h)) by {
                        assert(0 <= x < i && txs[x].hash == h);
                    }
                }
            }
            assert(txs[i - 1].hash != h) by {
                if txs[i - 1].hash == h {
                    assert(names_tx(txs, i, h)) by {
                        assert(0 <= i - 1 < i && txs[i - 1].hash == h);
                    }
                }
            }
        }
        assert forall|p: OutPoint|
            !names_cell(txs, i, p) implies (#[trigger] m2.cell_metas.contains_key(p)
            == m.cell_metas.contains_key(p) && (m.cell_metas.contains_key(p)
            ==> m2.cell_metas[p] == m.cell_metas[p])) by {
            assert(!names_cell(txs, i - 1, p)) by {
                if names_cell(txs, i - 1, p) {
                    let x = choose|x: int|
                        0 <= x < i - 1 && (#[trigger] txs[x]).hash == p.tx_hash && p.index
                            < txs[x].outputs.len();
                    assert(names_cell(txs, i, p)) by {
                        assert(0 <= x < i && txs[x].hash == p.tx_hash && p.index
                            < txs[x].outputs.len());
                    }
                }
            }
            assert(!writes_cell_of(txs[i - 1], txs[i - 1].outputs.len() as int, p)) by {
                if p.tx_hash == txs[i - 1].hash && p.index < txs[i - 1].outputs.len() {
                    assert(names_cell(txs, i, p)) by {
                        assert(0 <= i - 1 < i && txs[i - 1].hash == p.tx_hash && p.index < txs[i
                            - 1].outputs.len());
                    }
                }
            }
            assert(m1.cell_metas.contains_key(p) == m.cell_metas.contains_key(p) && (
            m.cell_metas.contains_key(p) ==> m1.cell_metas[p] == m.cell_metas[p]));
            assert(m2.cell_metas.contains_key(p) == m1.cell_metas.contains_key(p) && (
            m1.cell_metas.contains_key(p) ==> m2.cell_metas[p] == m1.cell_metas[p]));
        }
    }
}

/// Marking uncles: adds exactly their hashes to the uncle set.
proof fn lemma_uncle_marks_effect(m: StoreModel, us: Seq<UncleBlockV>, k: int)
    requires
        0 <= k <= us.len(),
    ensures
        ({
            let m2 = apply_tops(m, uncle_marks_upto(us, k));
            &&& forall|x: int| 0 <= x < k ==> m2.uncle_set.contains((#[trigger] us[x]).header.hash)
            &&& forall|h: H256|
                #![trigger names_uncle(us, k, h)]
                !names_uncle(us, k, h) ==> (m2.uncle_set.contains(h)
                    == m.uncle_set.contains(h))
            &&& m2 == StoreModel { uncle_set: m2.uncle_set, ..m }
        }),
    decreases k,
{
    reveal_with_fuel(apply_tops, 6);
    if k == 0 {
        assert(uncle_marks_upto(us, 0) =~= Seq::<TypedOp>::empty());
    } else {
        lemma_uncle_marks_effect(m, us, k - 1);
        let m1 = apply_tops(m, uncle_marks_upto(us, k - 1));
        let op = TypedOp::PutUncleMark(us[k - 1].header.hash);
        lemma_apply_tops_concat(m, uncle_marks_upto(us, k - 1), seq![op]);
        assert(seq![op].drop_first() =~= Seq::<TypedOp>::empty());
        let m2 = apply_top(m1, op);
        assert(apply_tops(m1, seq![op]) == m2);
        assert forall|h: H256|
            !names_uncle(us, k, h) implies (#[trigger] m2.uncle_set.contains(h)
            == m.uncle_set.contains(h)) by {
            assert(!names_uncle(us, k - 1, h)) by {
                if names_uncle(us, k - 1, h) {
                    let x = choose|x: int| 0 <= x < k - 1 && (#[trigger] us[x]).header.hash == h;
                    assert(names_uncle(us, k, h)) by {
                        assert(0 <= x < k && us[x].header.hash == h);
                    }
                }
            }
            assert(us[k - 1].header.hash != h) by {
                if us[k - 1].header.hash == h {
                    assert(names_uncle(us, k, h)) by {
                        assert(0 <= k - 1 < k && us[k - 1].header.hash == h);
                    }
                }
            }
        }
    }
}

/// After `attach_block(B)` commits: both index directions answer the
/// block, every transaction resolves through its address, every
/// output's cell meta is present, and every uncle is marked. Nothing
/// else moves.
#[verifier::rlimit(100)]
#[verifier::spinoff_prover]
pub proof fn lemma_attach_block_effect(m: StoreModel, b: BlockV)
    requires
        b.transactions.len() <= u32::MAX,
        forall|x: int|
            0 <= x < b.transactions.len() ==> (#[trigger] b.transactions[x]).outputs.len()
                <= u32::MAX,
        distinct_tx_hashes(b.transactions),
    ensures
        ({
            let m2 = apply_tops(m, attach_tops(b));
            &&& m2.num_to_hash.contains_key(b.header.number) && m2.num_to_hash[b.header.number]
                == b.header.hash
            &&& m2.hash_to_num.contains_key(b.header.hash) && m2.hash_to_num[b.header.hash]
                == b.header.number
            &&& forall|x: int|
                0 <= x < b.transactions.len() ==> m2.tx_addrs.contains_key(
                    (#[trigger] b.transactions[x]).hash,
                ) && m2.tx_addrs[b.transactions[x].hash] == TransactionAddress {
                    block_hash: b.header.hash,
                    index: x as u32,
                }
            &&& forall|x: int, y: int|
                0 <= x < b.transactions.len() && 0 <= y < b.transactions[x].outputs.len() ==> (
                #[trigger] m2.cell_metas.contains_key(
                    OutPoint { tx_hash: b.transactions[x].hash, index: y as u32 },
                )) && m2.cell_metas[OutPoint { tx_hash: b.transactions[x].hash, index: y as u32 }]
                    == spec_tx_cell_meta(
                    b.transactions[x],
                    b.header.number,
                    b.header.epoch,
                    x == 0,
                    y,
                )
            &&& forall|x: int|
                0 <= x < b.uncles.len() ==> m2.uncle_set.contains(
                    (#[trigger] b.uncles[x]).header.hash,
                )
            &&& m2.headers == m.headers
            &&& m2.bodies == m.bodies
            &&& m2.uncles == m.uncles
            &&& m2.proposals == m.proposals
            &&& m2.block_exts == m.block_exts
            &&& m2.tip == m.tip
            &&& m2.current_epoch == m.current_epoch
            &&& m2.cell_set == m.cell_set
            &&& m2.epoch_exts == m.epoch_exts
            &&& m2.epoch_index == m.epoch_index
            &&& m2.block_epochs == m.block_epochs
        }),
{
    reveal_with_fuel(apply_tops, 6);
    let txs = b.transactions;
    let n = txs.len() as int;
    let a = attach_txs_upto(txs, b.header.hash, b.header.number, b.header.epoch, n);
    let num_op = seq![TypedOp::PutNumToHash(b.header.number, b.header.hash)];
    let marks = uncle_marks_upto(b.uncles, b.uncles.len() as int);
    let h2n_op = seq![TypedOp::PutHashToNum(b.header.hash, b.header.number)];
    lemma_attach_txs_effect(m, txs, b.header.hash, b.header.number, b.header.epoch, n);
    let m1 = apply_tops(m, a);
    lemma_apply_tops_concat(m, a, num_op);
    assert(num_op.drop_first() =~= Seq::<TypedOp>::empty());
    let m2 = apply_top(m1, num_op[0]);
    assert(apply_tops(m1, num_op) == m2);
    lemma_apply_tops_concat(m, a + num_op, marks);
    lemma_uncle_marks_effect(m2, b.uncles, b.uncles.len() as int);
    let m3 = apply_tops(m2, marks);
    lemma_apply_tops_concat(m, a + num_op + marks, h2n_op);
    assert(h2n_op.drop_first() =~= Seq::<TypedOp>::empty());
    let m4 = apply_top(m3, h2n_op[0]);
    assert(apply_tops(m3, h2n_op) == m4);
    assert(attach_tops(b) == a + num_op + marks + h2n_op);
    assert(apply_tops(m, attach_tops(b)) == m4);
}

/// Removing the cell metas of one transaction.
proof fn lemma_del_cell_metas_effect(m: StoreModel, t: TransactionV, j: int)
    requires
        0 <= j <= t.outputs.len(),
        t.outputs.len() <= u32::MAX,
    ensures
        ({
            let m2 = apply_tops(m, del_cell_meta_tops_upto(t, j));
            &&& forall|y: int|
                0 <= y < j ==> !(#[trigger] m2.cell_metas.contains_key(
                    OutPoint { tx_hash: t.hash, index: y as u32 },
                ))
            &&& forall|p: OutPoint|
                #![trigger writes_cell_of(t, j, p)]
                !writes_cell_of(t, j, p) ==> (m2.cell_metas.contains_key(p)
                    == m.cell_metas.contains_key(p) && (m.cell_metas.contains_key(p)
                    ==> m2.cell_metas[p] == m.cell_metas[p]))
            &&& m2 == StoreModel { cell_metas: m2.cell_metas, ..m }
        }),
    decreases j,
{
    reveal_with_fuel(apply_tops, 6);
    if j == 0 {
        assert(del_cell_meta_tops_upto(t, 0) =~= Seq::<TypedOp>::empty());
    } else {
        lemma_del_cell_metas_effect(m, t, j - 1);
        let m1 = apply_tops(m, del_cell_meta_tops_upto(t, j - 1));
        let op = TypedOp::DelCellMeta(OutPoint { tx_hash: t.hash, index: (j - 1) as u32 });
        lemma_apply_tops_concat(m, del_cell_meta_tops_upto(t, j - 1), seq![op]);
        assert(seq![op].drop_first() =~= Seq::<TypedOp>::empty());
        let m2 = apply_top(m1, op);
        assert(apply_tops(m1, seq![op]) == m2);
        assert forall|y: int|
            0 <= y < j implies !(#[trigger] m2.cell_metas.contains_key(
            OutPoint { tx_hash: t.hash, index: y as u32 },
        )) by {
            if y < j - 1 {
                assert((OutPoint { tx_hash: t.hash, index: y as u32 }) != (OutPoint {
                    tx_hash: t.hash,
                    index: (j - 1) as u32,
                }));
            }
        }
        assert forall|p: OutPoint|
            !writes_cell_of(t, j, p) implies (m2.cell_metas.contains_key(p)
            == m.cell_metas.contains_key(p) && (m.cell_metas.contains_key(p)
            ==> m2.cell_metas[p] == m.cell_metas[p])) by {
            assert(!writes_cell_of(t, j - 1, p));
            assert(p != (OutPoint { tx_hash: t.hash, index: (j - 1) as u32 })) by {
                if p == (OutPoint { tx_hash: t.hash, index: (j - 1) as u32 }) {
                    assert(writes_cell_of(t, j, p));
                }
            }
        }
    }
}

/// Detaching one transaction: its address and all its cell metas go.
proof fn lemma_tx_detach_effect(m: StoreModel, t: TransactionV)
    requires
        t.outputs.len() <= u32::MAX,
    ensures
        ({
            let m2 = apply_tops(m, tx_detach_tops(t));
            &&& m2.tx_addrs == m.tx_addrs.remove(t.hash)
            &&& forall|y: int|
                0 <= y < t.outputs.len() ==> !(#[trigger] m2.cell_metas.contains_key(
                    OutPoint { tx_hash: t.hash, index: y as u32 },
                ))
            &&& forall|p: OutPoint|
                #![trigger writes_cell_of(t, t.outputs.len() as int, p)]
                !writes_cell_of(t, t.outputs.len() as int, p) ==> (m2.cell_metas.contains_key(p)
                    == m.cell_metas.contains_key(p) && (m.cell_metas.contains_key(p)
                    ==> m2.cell_metas[p] == m.cell_metas[p]))
            &&& m2 == StoreModel { tx_addrs: m2.tx_addrs, cell_metas: m2.cell_metas, ..m }
        }),
{
    reveal_with_fuel(apply_tops, 6);
    let addr_op = TypedOp::DelTxAddr(t.hash);
    lemma_apply_tops_concat(m, seq![addr_op], del_cell_meta_tops_upto(t, t.outputs.len() as int));
    assert(seq![addr_op].drop_first() =~= Seq::<TypedOp>::empty());
    let m1 = apply_top(m, addr_op);
    assert(apply_tops(m, seq![addr_op]) == m1);
    lemma_del_cell_metas_effect(m1, t, t.outputs.len() as int);
    let m2 = apply_tops(m1, del_cell_meta_tops_upto(t, t.outputs.len() as int));
    assert forall|p: OutPoint|
        !writes_cell_of(t, t.outputs.len() as int, p) implies (m2.cell_metas.contains_key(p)
        == m.cell_metas.contains_key(p) && (m.cell_metas.contains_key(p)
        ==> m2.cell_metas[p] == m.cell_metas[p])) by {
        assert(m2.cell_metas.contains_key(p) == m1.cell_metas.contains_key(p) && (
        m1.cell_metas.contains_key(p) ==> m2.cell_metas[p] == m1.cell_metas[p]));
    }
}

/// Detaching the first `i` transactions.
#[verifier::rlimit(100)]
#[verifier::spinoff_prover]
proof fn lemma_detach_txs_effect(m: StoreModel, txs: Seq<TransactionV>, i: int)
    requires
        0 <= i <= txs.len(),
        txs.len() <= u32::MAX,
        forall|x: int| 0 <= x < txs.len() ==> (#[trigger] txs[x]).outputs.len() <= u32::MAX,
    ensures
        ({
            let m2 = apply_tops(m, detach_txs_upto(txs, i));
            &&& forall|x: int| 0 <= x < i ==> !m2.tx_addrs.contains_key((#[trigger] txs[x]).hash)
            &&& forall|h: H256|
                #![trigger names_tx(txs, i, h)]
                !names_tx(txs, i, h) ==> (m2.tx_addrs.contains_key(h)
                    == m.tx_addrs.contains_key(h) && (m.tx_addrs.contains_key(h)
                    ==> m2.tx_addrs[h] == m.tx_addrs[h]))
            &&& forall|x: int, y: int|
                0 <= x < i && 0 <= y < txs[x].outputs.len() ==> !(
                #[trigger] m2.cell_metas.contains_key(
                    OutPoint { tx_hash: txs[x].hash, index: y as u32 },
                ))
            &&& forall|p: OutPoint|
                #![trigger names_cell(txs, i, p)]
                !names_cell(txs, i, p) ==> (m2.cell_metas.contains_key(p)
                    == m.cell_metas.contains_key(p) && (m.cell_metas.contains_key(p)
                    ==> m2.cell_metas[p] == m.cell_metas[p]))
            &&& m2 == StoreModel { tx_addrs: m2.tx_addrs, cell_metas: m2.cell_metas, ..m }
        }),
    decreases i,
{
    reveal_with_fuel(apply_tops, 6);
    if i == 0 {
        assert(detach_txs_upto(txs, 0) =~= Seq::<TypedOp>::empty());
    } else {
        lemma_detach_txs_effect(m, txs, i - 1);
        let m1 = apply_tops(m, detach_txs_upto(txs, i - 1));
        lemma_apply_tops_concat(m, detach_txs_upto(txs, i - 1), tx_detach_tops(txs[i - 1]));
        lemma_tx_detach_effect(m1, txs[i - 1]);
        let m2 = apply_tops(m1, tx_detach_tops(txs[i - 1]));
        assert forall|x: int|
            0 <= x < i implies !m2.tx_addrs.contains_key((#[trigger] txs[x]).hash) by {
            if x < i - 1 {
                assert(!m1.tx_addrs.contains_key(txs[x].hash));
            }
        }
        assert forall|x: int, y: int|
            0 <= x < i && 0 <= y < txs[x].outputs.len() implies !(
        #[trigger] m2.cell_metas.contains_key(
            OutPoint { tx_hash: txs[x].hash, index: y as u32 },
        )) by {
            if x < i - 1 {
                assert(!m1.cell_metas.contains_key(
                    OutPoint { tx_hash: txs[x].hash, index: y as u32 },
                ));
                if writes_cell_of(txs[i - 1], txs[i - 1].outputs.len() as int, OutPoint {
                    tx_hash: txs[x].hash,
                    index: y as u32,
                }) {
                } else {
                    assert(m2.cell_metas.contains_key(
                        OutPoint { tx_hash: txs[x].hash, index: y as u32 },
                    ) == m1.cell_metas.contains_key(
                        OutPoint { tx_hash: txs[x].hash, index: y as u32 },
                    ));
                }
            } else {
                assert(!m2.cell_metas.contains_key(
                    OutPoint { tx_hash: txs[i - 1].hash, index: y as u32 },
                ));
            }
        }
        assert forall|h: H256|
            !names_tx(txs, i, h) implies (#[trigger] m2.tx_addrs.contains_key(h)
            == m.tx_addrs.contains_key(h) && (m.tx_addrs.contains_key(h) ==> m2.tx_addrs[h]
            == m.tx_addrs[h])) by {
            assert(!names_tx(txs, i - 1, h)) by {
                if names_tx(txs, i - 1, h) {
                    let x = choose|x: int| 0 <= x < i - 1 && (#[trigger] txs[x]).hash == h;
                    assert(names_tx(txs, i, h)) by {
                        assert(0 <= x < i && txs[x].hash == h);
                    }
                }
            }
            assert(txs[i - 1].hash != h) by {
                if txs[i - 1].hash == h {
                    assert(names_tx(txs, i, h)) by {
                        assert(0 <= i - 1 < i && txs[i - 1].hash == h);
                    }
                }
            }
        }
        assert forall|p: OutPoint|
            !names_cell(txs, i, p) implies (#[trigger] m2.cell_metas.contains_key(p)
            == m.cell_metas.contains_key(p) && (m.cell_metas.contains_key(p)
            ==> m2.cell_metas[p] == m.cell_metas[p])) by {
            assert(!names_cell(txs, i - 1, p)) by {
                if names_cell(txs, i - 1, p) {
                    let x = choose|x: int|
                        0 <= x < i - 1 && (#[trigger] txs[x]).hash == p.tx_hash && p.index
                            < txs[x].outputs.len();
                    assert(names_cell(txs, i, p)) by {
                        assert(0 <= x < i && txs[x].hash == p.tx_hash && p.index
                            < txs[x].outputs.len());
                    }
                }
            }
            assert(!writes_cell_of(txs[i - 1], txs[i - 1].outputs.len() as int, p)) by {
                if p.tx_hash == txs[i - 1].hash && p.index < txs[i - 1].outputs.len() {
                    assert(names_cell(txs, i, p)) by {
                        assert(0 <= i - 1 < i && txs[i - 1].hash == p.tx_hash && p.index < txs[i
                            - 1].outputs.len());
                    }
                }
            }
            assert(m1.cell_metas.contains_key(p) == m.cell_metas.contains_key(p) && (
            m.cell_metas.contains_key(p) ==> m1.cell_metas[p] == m.cell_metas[p]));
            assert(m2.cell_metas.contains_key(p) == m1.cell_metas.contains_key(p) && (
            m1.cell_metas.contains_key(p) ==> m2.cell_metas[p] == m1.cell_metas[p]));
        }
    }
}

/// Unmarking uncles.
proof fn lemma_uncle_unmarks_effect(m: StoreModel, us: Seq<UncleBlockV>, k: int)
    requires
        0 <= k <= us.len(),
    ensures
        ({
            let m2 = apply_tops(m, uncle_unmarks_upto(us, k));
            &&& forall|x: int|
                0 <= x < k ==> !m2.uncle_set.contains((#[trigger] us[x]).header.hash)
            &&& forall|h: H256|
                #![trigger names_uncle(us, k, h)]
                !names_uncle(us, k, h) ==> (m2.uncle_set.contains(h)
                    == m.uncle_set.contains(h))
            &&& m2 == StoreModel { uncle_set: m2.uncle_set, ..m }
        }),
    decreases k,
{
    reveal_with_fuel(apply_tops, 6);
    if k == 0 {
        assert(uncle_unmarks_upto(us, 0) =~= Seq::<TypedOp>::empty());
    } else {
        lemma_uncle_unmarks_effect(m, us, k - 1);
        let m1 = apply_tops(m, uncle_unmarks_upto(us, k - 1));
        let op = TypedOp::DelUncleMark(us[k - 1].header.hash);
        lemma_apply_tops_concat(m, uncle_unmarks_upto(us, k - 1), seq![op]);
        assert(seq![op].drop_first() =~= Seq::<TypedOp>::empty());
        let m2 = apply_top(m1, op);
        assert(apply_tops(m1, seq![op]) == m2);
        assert forall|x: int|
            0 <= x < k implies !m2.uncle_set.contains((#[trigger] us[x]).header.hash) by {
            if x < k - 1 {
                assert(!m1.uncle_set.contains(us[x].header.hash));
            }
        }
        assert forall|h: H256|
            !names_uncle(us, k, h) implies (#[trigger] m2.uncle_set.contains(h)
            == m.uncle_set.contains(h)) by {
            assert(!names_uncle(us, k - 1, h)) by {
                if names_uncle(us, k - 1, h) {
                    let x = choose|x: int| 0 <= x < k - 1 && (#[trigger] us[x]).header.hash == h;
                    assert(names_uncle(us, k, h)) by {
                        assert(0 <= x < k && us[x].header.hash == h);
                    }
                }
            }
            assert(us[k - 1].header.hash != h) by {
                if us[k - 1].header.hash == h {
                    assert(names_uncle(us, k, h)) by {
                        assert(0 <= k - 1 < k && us[k - 1].header.hash == h);
                    }
                }
            }
        }
    }
}

/// Attaching a fresh block and then detaching it restores every
/// affected column exactly; the payload rows written by `insert_block`
/// are untouched by either.
#[verifier::rlimit(100)]
#[verifier::spinoff_prover]
pub proof fn lemma_attach_detach_restores(m: StoreModel, b: BlockV)
    requires
        b.transactions.len() <= u32::MAX,
        forall|x: int|
            0 <= x < b.transactions.len() ==> (#[trigger] b.transactions[x]).outputs.len()
                <= u32::MAX,
        distinct_tx_hashes(b.transactions),
        // the block is fresh: nothing it writes is already present
        forall|x: int|
            0 <= x < b.transactions.len() ==> !m.tx_addrs.contains_key(
                (#[trigger] b.transactions[x]).hash,
            ),
        forall|p: OutPoint|
            names_cell(b.transactions, b.transactions.len() as int, p) ==> !(
            #[trigger] m.cell_metas.contains_key(p)),
        !m.num_to_hash.contains_key(b.header.number),
        !m.hash_to_num.contains_key(b.header.hash),
        forall|x: int|
            0 <= x < b.uncles.len() ==> !m.uncle_set.contains((#[trigger] b.uncles[x]).header.hash),
    ensures
        apply_tops(apply_tops(m, attach_tops(b)), detach_tops(b)) == m,
{
    reveal_with_fuel(apply_tops, 6);
    let txs = b.transactions;
    let n = txs.len() as int;
    let us = b.uncles;
    let k = us.len() as int;
    let ma = apply_tops(m, attach_tops(b));

    // decompose the attach side
    let a = attach_txs_upto(txs, b.header.hash, b.header.number, b.header.epoch, n);
    let num_op = seq![TypedOp::PutNumToHash(b.header.number, b.header.hash)];
    let marks = uncle_marks_upto(us, k);
    let h2n_op = seq![TypedOp::PutHashToNum(b.header.hash, b.header.number)];
    lemma_attach_txs_effect(m, txs, b.header.hash, b.header.number, b.header.epoch, n);
    let m1 = apply_tops(m, a);
    lemma_apply_tops_concat(m, a, num_op);
    assert(num_op.drop_first() =~= Seq::<TypedOp>::empty());
    let m2 = apply_top(m1, num_op[0]);
    assert(apply_tops(m1, num_op) == m2);
    lemma_apply_tops_concat(m, a + num_op, marks);
    lemma_uncle_marks_effect(m2, us, k);
    let m3 = apply_tops(m2, marks);
    lemma_apply_tops_concat(m, a + num_op + marks, h2n_op);
    assert(h2n_op.drop_first() =~= Seq::<TypedOp>::empty());
    let m4 = apply_top(m3, h2n_op[0]);
    assert(apply_tops(m3, h2n_op) == m4);
    assert(attach_tops(b) == a + num_op + marks + h2n_op);
    assert(ma == m4);

    // decompose the detach side
    let d = detach_txs_upto(txs, n);
    let unmarks = uncle_unmarks_upto(us, k);
    let dnum_op = seq![TypedOp::DelNumToHash(b.header.number)];
    let dh2n_op = seq![TypedOp::DelHashToNum(b.header.hash)];
    lemma_detach_txs_effect(ma, txs, n);
    let d1 = apply_tops(ma, d);
    lemma_apply_tops_concat(ma, d, unmarks);
    lemma_uncle_unmarks_effect(d1, us, k);
    let d2 = apply_tops(d1, unmarks);
    lemma_apply_tops_concat(ma, d + unmarks, dnum_op);
    assert(dnum_op.drop_first() =~= Seq::<TypedOp>::empty());
    let d3 = apply_top(d2, dnum_op[0]);
    assert(apply_tops(d2, dnum_op) == d3);
    lemma_apply_tops_concat(ma, d + unmarks + dnum_op, dh2n_op);
    assert(dh2n_op.drop_first() =~= Seq::<TypedOp>::empty());
    let d4 = apply_top(d3, dh2n_op[0]);
    assert(apply_tops(d3, dh2n_op) == d4);
    assert(detach_tops(b) == d + unmarks + dnum_op + dh2n_op);
    assert(apply_tops(ma, detach_tops(b)) == d4);

    // each component returns to where it started
    assert forall|h: H256|
        (#[trigger] d4.tx_addrs.contains_key(h)) == m.tx_addrs.contains_key(h) && (
    m.tx_addrs.contains_key(h) ==> d4.tx_addrs[h] == m.tx_addrs[h]) by {
        if names_tx(txs, n, h) {
            let x = choose|x: int| 0 <= x < n && (#[trigger] txs[x]).hash == h;
            assert(!d1.tx_addrs.contains_key(h));
            assert(!m.tx_addrs.contains_key(h));
        } else {
            assert(m1.tx_addrs.contains_key(h) == m.tx_addrs.contains_key(h) && (
            m.tx_addrs.contains_key(h) ==> m1.tx_addrs[h] == m.tx_addrs[h]));
            assert(d1.tx_addrs.contains_key(h) == ma.tx_addrs.contains_key(h) && (
            ma.tx_addrs.contains_key(h) ==> d1.tx_addrs[h] == ma.tx_addrs[h]));
        }
    }
    assert(d4.tx_addrs =~= m.tx_addrs);
    assert forall|p: OutPoint|
        (#[trigger] d4.cell_metas.contains_key(p)) == m.cell_metas.contains_key(p) && (
    m.cell_metas.contains_key(p) ==> d4.cell_metas[p] == m.cell_metas[p]) by {
        if names_cell(txs, n, p) {
            let x = choose|x: int|
                0 <= x < n && (#[trigger] txs[x]).hash == p.tx_hash && p.index
                    < txs[x].outputs.len();
            assert(!m.cell_metas.contains_key(p));
            assert(p == (OutPoint { tx_hash: txs[x].hash, index: p.index }));
            assert((p.index as int) < txs[x].outputs.len());
            assert((OutPoint { tx_hash: txs[x].hash, index: (p.index as int) as u32 }) == p);
            assert(!d1.cell_metas.contains_key(p));
        } else {
            assert(m1.cell_metas.contains_key(p) == m.cell_metas.contains_key(p) && (
            m.cell_metas.contains_key(p) ==> m1.cell_metas[p] == m.cell_metas[p]));
            assert(d1.cell_metas.contains_key(p) == ma.cell_metas.contains_key(p) && (
            ma.cell_metas.contains_key(p) ==> d1.cell_metas[p] == ma.cell_metas[p]));
        }
    }
    assert(d4.cell_metas =~= m.cell_metas);
    assert forall|h: H256| (#[trigger] d4.uncle_set.contains(h)) == m.uncle_set.contains(h) by {
        if names_uncle(us, k, h) {
            let x = choose|x: int| 0 <= x < k && (#[trigger] us[x]).header.hash == h;
            assert(!d2.uncle_set.contains(h));
            assert(!m.uncle_set.contains(h));
        } else {
            assert(m3.uncle_set.contains(h) == m2.uncle_set.contains(h));
            assert(d2.uncle_set.contains(h) == d1.uncle_set.contains(h));
        }
    }
    assert(d4.uncle_set =~= m.uncle_set);
    assert(d4.num_to_hash =~= m.num_to_hash);
    assert(d4.hash_to_num =~= m.hash_to_num);
    assert(d4 == m);
}

/// After inserting and attaching a block in one batch, a transaction
/// lookup resolves each contained transaction to itself and its block,
/// and each output's cell is reachable.
#[verifier::rlimit(100)]
#[verifier::spinoff_prover]
pub proof fn lemma_attach_after_insert(m: StoreModel, b: BlockV)
    requires
        b.transactions.len() <= u32::MAX,
        forall|x: int|
            0 <= x < b.transactions.len() ==> (#[trigger] b.transactions[x]).outputs.len()
                <= u32::MAX,
        distinct_tx_hashes(b.transactions),
    ensures
        ({
            let m2 = apply_tops(m, insert_block_tops(b) + attach_tops(b));
            &&& m2.num_to_hash.contains_key(b.header.number) && m2.num_to_hash[b.header.number]
                == b.header.hash
            &&& m2.hash_to_num.contains_key(b.header.hash) && m2.hash_to_num[b.header.hash]
                == b.header.number
            &&& forall|x: int|
                0 <= x < b.transactions.len() ==> spec_transaction(
                    m2,
                    (#[trigger] b.transactions[x]).hash,
                ) == Option::Some((b.transactions[x], b.header.hash))
            &&& forall|x: int, y: int|
                0 <= x < b.transactions.len() && 0 <= y < b.transactions[x].outputs.len()
                    ==> spec_cell_output(m2, (#[trigger] b.transactions[x]).hash, y as u32)
                    == Option::Some(#[trigger] b.transactions[x].outputs[y])
        }),
{
    lemma_apply_tops_concat(m, insert_block_tops(b), attach_tops(b));
    lemma_insert_block_effect(m, b);
    let mi = apply_tops(m, insert_block_tops(b));
    lemma_attach_block_effect(mi, b);
    let m2 = apply_tops(mi, attach_tops(b));
    assert(m2.bodies == mi.bodies);
    assert(m2.bodies.contains_key(b.header.hash) && m2.bodies[b.header.hash] == b.transactions);
    assert forall|x: int|
        0 <= x < b.transactions.len() implies spec_transaction(
        m2,
        (#[trigger] b.transactions[x]).hash,
    ) == Option::Some((b.transactions[x], b.header.hash)) by {
        assert(m2.tx_addrs[b.transactions[x].hash] == (TransactionAddress {
            block_hash: b.header.hash,
            index: x as u32,
        }));
        assert((x as u32) as int == x);
    }
    assert forall|x: int, y: int|
        0 <= x < b.transactions.len() && 0 <= y
            < b.transactions[x].outputs.len() implies spec_cell_output(
        m2,
        (#[trigger] b.transactions[x]).hash,
        y as u32,
    ) == Option::Some(#[trigger] b.transactions[x].outputs[y]) by {
        assert(m2.tx_addrs[b.transactions[x].hash] == (TransactionAddress {
            block_hash: b.header.hash,
            index: x as u32,
        }));
        assert(m2.cell_metas.contains_key(
            OutPoint { tx_hash: b.transactions[x].hash, index: y as u32 },
        ));
        assert((x as u32) as int == x);
        assert((y as u32) as int == y);
    }
}

} // verus!
