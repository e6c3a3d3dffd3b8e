//! The typed model of the store, and its binding to the byte columns.
//!
//! A `StoreModel` is what the store logically holds: typed maps from
//! identities to entities. The binding invariant says each typed entry
//! corresponds to exactly one byte entry — its key under the column's
//! keying rule, its value the entity's encoding. Batch operations are
//! mirrored by typed operations, and applying matched operations
//! preserves the binding.

use vstd::prelude::*;
use vstd::bytes::*;
use crate::body::{enc_body, wf_body};
use crate::codec::enc_list;
use crate::kv::{
    COLUMNS,
    COLUMN_BLOCK_BODY,
    COLUMN_BLOCK_EPOCH,
    COLUMN_BLOCK_EXT,
    COLUMN_BLOCK_HEADER,
    COLUMN_BLOCK_PROPOSAL_IDS,
    COLUMN_BLOCK_UNCLE,
    COLUMN_CELL_META,
    COLUMN_CELL_SET,
    COLUMN_EPOCH,
    COLUMN_INDEX,
    COLUMN_META,
    COLUMN_TRANSACTION_ADDR,
    COLUMN_UNCLES,
    KvOpV,
    apply_op,
    apply_ops,
};
use crate::types::{
    BlockExtV,
    CellMeta,
    EpochExt,
    H256,
    Header,
    OutPoint,
    ProposalShortId,
    TransactionAddress,
    TransactionMetaV,
    TransactionV,
    UncleBlock,
    UncleBlockV,
    e64,
    enc_block_ext,
    enc_cell_meta,
    enc_epoch_ext,
    enc_h256,
    enc_header,
    enc_out_point,
    enc_tx_address,
    enc_tx_meta,
    lemma_enc_h256_injective,
    lemma_enc_h256_len,
    lemma_enc_out_point_injective,
    lemma_enc_out_point_len,
    wf_block_ext,
    wf_tx_meta,
    wf_uncle,
};

verus! {

/// The key of the tip row in the meta column: the bytes of "TIP_HEADER".
pub open spec fn tip_key_bytes() -> Seq<u8> {
    seq![84u8, 73u8, 80u8, 95u8, 72u8, 69u8, 65u8, 68u8, 69u8, 82u8]
}

/// The key of the current-epoch row: the bytes of "CURRENT_EPOCH".
pub open spec fn current_epoch_key_bytes() -> Seq<u8> {
    seq![67u8, 85u8, 82u8, 82u8, 69u8, 78u8, 84u8, 95u8, 69u8, 80u8, 79u8, 67u8, 72u8]
}

/// What the store holds, typed.
pub ghost struct StoreModel {
    pub headers: Map<H256, Header>,
    pub bodies: Map<H256, Seq<TransactionV>>,
    pub uncles: Map<H256, Seq<UncleBlockV>>,
    pub proposals: Map<H256, Seq<ProposalShortId>>,
    pub block_exts: Map<H256, BlockExtV>,
    pub block_epochs: Map<H256, H256>,
    pub num_to_hash: Map<u64, H256>,
    pub hash_to_num: Map<H256, u64>,
    pub tip: Option<H256>,
    pub current_epoch: Option<EpochExt>,
    pub tx_addrs: Map<H256, TransactionAddress>,
    pub cell_metas: Map<OutPoint, CellMeta>,
    pub cell_set: Map<H256, TransactionMetaV>,
    pub epoch_exts: Map<H256, EpochExt>,
    pub epoch_index: Map<u64, H256>,
    pub uncle_set: Set<H256>,
}

impl StoreModel {
    /// The empty store.
    pub open spec fn init() -> StoreModel {
        StoreModel {
            headers: Map::empty(),
            bodies: Map::empty(),
            uncles: Map::empty(),
            proposals: Map::empty(),
            block_exts: Map::empty(),
            block_epochs: Map::empty(),
            num_to_hash: Map::empty(),
            hash_to_num: Map::empty(),
            tip: Option::None,
            current_epoch: Option::None,
            tx_addrs: Map::empty(),
            cell_metas: Map::empty(),
            cell_set: Map::empty(),
            epoch_exts: Map::empty(),
            epoch_index: Map::empty(),
            uncle_set: Set::empty(),
        }
    }
}

/// Every variable-length entity the model holds fits its encoding.
pub open spec fn model_wf(m: StoreModel) -> bool {
    &&& forall|h: H256| m.bodies.contains_key(h) ==> wf_body(#[trigger] m.bodies[h])
    &&& forall|h: H256|
        m.uncles.contains_key(h) ==> crate::codec::wf_list::<UncleBlock>(#[trigger] m.uncles[h])
    &&& forall|h: H256| m.proposals.contains_key(h) ==> (#[trigger] m.proposals[h]).len()
        <= u32::MAX
    &&& forall|h: H256| m.block_exts.contains_key(h) ==> wf_block_ext(#[trigger] m.block_exts[h])
    &&& forall|h: H256| m.cell_set.contains_key(h) ==> wf_tx_meta(#[trigger] m.cell_set[h])
}

/// A typed mutation, one per batch primitive.
pub ghost enum TypedOp {
    PutHeader(H256, Header),
    PutBody(H256, Seq<TransactionV>),
    PutUncles(H256, Seq<UncleBlockV>),
    PutProposals(H256, Seq<ProposalShortId>),
    PutBlockExt(H256, BlockExtV),
    PutBlockEpoch(H256, H256),
    PutNumToHash(u64, H256),
    PutHashToNum(H256, u64),
    PutTip(H256),
    PutCurrentEpoch(EpochExt),
    PutTxAddr(H256, TransactionAddress),
    PutCellMeta(OutPoint, CellMeta),
    PutCellSet(H256, TransactionMetaV),
    PutEpochExt(H256, EpochExt),
    PutEpochIndex(u64, H256),
    PutUncleMark(H256),
    DelTxAddr(H256),
    DelCellMeta(OutPoint),
    DelNumToHash(u64),
    DelHashToNum(H256),
    DelUncleMark(H256),
    DelCellSet(H256),
}

/// The byte operation a typed operation stands for.
pub open spec fn top_to_kvop(t: TypedOp) -> KvOpV {
    match t {
        TypedOp::PutHeader(h, v) => KvOpV::Insert {
            col: COLUMN_BLOCK_HEADER,
            key: enc_h256(h),
            value: enc_header(v),
        },
        TypedOp::PutBody(h, txs) => KvOpV::Insert {
            col: COLUMN_BLOCK_BODY,
            key: enc_h256(h),
            value: enc_body(txs),
        },
        TypedOp::PutUncles(h, us) => KvOpV::Insert {
            col: COLUMN_BLOCK_UNCLE,
            key: enc_h256(h),
            value: enc_list::<UncleBlock>(us),
        },
        TypedOp::PutProposals(h, ps) => KvOpV::Insert {
            col: COLUMN_BLOCK_PROPOSAL_IDS,
            key: enc_h256(h),
            value: enc_list::<ProposalShortId>(ps),
        },
        TypedOp::PutBlockExt(h, e) => KvOpV::Insert {
            col: COLUMN_BLOCK_EXT,
            key: enc_h256(h),
            value: enc_block_ext(e),
        },
        TypedOp::PutBlockEpoch(h, a) => KvOpV::Insert {
            col: COLUMN_BLOCK_EPOCH,
            key: enc_h256(h),
            value: enc_h256(a),
        },
        TypedOp::PutNumToHash(n, h) => KvOpV::Insert {
            col: COLUMN_INDEX,
            key: e64(n),
            value: enc_h256(h),
        },
        TypedOp::PutHashToNum(h, n) => KvOpV::Insert {
            col: COLUMN_INDEX,
            key: enc_h256(h),
            value: e64(n),
        },
        TypedOp::PutTip(h) => KvOpV::Insert {
            col: COLUMN_META,
            key: tip_key_bytes(),
            value: enc_h256(h),
        },
        TypedOp::PutCurrentEpoch(e) => KvOpV::Insert {
            col: COLUMN_META,
            key: current_epoch_key_bytes(),
            value: enc_epoch_ext(e),
        },
        TypedOp::PutTxAddr(h, a) => KvOpV::Insert {
            col: COLUMN_TRANSACTION_ADDR,
            key: enc_h256(h),
            value: enc_tx_address(a),
        },
        TypedOp::PutCellMeta(p, c) => KvOpV::Insert {
            col: COLUMN_CELL_META,
            key: enc_out_point(p),
            value: enc_cell_meta(c),
        },
        TypedOp::PutCellSet(h, t) => KvOpV::Insert {
            col: COLUMN_CELL_SET,
            key: enc_h256(h),
            value: enc_tx_meta(t),
        },
        TypedOp::PutEpochExt(a, e) => KvOpV::Insert {
            col: COLUMN_EPOCH,
            key: enc_h256(a),
            value: enc_epoch_ext(e),
        },
        TypedOp::PutEpochIndex(n, a) => KvOpV::Insert {
            col: COLUMN_EPOCH,
            key: e64(n),
            value: enc_h256(a),
        },
        TypedOp::PutUncleMark(h) => KvOpV::Insert {
            col: COLUMN_UNCLES,
            key: enc_h256(h),
            value: Seq::empty(),
        },
        TypedOp::DelTxAddr(h) => KvOpV::Delete { col: COLUMN_TRANSACTION_ADDR, key: enc_h256(h) },
        TypedOp::DelCellMeta(p) => KvOpV::Delete { col: COLUMN_CELL_META, key: enc_out_point(p) },
        TypedOp::DelNumToHash(n) => KvOpV::Delete { col: COLUMN_INDEX, key: e64(n) },
        TypedOp::DelHashToNum(h) => KvOpV::Delete { col: COLUMN_INDEX, key: enc_h256(h) },
        TypedOp::DelUncleMark(h) => KvOpV::Delete { col: COLUMN_UNCLES, key: enc_h256(h) },
        TypedOp::DelCellSet(h) => KvOpV::Delete { col: COLUMN_CELL_SET, key: enc_h256(h) },
    }
}

/// The typed operations a batch holds are well-formed when their values
/// fit their encodings.
pub open spec fn top_wf(t: TypedOp) -> bool {
    match t {
        TypedOp::PutBody(_, txs) => wf_body(txs),
        TypedOp::PutUncles(_, us) => crate::codec::wf_list::<UncleBlock>(us),
        TypedOp::PutProposals(_, ps) => ps.len() <= u32::MAX,
        TypedOp::PutBlockExt(_, e) => wf_block_ext(e),
        TypedOp::PutCellSet(_, t) => wf_tx_meta(t),
        _ => true,
    }
}

pub open spec fn tops_wf(ts: Seq<TypedOp>) -> bool {
    forall|i: int| 0 <= i < ts.len() ==> top_wf(#[trigger] ts[i])
}

/// The typed effect of one operation.
pub open spec fn apply_top(m: StoreModel, t: TypedOp) -> StoreModel {
    match t {
        TypedOp::PutHeader(h, v) => StoreModel { headers: m.headers.insert(h, v), ..m },
        TypedOp::PutBody(h, txs) => StoreModel { bodies: m.bodies.insert(h, txs), ..m },
        TypedOp::PutUncles(h, us) => StoreModel { uncles: m.uncles.insert(h, us), ..m },
        TypedOp::PutProposals(h, ps) => StoreModel { proposals: m.proposals.insert(h, ps), ..m },
        TypedOp::PutBlockExt(h, e) => StoreModel { block_exts: m.block_exts.insert(h, e), ..m },
        TypedOp::PutBlockEpoch(h, a) => StoreModel {
            block_epochs: m.block_epochs.insert(h, a),
            ..m
        },
        TypedOp::PutNumToHash(n, h) => StoreModel { num_to_hash: m.num_to_hash.insert(n, h), ..m },
        TypedOp::PutHashToNum(h, n) => StoreModel { hash_to_num: m.hash_to_num.insert(h, n), ..m },
        TypedOp::PutTip(h) => StoreModel { tip: Option::Some(h), ..m },
        TypedOp::PutCurrentEpoch(e) => StoreModel { current_epoch: Option::Some(e), ..m },
        TypedOp::PutTxAddr(h, a) => StoreModel { tx_addrs: m.tx_addrs.insert(h, a), ..m },
        TypedOp::PutCellMeta(p, c) => StoreModel { cell_metas: m.cell_metas.insert(p, c), ..m },
        TypedOp::PutCellSet(h, t) => StoreModel { cell_set: m.cell_set.insert(h, t), ..m },
        TypedOp::PutEpochExt(a, e) => StoreModel { epoch_exts: m.epoch_exts.insert(a, e), ..m },
        TypedOp::PutEpochIndex(n, a) => StoreModel { epoch_index: m.epoch_index.insert(n, a), ..m },
        TypedOp::PutUncleMark(h) => StoreModel { uncle_set: m.uncle_set.insert(h), ..m },
        TypedOp::DelTxAddr(h) => StoreModel { tx_addrs: m.tx_addrs.remove(h), ..m },
        TypedOp::DelCellMeta(p) => StoreModel { cell_metas: m.cell_metas.remove(p), ..m },
        TypedOp::DelNumToHash(n) => StoreModel { num_to_hash: m.num_to_hash.remove(n), ..m },
        TypedOp::DelHashToNum(h) => StoreModel { hash_to_num: m.hash_to_num.remove(h), ..m },
        TypedOp::DelUncleMark(h) => StoreModel { uncle_set: m.uncle_set.remove(h), ..m },
        TypedOp::DelCellSet(h) => StoreModel { cell_set: m.cell_set.remove(h), ..m },
    }
}

/// The typed effect of a whole batch, first operation first.
pub open spec fn apply_tops(m: StoreModel, ts: Seq<TypedOp>) -> StoreModel
    decreases ts.len(),
{
    if ts.len() == 0 {
        m
    } else {
        apply_tops(apply_top(m, ts[0]), ts.drop_first())
    }
}

/// Typed batches compose by concatenation.
pub proof fn lemma_apply_tops_concat(m: StoreModel, s1: Seq<TypedOp>, s2: Seq<TypedOp>)
    ensures
        apply_tops(m, s1 + s2) == apply_tops(apply_tops(m, s1), s2),
    decreases s1.len(),
{
    if s1.len() == 0 {
        assert(s1 + s2 =~= s2);
    } else {
        assert((s1 + s2)[0] == s1[0]);
        assert((s1 + s2).drop_first() =~= s1.drop_first() + s2);
        lemma_apply_tops_concat(apply_top(m, s1[0]), s1.drop_first(), s2);
    }
}

/// A column whose keys are hash encodings, bound to a typed map.
pub open spec fn binds_hash_map<T>(
    col: Map<Seq<u8>, Seq<u8>>,
    m: Map<H256, T>,
    ev: spec_fn(T) -> Seq<u8>,
) -> bool {
    forall|h: H256|
        #![trigger enc_h256(h)]
        (m.contains_key(h) <==> col.contains_key(enc_h256(h))) && (m.contains_key(h)
            ==> col[enc_h256(h)] == ev(m[h]))
}

/// A column whose keys are number encodings, bound to a typed map.
pub open spec fn binds_u64_map<T>(
    col: Map<Seq<u8>, Seq<u8>>,
    m: Map<u64, T>,
    ev: spec_fn(T) -> Seq<u8>,
) -> bool {
    forall|n: u64|
        #![trigger e64(n)]
        (m.contains_key(n) <==> col.contains_key(e64(n))) && (m.contains_key(n) ==> col[e64(n)]
            == ev(m[n]))
}

/// A column keyed by 36-byte cell keys.
pub open spec fn binds_out_point_map<T>(
    col: Map<Seq<u8>, Seq<u8>>,
    m: Map<OutPoint, T>,
    ev: spec_fn(T) -> Seq<u8>,
) -> bool {
    forall|p: OutPoint|
        #![trigger enc_out_point(p)]
        (m.contains_key(p) <==> col.contains_key(enc_out_point(p))) && (m.contains_key(p)
            ==> col[enc_out_point(p)] == ev(m[p]))
}

/// The meta column: the two singleton rows.
pub open spec fn binds_meta(
    col: Map<Seq<u8>, Seq<u8>>,
    tip: Option<H256>,
    cur: Option<EpochExt>,
) -> bool {
    &&& match tip {
        Option::Some(h) => col.contains_key(tip_key_bytes()) && col[tip_key_bytes()] == enc_h256(h),
        Option::None => !col.contains_key(tip_key_bytes()),
    }
    &&& match cur {
        Option::Some(e) => col.contains_key(current_epoch_key_bytes()) && col[current_epoch_key_bytes()]
            == enc_epoch_ext(e),
        Option::None => !col.contains_key(current_epoch_key_bytes()),
    }
}

/// Membership column: a hash key is present iff the hash is in the set.
pub open spec fn binds_hash_set(col: Map<Seq<u8>, Seq<u8>>, s: Set<H256>) -> bool {
    forall|h: H256| #![trigger enc_h256(h)] s.contains(h) <==> col.contains_key(enc_h256(h))
}

/// The whole binding: each column against its typed map.
pub open spec fn binds(d: Seq<Map<Seq<u8>, Seq<u8>>>, m: StoreModel) -> bool {
    &&& d.len() == COLUMNS
    &&& binds_hash_map(d[COLUMN_BLOCK_HEADER as int], m.headers, |v: Header| enc_header(v))
    &&& binds_hash_map(d[COLUMN_BLOCK_BODY as int], m.bodies, |v: Seq<TransactionV>| enc_body(v))
    &&& binds_hash_map(
        d[COLUMN_BLOCK_UNCLE as int],
        m.uncles,
        |v: Seq<UncleBlockV>| enc_list::<UncleBlock>(v),
    )
    &&& binds_hash_map(
        d[COLUMN_BLOCK_PROPOSAL_IDS as int],
        m.proposals,
        |v: Seq<ProposalShortId>| enc_list::<ProposalShortId>(v),
    )
    &&& binds_hash_map(d[COLUMN_BLOCK_EXT as int], m.block_exts, |v: BlockExtV| enc_block_ext(v))
    &&& binds_hash_map(d[COLUMN_BLOCK_EPOCH as int], m.block_epochs, |v: H256| enc_h256(v))
    &&& binds_u64_map(d[COLUMN_INDEX as int], m.num_to_hash, |v: H256| enc_h256(v))
    &&& binds_hash_map(d[COLUMN_INDEX as int], m.hash_to_num, |v: u64| e64(v))
    &&& binds_meta(d[COLUMN_META as int], m.tip, m.current_epoch)
    &&& binds_hash_map(
        d[COLUMN_TRANSACTION_ADDR as int],
        m.tx_addrs,
        |v: TransactionAddress| enc_tx_address(v),
    )
    &&& binds_out_point_map(d[COLUMN_CELL_META as int], m.cell_metas, |v: CellMeta| enc_cell_meta(v))
    &&& binds_hash_map(d[COLUMN_CELL_SET as int], m.cell_set, |v: TransactionMetaV| enc_tx_meta(v))
    &&& forall|k: Seq<u8>|
        #[trigger] d[COLUMN_CELL_SET as int].contains_key(k) ==> exists|h: H256| k == enc_h256(h)
    &&& binds_hash_map(d[COLUMN_EPOCH as int], m.epoch_exts, |v: EpochExt| enc_epoch_ext(v))
    &&& binds_u64_map(d[COLUMN_EPOCH as int], m.epoch_index, |v: H256| enc_h256(v))
    &&& binds_hash_set(d[COLUMN_UNCLES as int], m.uncle_set)
}

/// Key-shape facts: the keyspaces of one column never collide.
pub proof fn lemma_key_shapes()
    ensures
        forall|h: H256| (#[trigger] enc_h256(h)).len() == 32,
        forall|n: u64| (#[trigger] e64(n)).len() == 8,
        forall|p: OutPoint| (#[trigger] enc_out_point(p)).len() == 36,
        tip_key_bytes().len() == 10,
        current_epoch_key_bytes().len() == 13,
        forall|a: H256, b: H256| enc_h256(a) == enc_h256(b) ==> a == b,
        forall|a: u64, b: u64| e64(a) == e64(b) ==> a == b,
        forall|a: OutPoint, b: OutPoint| enc_out_point(a) == enc_out_point(b) ==> a == b,
{
    lemma_enc_h256_len();
    lemma_enc_out_point_len();
    lemma_auto_spec_u64_to_from_le_bytes();
    assert forall|a: H256, b: H256| enc_h256(a) == enc_h256(b) implies a == b by {
        lemma_enc_h256_injective(a, b);
    }
    assert forall|a: OutPoint, b: OutPoint| enc_out_point(a) == enc_out_point(b) implies a == b by {
        lemma_enc_out_point_injective(a, b);
    }
    assert forall|a: u64, b: u64| e64(a) == e64(b) implies a == b by {
        assert(spec_u64_from_le_bytes(e64(a)) == spec_u64_from_le_bytes(e64(b)));
    }
}

proof fn lemma_hash_put<T>(
    col: Map<Seq<u8>, Seq<u8>>,
    m: Map<H256, T>,
    ev: spec_fn(T) -> Seq<u8>,
    h: H256,
    v: T,
)
    requires
        binds_hash_map(col, m, ev),
    ensures
        binds_hash_map(col.insert(enc_h256(h), ev(v)), m.insert(h, v), ev),
{
    lemma_key_shapes();
    assert forall|h2: H256|
        #![trigger enc_h256(h2)]
        (m.insert(h, v).contains_key(h2) <==> col.insert(enc_h256(h), ev(v)).contains_key(
            enc_h256(h2),
        )) && (m.insert(h, v).contains_key(h2) ==> col.insert(enc_h256(h), ev(v))[enc_h256(h2)]
        == ev(m.insert(h, v)[h2])) by {
        if enc_h256(h2) == enc_h256(h) {
            assert(h2 == h);
        }
    }
}

proof fn lemma_hash_del<T>(
    col: Map<Seq<u8>, Seq<u8>>,
    m: Map<H256, T>,
    ev: spec_fn(T) -> Seq<u8>,
    h: H256,
)
    requires
        binds_hash_map(col, m, ev),
    ensures
        binds_hash_map(col.remove(enc_h256(h)), m.remove(h), ev),
{
    lemma_key_shapes();
    assert forall|h2: H256|
        #![trigger enc_h256(h2)]
        (m.remove(h).contains_key(h2) <==> col.remove(enc_h256(h)).contains_key(enc_h256(h2))) && (
        m.remove(h).contains_key(h2) ==> col.remove(enc_h256(h))[enc_h256(h2)] == ev(
            m.remove(h)[h2],
        )) by {
        if enc_h256(h2) == enc_h256(h) {
            assert(h2 == h);
        }
    }
}

proof fn lemma_hash_unrelated_insert<T>(
    col: Map<Seq<u8>, Seq<u8>>,
    m: Map<H256, T>,
    ev: spec_fn(T) -> Seq<u8>,
    k: Seq<u8>,
    val: Seq<u8>,
)
    requires
        binds_hash_map(col, m, ev),
        k.len() != 32,
    ensures
        binds_hash_map(col.insert(k, val), m, ev),
{
    lemma_key_shapes();
}

proof fn lemma_hash_unrelated_remove<T>(
    col: Map<Seq<u8>, Seq<u8>>,
    m: Map<H256, T>,
    ev: spec_fn(T) -> Seq<u8>,
    k: Seq<u8>,
)
    requires
        binds_hash_map(col, m, ev),
        k.len() != 32,
    ensures
        binds_hash_map(col.remove(k), m, ev),
{
    lemma_key_shapes();
}

proof fn lemma_u64_put<T>(
    col: Map<Seq<u8>, Seq<u8>>,
    m: Map<u64, T>,
    ev: spec_fn(T) -> Seq<u8>,
    n: u64,
    v: T,
)
    requires
        binds_u64_map(col, m, ev),
    ensures
        binds_u64_map(col.insert(e64(n), ev(v)), m.insert(n, v), ev),
{
    lemma_key_shapes();
    assert forall|n2: u64|
        #![trigger e64(n2)]
        (m.insert(n, v).contains_key(n2) <==> col.insert(e64(n), ev(v)).contains_key(e64(n2))) && (
        m.insert(n, v).contains_key(n2) ==> col.insert(e64(n), ev(v))[e64(n2)] == ev(
            m.insert(n, v)[n2],
        )) by {
        if e64(n2) == e64(n) {
            assert(n2 == n);
        }
    }
}

proof fn lemma_u64_del<T>(
    col: Map<Seq<u8>, Seq<u8>>,
    m: Map<u64, T>,
    ev: spec_fn(T) -> Seq<u8>,
    n: u64,
)
    requires
        binds_u64_map(col, m, ev),
    ensures
        binds_u64_map(col.remove(e64(n)), m.remove(n), ev),
{
    lemma_key_shapes();
    assert forall|n2: u64|
        #![trigger e64(n2)]
        (m.remove(n).contains_key(n2) <==> col.remove(e64(n)).contains_key(e64(n2))) && (m.remove(
            n,
        ).contains_key(n2) ==> col.remove(e64(n))[e64(n2)] == ev(m.remove(n)[n2])) by {
        if e64(n2) == e64(n) {
            assert(n2 == n);
        }
    }
}

proof fn lemma_u64_unrelated_insert<T>(
    col: Map<Seq<u8>, Seq<u8>>,
    m: Map<u64, T>,
    ev: spec_fn(T) -> Seq<u8>,
    k: Seq<u8>,
    val: Seq<u8>,
)
    requires
        binds_u64_map(col, m, ev),
        k.len() != 8,
    ensures
        binds_u64_map(col.insert(k, val), m, ev),
{
    lemma_key_shapes();
}

proof fn lemma_u64_unrelated_remove<T>(
    col: Map<Seq<u8>, Seq<u8>>,
    m: Map<u64, T>,
    ev: spec_fn(T) -> Seq<u8>,
    k: Seq<u8>,
)
    requires
        binds_u64_map(col, m, ev),
        k.len() != 8,
    ensures
        binds_u64_map(col.remove(k), m, ev),
{
    lemma_key_shapes();
}

proof fn lemma_out_point_put<T>(
    col: Map<Seq<u8>, Seq<u8>>,
    m: Map<OutPoint, T>,
    ev: spec_fn(T) -> Seq<u8>,
    p: OutPoint,
    v: T,
)
    requires
        binds_out_point_map(col, m, ev),
    ensures
        binds_out_point_map(col.insert(enc_out_point(p), ev(v)), m.insert(p, v), ev),
{
    lemma_key_shapes();
    assert forall|p2: OutPoint|
        #![trigger enc_out_point(p2)]
        (m.insert(p, v).contains_key(p2) <==> col.insert(enc_out_point(p), ev(v)).contains_key(
            enc_out_point(p2),
        )) && (m.insert(p, v).contains_key(p2) ==> col.insert(
            enc_out_point(p),
            ev(v),
        )[enc_out_point(p2)] == ev(m.insert(p, v)[p2])) by {
        if enc_out_point(p2) == enc_out_point(p) {
            assert(p2 == p);
        }
    }
}

proof fn lemma_out_point_del<T>(
    col: Map<Seq<u8>, Seq<u8>>,
    m: Map<OutPoint, T>,
    ev: spec_fn(T) -> Seq<u8>,
    p: OutPoint,
)
    requires
        binds_out_point_map(col, m, ev),
    ensures
        binds_out_point_map(col.remove(enc_out_point(p)), m.remove(p), ev),
{
    lemma_key_shapes();
    assert forall|p2: OutPoint|
        #![trigger enc_out_point(p2)]
        (m.remove(p).contains_key(p2) <==> col.remove(enc_out_point(p)).contains_key(
            enc_out_point(p2),
        )) && (m.remove(p).contains_key(p2) ==> col.remove(enc_out_point(p))[enc_out_point(p2)]
        == ev(m.remove(p)[p2])) by {
        if enc_out_point(p2) == enc_out_point(p) {
            assert(p2 == p);
        }
    }
}

proof fn lemma_hash_set_put(col: Map<Seq<u8>, Seq<u8>>, s: Set<H256>, h: H256, val: Seq<u8>)
    requires
        binds_hash_set(col, s),
    ensures
        binds_hash_set(col.insert(enc_h256(h), val), s.insert(h)),
{
    lemma_key_shapes();
    assert forall|h2: H256|
        #![trigger enc_h256(h2)]
        s.insert(h).contains(h2) <==> col.insert(enc_h256(h), val).contains_key(enc_h256(h2)) by {
        if enc_h256(h2) == enc_h256(h) {
            assert(h2 == h);
        }
    }
}

proof fn lemma_hash_set_del(col: Map<Seq<u8>, Seq<u8>>, s: Set<H256>, h: H256)
    requires
        binds_hash_set(col, s),
    ensures
        binds_hash_set(col.remove(enc_h256(h)), s.remove(h)),
{
    lemma_key_shapes();
    assert forall|h2: H256|
        #![trigger enc_h256(h2)]
        s.remove(h).contains(h2) <==> col.remove(enc_h256(h)).contains_key(enc_h256(h2)) by {
        if enc_h256(h2) == enc_h256(h) {
            assert(h2 == h);
        }
    }
}

/// One matched operation preserves the binding.
#[verifier::rlimit(100)]
#[verifier::spinoff_prover]
pub proof fn lemma_binds_step(d: Seq<Map<Seq<u8>, Seq<u8>>>, m: StoreModel, t: TypedOp)
    requires
        binds(d, m),
    ensures
        binds(apply_op(d, top_to_kvop(t)), apply_top(m, t)),
{
    lemma_key_shapes();
    let d2 = apply_op(d, top_to_kvop(t));
    let m2 = apply_top(m, t);
    assert(d2.len() == COLUMNS);
    match t {
        TypedOp::PutHeader(h, v) => {
            lemma_hash_put(d[COLUMN_BLOCK_HEADER as int], m.headers, |x: Header| enc_header(x), h, v);
        },
        TypedOp::PutBody(h, txs) => {
            lemma_hash_put(
                d[COLUMN_BLOCK_BODY as int],
                m.bodies,
                |x: Seq<TransactionV>| enc_body(x),
                h,
                txs,
            );
        },
        TypedOp::PutUncles(h, us) => {
            lemma_hash_put(
                d[COLUMN_BLOCK_UNCLE as int],
                m.uncles,
                |x: Seq<UncleBlockV>| enc_list::<UncleBlock>(x),
                h,
                us,
            );
        },
        TypedOp::PutProposals(h, ps) => {
            lemma_hash_put(
                d[COLUMN_BLOCK_PROPOSAL_IDS as int],
                m.proposals,
                |x: Seq<ProposalShortId>| enc_list::<ProposalShortId>(x),
                h,
                ps,
            );
        },
        TypedOp::PutBlockExt(h, e) => {
            lemma_hash_put(
                d[COLUMN_BLOCK_EXT as int],
                m.block_exts,
                |x: BlockExtV| enc_block_ext(x),
                h,
                e,
            );
        },
        TypedOp::PutBlockEpoch(h, a) => {
            lemma_hash_put(d[COLUMN_BLOCK_EPOCH as int], m.block_epochs, |x: H256| enc_h256(x), h, a);
        },
        TypedOp::PutNumToHash(n, h) => {
            lemma_u64_put(d[COLUMN_INDEX as int], m.num_to_hash, |x: H256| enc_h256(x), n, h);
            lemma_hash_unrelated_insert(
                d[COLUMN_INDEX as int],
                m.hash_to_num,
                |x: u64| e64(x),
                e64(n),
                enc_h256(h),
            );
        },
        TypedOp::PutHashToNum(h, n) => {
            lemma_hash_put(d[COLUMN_INDEX as int], m.hash_to_num, |x: u64| e64(x), h, n);
            lemma_u64_unrelated_insert(
                d[COLUMN_INDEX as int],
                m.num_to_hash,
                |x: H256| enc_h256(x),
                enc_h256(h),
                e64(n),
            );
        },
        TypedOp::PutTip(h) => {
            assert(tip_key_bytes() != current_epoch_key_bytes());
            assert(binds_meta(
                d[COLUMN_META as int].insert(tip_key_bytes(), enc_h256(h)),
                Option::Some(h),
                m.current_epoch,
            ));
        },
        TypedOp::PutCurrentEpoch(e) => {
            assert(tip_key_bytes() != current_epoch_key_bytes());
            assert(binds_meta(
                d[COLUMN_META as int].insert(current_epoch_key_bytes(), enc_epoch_ext(e)),
                m.tip,
                Option::Some(e),
            ));
        },
        TypedOp::PutTxAddr(h, a) => {
            lemma_hash_put(
                d[COLUMN_TRANSACTION_ADDR as int],
                m.tx_addrs,
                |x: TransactionAddress| enc_tx_address(x),
                h,
                a,
            );
        },
        TypedOp::PutCellMeta(p, c) => {
            lemma_out_point_put(
                d[COLUMN_CELL_META as int],
                m.cell_metas,
                |x: CellMeta| enc_cell_meta(x),
                p,
                c,
            );
        },
        TypedOp::PutCellSet(h, tm) => {
            lemma_hash_put(
                d[COLUMN_CELL_SET as int],
                m.cell_set,
                |x: TransactionMetaV| enc_tx_meta(x),
                h,
                tm,
            );
            assert forall|k: Seq<u8>| #[trigger]
                d2[COLUMN_CELL_SET as int].contains_key(k) implies exists|h2: H256| k == enc_h256(
                h2,
            ) by {
                if k == enc_h256(h) {
                    assert(exists|h2: H256| k == enc_h256(h2));
                } else {
                    assert(d[COLUMN_CELL_SET as int].contains_key(k));
                }
            }
        },
        TypedOp::PutEpochExt(a, e) => {
            lemma_hash_put(d[COLUMN_EPOCH as int], m.epoch_exts, |x: EpochExt| enc_epoch_ext(x), a, e);
            lemma_u64_unrelated_insert(
                d[COLUMN_EPOCH as int],
                m.epoch_index,
                |x: H256| enc_h256(x),
                enc_h256(a),
                enc_epoch_ext(e),
            );
        },
        TypedOp::PutEpochIndex(n, a) => {
            lemma_u64_put(d[COLUMN_EPOCH as int], m.epoch_index, |x: H256| enc_h256(x), n, a);
            lemma_hash_unrelated_insert(
                d[COLUMN_EPOCH as int],
                m.epoch_exts,
                |x: EpochExt| enc_epoch_ext(x),
                e64(n),
                enc_h256(a),
            );
        },
        TypedOp::PutUncleMark(h) => {
            lemma_hash_set_put(d[COLUMN_UNCLES as int], m.uncle_set, h, Seq::empty());
        },
        TypedOp::DelTxAddr(h) => {
            lemma_hash_del(
                d[COLUMN_TRANSACTION_ADDR as int],
                m.tx_addrs,
                |x: TransactionAddress| enc_tx_address(x),
                h,
            );
        },
        TypedOp::DelCellMeta(p) => {
            lemma_out_point_del(
                d[COLUMN_CELL_META as int],
                m.cell_metas,
                |x: CellMeta| enc_cell_meta(x),
                p,
            );
        },
        TypedOp::DelNumToHash(n) => {
            lemma_u64_del(d[COLUMN_INDEX as int], m.num_to_hash, |x: H256| enc_h256(x), n);
            lemma_hash_unrelated_remove(
                d[COLUMN_INDEX as int],
                m.hash_to_num,
                |x: u64| e64(x),
                e64(n),
            );
        },
        TypedOp::DelHashToNum(h) => {
            lemma_hash_del(d[COLUMN_INDEX as int], m.hash_to_num, |x: u64| e64(x), h);
            lemma_u64_unrelated_remove(
                d[COLUMN_INDEX as int],
                m.num_to_hash,
                |x: H256| enc_h256(x),
                enc_h256(h),
            );
        },
        TypedOp::DelUncleMark(h) => {
            lemma_hash_set_del(d[COLUMN_UNCLES as int], m.uncle_set, h);
        },
        TypedOp::DelCellSet(h) => {
            lemma_hash_del(d[COLUMN_CELL_SET as int], m.cell_set, |x: TransactionMetaV| enc_tx_meta(x), h);
        },
    }
}

/// A whole matched batch preserves the binding and the model's
/// well-formedness.
pub proof fn lemma_binds_apply(d: Seq<Map<Seq<u8>, Seq<u8>>>, m: StoreModel, ts: Seq<TypedOp>)
    requires
        binds(d, m),
        model_wf(m),
        tops_wf(ts),
    ensures
        binds(apply_ops(d, ts.map_values(|t: TypedOp| top_to_kvop(t))), apply_tops(m, ts)),
        model_wf(apply_tops(m, ts)),
    decreases ts.len(),
{
    let ks = ts.map_values(|t: TypedOp| top_to_kvop(t));
    if ts.len() == 0 {
        assert(apply_ops(d, ks) == d);
    } else {
        lemma_binds_step(d, m, ts[0]);
        assert(model_wf(apply_top(m, ts[0]))) by {
            assert(top_wf(ts[0]));
        }
        assert(tops_wf(ts.drop_first())) by {
            assert(forall|i: int|
                0 <= i < ts.len() - 1 ==> top_wf(#[trigger] ts.drop_first()[i]));
        }
        lemma_binds_apply(apply_op(d, ks[0]), apply_top(m, ts[0]), ts.drop_first());
        assert(ks.drop_first() =~= ts.drop_first().map_values(|t: TypedOp| top_to_kvop(t)));
        assert(ks[0] == top_to_kvop(ts[0]));
    }
}

} // verus!
