//! The chain store facade and its write batch.
//!
//! `ChainKVStore` owns the columnar byte store, the two read-through
//! caches, and a ghost typed model bound to the bytes by the store
//! invariant. Every getter answers exactly what the model holds;
//! every mutation goes through a `DefaultStoreBatch` and becomes
//! visible atomically at commit.

use vstd::prelude::*;
use crate::body::{
    body_tx_hashes,
    body_transaction_at,
    enc_body,
    lemma_body_regions,
    parse_body,
    wf_body,
};
use crate::cache::{
    CellOutputLru,
    HeaderLru,
    clone_cell_output,
    header_lru_find,
    output_lru_find,
};
use crate::codec::{Codec, enc_list, parse_items, parse_list, parse_u32, starts_at, views_of};
use crate::kv::{
    COLUMNS,
    COLUMN_BLOCK_BODY,
    COLUMN_BLOCK_EPOCH,
    COLUMN_BLOCK_EXT,
    COLUMN_BLOCK_HEADER,
    COLUMN_BLOCK_PROPOSAL_IDS,
    COLUMN_BLOCK_UNCLE,
    COLUMN_CELL_META,
    COLUMN_CELL_SET,
    COLUMN_EPOCH,
    COLUMN_INDEX,
    COLUMN_META,
    COLUMN_TRANSACTION_ADDR,
    COLUMN_UNCLES,
    KeyValueStore,
    KvOp,
    bytes_clone,
};
use crate::model::{
    StoreModel,
    binds,
    current_epoch_key_bytes,
    model_wf,
    tip_key_bytes,
    top_to_kvop,
    tops_wf,
    apply_tops,
    TypedOp,
};
use crate::types::{
    BlockExt,
    BlockExtV,
    Block,
    BlockV,
    CellMeta,
    CellOutput,
    EpochExt,
    H256,
    Header,
    OutPoint,
    ProposalShortId,
    Transaction,
    TransactionAddress,
    TransactionMeta,
    TransactionV,
    UncleBlock,
    UncleBlockV,
    e64,
    enc_h256,
    enc_header,
    enc_out_point,
    wf_block,
};

verus! {

/// Storage-layer failures.
#[derive(Clone, Copy, Debug, PartialEq, Eq, Structural)]
pub enum Error {
    /// A failure of the underlying key-value layer
    BackendIO,
    /// The on-disk format does not match the expected version
    VersionMismatch,
    /// A stored record failed to decode
    DecodeError,
    /// Capacity arithmetic overflowed during initialization
    Overflow,
}

/// Cache sizing, fixed at construction.
#[derive(Clone, Debug, PartialEq, Eq, Hash)]
pub struct StoreConfig {
    pub header_cache_size: usize,
    pub cell_output_cache_size: usize,
}

impl Default for StoreConfig {
    /// The stock sizes: 4096 headers, 128 cell outputs.
    fn default() -> (r: Self)
        ensures
            r.header_cache_size == 4096,
            r.cell_output_cache_size == 128,
    {
        StoreConfig { header_cache_size: 4096, cell_output_cache_size: 128 }
    }
}

/// The consensus descriptor the store is seeded from.
pub struct Consensus {
    pub genesis: Block,
    pub epoch: EpochExt,
}

impl Consensus {
    /// The genesis block of this consensus.
    pub fn genesis_block(&self) -> (r: &Block)
        ensures
            r == &self.genesis,
    {
        &self.genesis
    }

    /// The epoch state the chain starts in.
    pub fn genesis_epoch_ext(&self) -> (r: &EpochExt)
        ensures
            r == &self.epoch,
    {
        &self.epoch
    }
}

/// The 32-byte key of a hash.
fn h256_key(h: &H256) -> (r: Vec<u8>)
    ensures
        r@ == enc_h256(*h),
{
    let mut v: Vec<u8> = Vec::new();
    h.write(&mut v);
    assert(v@ =~= enc_h256(*h));
    v
}

/// The 8-byte key of a block or epoch number.
fn u64_key(n: u64) -> (r: Vec<u8>)
    ensures
        r@ == e64(n),
{
    let mut v: Vec<u8> = Vec::new();
    n.write(&mut v);
    assert(v@ =~= e64(n));
    v
}

/// The 36-byte cell key of an out-point.
fn out_point_key(p: &OutPoint) -> (r: Vec<u8>)
    ensures
        r@ == enc_out_point(*p),
{
    let mut v: Vec<u8> = Vec::new();
    p.write(&mut v);
    assert(v@ =~= enc_out_point(*p));
    v
}

/// The meta key of the tip row.
fn tip_key() -> (r: Vec<u8>)
    ensures
        r@ == tip_key_bytes(),
{
    let mut v: Vec<u8> = Vec::new();
    v.push(84u8);
    v.push(73u8);
    v.push(80u8);
    v.push(95u8);
    v.push(72u8);
    v.push(69u8);
    v.push(65u8);
    v.push(68u8);
    v.push(69u8);
    v.push(82u8);
    assert(v@ =~= tip_key_bytes());
    v
}

/// The meta key of the current-epoch row.
fn current_epoch_key() -> (r: Vec<u8>)
    ensures
        r@ == current_epoch_key_bytes(),
{
    let mut v: Vec<u8> = Vec::new();
    v.push(67u8);
    v.push(85u8);
    v.push(82u8);
    v.push(82u8);
    v.push(69u8);
    v.push(78u8);
    v.push(84u8);
    v.push(95u8);
    v.push(69u8);
    v.push(80u8);
    v.push(79u8);
    v.push(67u8);
    v.push(72u8);
    assert(v@ =~= current_epoch_key_bytes());
    v
}

/// Where a cell output sits, per the model: through the transaction
/// address into the block body.
pub open spec fn spec_cell_output(m: StoreModel, tx_hash: H256, index: u32) -> Option<
    crate::types::CellOutputV,
> {
    if m.tx_addrs.contains_key(tx_hash) {
        let a = m.tx_addrs[tx_hash];
        if m.bodies.contains_key(a.block_hash) {
            let txs = m.bodies[a.block_hash];
            if a.index < txs.len() && index < txs[a.index as int].outputs.len() {
                Option::Some(txs[a.index as int].outputs[index as int])
            } else {
                Option::None
            }
        } else {
            Option::None
        }
    } else {
        Option::None
    }
}

/// The chain store: byte columns, caches, and the typed model they
/// refine.
pub struct ChainKVStore {
    pub db: KeyValueStore,
    pub header_cache: HeaderLru,
    pub cell_output_cache: CellOutputLru,
    pub model: Ghost<StoreModel>,
}

impl View for ChainKVStore {
    type V = StoreModel;

    open spec fn view(&self) -> StoreModel {
        self.model@
    }
}

impl ChainKVStore {
    /// The store invariant: well-formed columns bound to a well-formed
    /// model, and caches that only hold what the model holds.
    pub open spec fn wf(&self) -> bool {
        &&& self.db.wf()
        &&& binds(self.db@, self.model@)
        &&& model_wf(self.model@)
        &&& self.header_cache.wf()
        &&& forall|i: int|
            0 <= i < self.header_cache@.len() ==> self.model@.headers.contains_key(
                (#[trigger] self.header_cache@[i]).0,
            ) && self.model@.headers[self.header_cache@[i].0] == self.header_cache@[i].1
        &&& self.cell_output_cache.wf()
        &&& forall|i: int|
            0 <= i < self.cell_output_cache@.len() ==> spec_cell_output(
                self.model@,
                (#[trigger] self.cell_output_cache@[i]).0.tx_hash,
                self.cell_output_cache@[i].0.index,
            ) == Option::Some(self.cell_output_cache@[i].1)
    }

    /// A fresh store with the stock cache sizes.
    pub fn new() -> (r: Self)
        ensures
            r.wf(),
            r@ == StoreModel::init(),
            r.header_cache@ == Seq::<(H256, Header)>::empty(),
            r.header_cache.cap() == 4096,
            r.cell_output_cache@ == Seq::<(OutPoint, crate::types::CellOutputV)>::empty(),
            r.cell_output_cache.cap() == 128,
    {
        Self::with_config(StoreConfig::default())
    }

    /// A fresh store with the given cache sizes, both caches empty.
    pub fn with_config(config: StoreConfig) -> (r: Self)
        ensures
            r.wf(),
            r@ == StoreModel::init(),
            r.header_cache@ == Seq::<(H256, Header)>::empty(),
            r.header_cache.cap() == config.header_cache_size,
            r.cell_output_cache@ == Seq::<(OutPoint, crate::types::CellOutputV)>::empty(),
            r.cell_output_cache.cap() == config.cell_output_cache_size,
    {
        let r = ChainKVStore {
            db: KeyValueStore::open(),
            header_cache: HeaderLru::new(config.header_cache_size),
            cell_output_cache: CellOutputLru::new(config.cell_output_cache_size),
            model: Ghost(StoreModel::init()),
        };
        proof {
            crate::model::lemma_key_shapes();
        }
        r
    }

    /// A new store instance over the same stored data: the caches start
    /// cold with the given sizes, the contents are unchanged.
    pub fn reopen(self, config: StoreConfig) -> (r: Self)
        requires
            self.wf(),
        ensures
            r.wf(),
            r@ == self@,
            r.header_cache@ == Seq::<(H256, Header)>::empty(),
            r.header_cache.cap() == config.header_cache_size,
            r.cell_output_cache@ == Seq::<(OutPoint, crate::types::CellOutputV)>::empty(),
            r.cell_output_cache.cap() == config.cell_output_cache_size,
    {
        ChainKVStore {
            db: self.db,
            header_cache: HeaderLru::new(config.header_cache_size),
            cell_output_cache: CellOutputLru::new(config.cell_output_cache_size),
            model: self.model,
        }
    }

    /// Raw read of one column row.
    pub fn get(&self, col: u32, key: &Vec<u8>) -> (r: Option<Vec<u8>>)
        requires
            self.wf(),
            col < COLUMNS,
        ensures
            match r {
                Option::Some(v) => self.db@[col as int].contains_key(key@) && v@ == self.db@[col as int][key@],
                Option::None => !self.db@[col as int].contains_key(key@),
            },
    {
        self.db.read(col, key)
    }

    /// Raw read of a byte range of one column row.
    pub fn partial_get(&self, col: u32, key: &Vec<u8>, from: usize, to: usize) -> (r: Option<
        Vec<u8>,
    >)
        requires
            self.wf(),
            col < COLUMNS,
        ensures
            match r {
                Option::Some(v) => self.db@[col as int].contains_key(key@) && from <= to
                    <= self.db@[col as int][key@].len() && v@ == self.db@[col as int][key@].subrange(
                    from as int,
                    to as int,
                ),
                Option::None => !self.db@[col as int].contains_key(key@) || !(from <= to
                    <= self.db@[col as int][key@].len()),
            },
    {
        self.db.partial_read(col, key, from, to)
    }

    /// Every row of one column, in storage order.
    pub fn traverse(&self, col: u32) -> (r: Vec<(Vec<u8>, Vec<u8>)>)
        requires
            self.wf(),
            col < COLUMNS,
        ensures
            forall|i: int, j: int| 0 <= i < j < r@.len() ==> (#[trigger] r@[i]).0@ != (
            #[trigger] r@[j]).0@,
            forall|i: int|
                0 <= i < r@.len() ==> self.db@[col as int].contains_key((#[trigger] r@[i]).0@)
                    && self.db@[col as int][r@[i].0@] == r@[i].1@,
            forall|k: Seq<u8>|
                self.db@[col as int].contains_key(k) ==> exists|i: int|
                    0 <= i < r@.len() && (#[trigger] r@[i]).0@ == k,
    {
        self.db.snapshot(col)
    }

    /// Get block ext by block header hash
    pub fn get_block_ext(&self, block_hash: &H256) -> (r: Option<BlockExt>)
        requires
            self.wf(),
        ensures
            match r {
                Option::Some(e) => self@.block_exts.contains_key(*block_hash) && e@
                    == self@.block_exts[*block_hash],
                Option::None => !self@.block_exts.contains_key(*block_hash),
            },
    {
        let key = h256_key(block_hash);
        match self.db.read(COLUMN_BLOCK_EXT, &key) {
            Option::Some(bytes) => {
                let ghost v = self@.block_exts[*block_hash];
                proof {
                    assert(bytes@.subrange(0, bytes@.len() as int) =~= bytes@);
                }
                let (e, _end) = BlockExt::parse(bytes.as_slice(), 0, Ghost(v));
                Option::Some(e)
            },
            Option::None => Option::None,
        }
    }

    /// Get the transaction address by transaction hash
    pub fn get_transaction_address(&self, hash: &H256) -> (r: Option<TransactionAddress>)
        requires
            self.wf(),
        ensures
            match r {
                Option::Some(a) => self@.tx_addrs.contains_key(*hash) && a
                    == self@.tx_addrs[*hash],
                Option::None => !self@.tx_addrs.contains_key(*hash),
            },
    {
        let key = h256_key(hash);
        match self.db.read(COLUMN_TRANSACTION_ADDR, &key) {
            Option::Some(bytes) => {
                let ghost v = self@.tx_addrs[*hash];
                proof {
                    assert(bytes@.subrange(0, bytes@.len() as int) =~= bytes@);
                }
                let (a, _end) = TransactionAddress::parse(bytes.as_slice(), 0, Ghost(v));
                Option::Some(a)
            },
            Option::None => Option::None,
        }
    }

    /// Get cell meta by the cell's out-point
    pub fn get_cell_meta(&self, tx_hash: &H256, index: u32) -> (r: Option<CellMeta>)
        requires
            self.wf(),
        ensures
            ({
                let p = OutPoint { tx_hash: *tx_hash, index };
                match r {
                    Option::Some(c) => self@.cell_metas.contains_key(p) && c
                        == self@.cell_metas[p],
                    Option::None => !self@.cell_metas.contains_key(p),
                }
            }),
    {
        let p = OutPoint { tx_hash: *tx_hash, index };
        let key = out_point_key(&p);
        match self.db.read(COLUMN_CELL_META, &key) {
            Option::Some(bytes) => {
                let ghost v = self@.cell_metas[p];
                proof {
                    assert(bytes@.subrange(0, bytes@.len() as int) =~= bytes@);
                }
                let (c, _end) = CellMeta::parse(bytes.as_slice(), 0, Ghost(v));
                Option::Some(c)
            },
            Option::None => Option::None,
        }
    }

    /// Get block header hash by block number
    pub fn get_block_hash(&self, number: u64) -> (r: Option<H256>)
        requires
            self.wf(),
        ensures
            match r {
                Option::Some(h) => self@.num_to_hash.contains_key(number) && h
                    == self@.num_to_hash[number],
                Option::None => !self@.num_to_hash.contains_key(number),
            },
    {
        let key = u64_key(number);
        match self.db.read(COLUMN_INDEX, &key) {
            Option::Some(bytes) => {
                let ghost v = self@.num_to_hash[number];
                proof {
                    assert(bytes@.subrange(0, bytes@.len() as int) =~= bytes@);
                }
                let (h, _end) = H256::parse(bytes.as_slice(), 0, Ghost(v));
                Option::Some(h)
            },
            Option::None => Option::None,
        }
    }

    /// Get block number by block header hash
    pub fn get_block_number(&self, hash: &H256) -> (r: Option<u64>)
        requires
            self.wf(),
        ensures
            match r {
                Option::Some(n) => self@.hash_to_num.contains_key(*hash) && n
                    == self@.hash_to_num[*hash],
                Option::None => !self@.hash_to_num.contains_key(*hash),
            },
    {
        let key = h256_key(hash);
        match self.db.read(COLUMN_INDEX, &key) {
            Option::Some(bytes) => {
                let ghost v = self@.hash_to_num[*hash];
                proof {
                    assert(bytes@.subrange(0, bytes@.len() as int) =~= bytes@);
                }
                let n = crate::codec::parse_u64(bytes.as_slice(), 0, Ghost(v));
                Option::Some(n)
            },
            Option::None => Option::None,
        }
    }

    /// Get epoch ext by the epoch's anchor hash
    pub fn get_epoch_ext(&self, hash: &H256) -> (r: Option<EpochExt>)
        requires
            self.wf(),
        ensures
            match r {
                Option::Some(e) => self@.epoch_exts.contains_key(*hash) && e
                    == self@.epoch_exts[*hash],
                Option::None => !self@.epoch_exts.contains_key(*hash),
            },
    {
        let key = h256_key(hash);
        match self.db.read(COLUMN_EPOCH, &key) {
            Option::Some(bytes) => {
                let ghost v = self@.epoch_exts[*hash];
                proof {
                    assert(bytes@.subrange(0, bytes@.len() as int) =~= bytes@);
                }
                let (e, _end) = EpochExt::parse(bytes.as_slice(), 0, Ghost(v));
                Option::Some(e)
            },
            Option::None => Option::None,
        }
    }

    /// Get epoch anchor hash by epoch number
    pub fn get_epoch_index(&self, number: u64) -> (r: Option<H256>)
        requires
            self.wf(),
        ensures
            match r {
                Option::Some(h) => self@.epoch_index.contains_key(number) && h
                    == self@.epoch_index[number],
                Option::None => !self@.epoch_index.contains_key(number),
            },
    {
        let key = u64_key(number);
        match self.db.read(COLUMN_EPOCH, &key) {
            Option::Some(bytes) => {
                let ghost v = self@.epoch_index[number];
                proof {
                    assert(bytes@.subrange(0, bytes@.len() as int) =~= bytes@);
                }
                let (h, _end) = H256::parse(bytes.as_slice(), 0, Ghost(v));
                Option::Some(h)
            },
            Option::None => Option::None,
        }
    }

    /// Get epoch anchor hash by block hash
    pub fn get_block_epoch_index(&self, block_hash: &H256) -> (r: Option<H256>)
        requires
            self.wf(),
        ensures
            match r {
                Option::Some(h) => self@.block_epochs.contains_key(*block_hash) && h
                    == self@.block_epochs[*block_hash],
                Option::None => !self@.block_epochs.contains_key(*block_hash),
            },
    {
        let key = h256_key(block_hash);
        match self.db.read(COLUMN_BLOCK_EPOCH, &key) {
            Option::Some(bytes) => {
                let ghost v = self@.block_epochs[*block_hash];
                proof {
                    assert(bytes@.subrange(0, bytes@.len() as int) =~= bytes@);
                }
                let (h, _end) = H256::parse(bytes.as_slice(), 0, Ghost(v));
                Option::Some(h)
            },
            Option::None => Option::None,
        }
    }

    /// Get the current epoch ext
    pub fn get_current_epoch_ext(&self) -> (r: Option<EpochExt>)
        requires
            self.wf(),
        ensures
            r == self@.current_epoch,
    {
        let key = current_epoch_key();
        match self.db.read(COLUMN_META, &key) {
            Option::Some(bytes) => {
                let ghost v = self@.current_epoch.unwrap();
                proof {
                    assert(bytes@.subrange(0, bytes@.len() as int) =~= bytes@);
                }
                let (e, _end) = EpochExt::parse(bytes.as_slice(), 0, Ghost(v));
                Option::Some(e)
            },
            Option::None => Option::None,
        }
    }

    /// Whether this hash has been embedded as an uncle of an attached
    /// block
    pub fn is_uncle(&self, hash: &H256) -> (r: bool)
        requires
            self.wf(),
        ensures
            r == self@.uncle_set.contains(*hash),
    {
        let key = h256_key(hash);
        self.db.read(COLUMN_UNCLES, &key).is_some()
    }

    /// Get header by block header hash, through the header cache
    pub fn get_block_header(&mut self, hash: &H256) -> (r: Option<Header>)
        requires
            old(self).wf(),
        ensures
            final(self).wf(),
            final(self)@ == old(self)@,
            match r {
                Option::Some(h) => old(self)@.headers.contains_key(*hash) && h
                    == old(self)@.headers[*hash],
                Option::None => !old(self)@.headers.contains_key(*hash),
            },
    {
        let ghost c0 = self.header_cache@;
        let cached = self.header_cache.get_refresh(hash);
        match cached {
            Option::Some(h) => {
                proof {
                    crate::cache::lemma_header_lru_find_member(c0, *hash);
                    let i = choose|i: int| 0 <= i < c0.len() && (#[trigger] c0[i]) == (*hash, h);
                    assert(old(self)@.headers.contains_key(*hash));
                    assert forall|i: int|
                        0 <= i < self.header_cache@.len() implies self.model@.headers.contains_key(
                        (#[trigger] self.header_cache@[i]).0,
                    ) && self.model@.headers[self.header_cache@[i].0]
                        == self.header_cache@[i].1 by {
                        let j = choose|j: int|
                            0 <= j < c0.len() && c0[j] == self.header_cache@[i];
                    }
                }
                Option::Some(h)
            },
            Option::None => {
                let key = h256_key(hash);
                match self.db.read(COLUMN_BLOCK_HEADER, &key) {
                    Option::Some(bytes) => {
                        let ghost v = self@.headers[*hash];
                        proof {
                            assert(bytes@.subrange(0, bytes@.len() as int) =~= bytes@);
                        }
                        let (h, _end) = Header::parse(bytes.as_slice(), 0, Ghost(v));
                        let ghost c1 = self.header_cache@;
                        self.header_cache.insert(*hash, h);
                        proof {
                            assert forall|i: int|
                                0 <= i
                                    < self.header_cache@.len() implies self.model@.headers.contains_key(
                                (#[trigger] self.header_cache@[i]).0,
                            ) && self.model@.headers[self.header_cache@[i].0]
                                == self.header_cache@[i].1 by {
                                if self.header_cache@[i] != (*hash, h) {
                                    let j = choose|j: int|
                                        0 <= j < c1.len() && c1[j] == self.header_cache@[i];
                                    let k = choose|k: int|
                                        0 <= k < c0.len() && c0[k] == c1[j];
                                }
                            }
                        }
                        Option::Some(h)
                    },
                    Option::None => Option::None,
                }
            },
        }
    }

    /// Get the tip (highest attached) header
    pub fn get_tip_header(&mut self) -> (r: Option<Header>)
        requires
            old(self).wf(),
        ensures
            final(self).wf(),
            final(self)@ == old(self)@,
            r == match old(self)@.tip {
                Option::Some(th) => if old(self)@.headers.contains_key(th) {
                    Option::Some(old(self)@.headers[th])
                } else {
                    Option::<Header>::None
                },
                Option::None => Option::<Header>::None,
            },
    {
        let key = tip_key();
        match self.db.read(COLUMN_META, &key) {
            Option::Some(bytes) => {
                let ghost th = self@.tip.unwrap();
                proof {
                    assert(bytes@.subrange(0, bytes@.len() as int) =~= bytes@);
                }
                let (h, _end) = H256::parse(bytes.as_slice(), 0, Ghost(th));
                self.get_block_header(&h)
            },
            Option::None => Option::None,
        }
    }

    /// Get block body (the transaction list) by block header hash
    pub fn get_block_body(&self, hash: &H256) -> (r: Option<Vec<Transaction>>)
        requires
            self.wf(),
        ensures
            match r {
                Option::Some(txs) => self@.bodies.contains_key(*hash) && views_of(txs@)
                    == self@.bodies[*hash],
                Option::None => !self@.bodies.contains_key(*hash),
            },
    {
        let key = h256_key(hash);
        match self.db.read(COLUMN_BLOCK_BODY, &key) {
            Option::Some(bytes) => {
                let ghost txs = self@.bodies[*hash];
                proof {
                    assert(bytes@.subrange(0, bytes@.len() as int) =~= bytes@);
                }
                let (v, _end) = parse_body(bytes.as_slice(), 0, Ghost(txs));
                Option::Some(v)
            },
            Option::None => Option::None,
        }
    }

    /// Get just the transaction hashes of a block body, without
    /// decoding the transactions themselves
    pub fn get_block_txs_hashes(&self, hash: &H256) -> (r: Option<Vec<H256>>)
        requires
            self.wf(),
        ensures
            match r {
                Option::Some(hs) => self@.bodies.contains_key(*hash) && hs@ == body_tx_hashes(
                    self@.bodies[*hash],
                ),
                Option::None => !self@.bodies.contains_key(*hash),
            },
    {
        let key = h256_key(hash);
        match self.db.read(COLUMN_BLOCK_BODY, &key) {
            Option::Some(bytes) => {
                let ghost txs = self@.bodies[*hash];
                proof {
                    assert(bytes@.subrange(0, bytes@.len() as int) =~= bytes@);
                    lemma_body_regions(bytes@, 0, txs);
                }
                let n = parse_u32(bytes.as_slice(), 0, Ghost(txs.len() as u32));
                let (hs, _end) = parse_items::<H256>(
                    bytes.as_slice(),
                    4,
                    n as usize,
                    Ghost(body_tx_hashes(txs)),
                );
                assert(hs@ =~= views_of(hs@));
                Option::Some(hs)
            },
            Option::None => Option::None,
        }
    }

    /// Get block uncles by block header hash
    pub fn get_block_uncles(&self, hash: &H256) -> (r: Option<Vec<UncleBlock>>)
        requires
            self.wf(),
        ensures
            match r {
                Option::Some(us) => self@.uncles.contains_key(*hash) && views_of(us@)
                    == self@.uncles[*hash],
                Option::None => !self@.uncles.contains_key(*hash),
            },
    {
        let key = h256_key(hash);
        match self.db.read(COLUMN_BLOCK_UNCLE, &key) {
            Option::Some(bytes) => {
                let ghost us = self@.uncles[*hash];
                proof {
                    assert(bytes@.subrange(0, bytes@.len() as int) =~= bytes@);
                }
                let (v, _end) = parse_list::<UncleBlock>(bytes.as_slice(), 0, Ghost(us));
                Option::Some(v)
            },
            Option::None => Option::None,
        }
    }

    /// Get proposal short ids by block header hash
    pub fn get_block_proposal_txs_ids(&self, hash: &H256) -> (r: Option<Vec<ProposalShortId>>)
        requires
            self.wf(),
        ensures
            match r {
                Option::Some(ps) => self@.proposals.contains_key(*hash) && ps@
                    == self@.proposals[*hash],
                Option::None => !self@.proposals.contains_key(*hash),
            },
    {
        let key = h256_key(hash);
        match self.db.read(COLUMN_BLOCK_PROPOSAL_IDS, &key) {
            Option::Some(bytes) => {
                let ghost ps = self@.proposals[*hash];
                proof {
                    assert(bytes@.subrange(0, bytes@.len() as int) =~= bytes@);
                }
                let (v, _end) = parse_list::<ProposalShortId>(bytes.as_slice(), 0, Ghost(ps));
                assert(v@ =~= views_of(v@));
                Option::Some(v)
            },
            Option::None => Option::None,
        }
    }

    /// Get a whole block by its header hash
    pub fn get_block(&mut self, hash: &H256) -> (r: Option<Block>)
        requires
            old(self).wf(),
        ensures
            final(self).wf(),
            final(self)@ == old(self)@,
            match r {
                Option::Some(b) => old(self)@.headers.contains_key(*hash) && b@.header == old(
                    self,
                )@.headers[*hash] && old(self)@.bodies.contains_key(*hash) && b@.transactions
                    == old(self)@.bodies[*hash] && old(self)@.uncles.contains_key(*hash)
                    && b@.uncles == old(self)@.uncles[*hash] && old(self)@.proposals.contains_key(
                    *hash,
                ) && b@.proposals == old(self)@.proposals[*hash],
                Option::None => !(old(self)@.headers.contains_key(*hash)
                    && old(self)@.bodies.contains_key(*hash) && old(self)@.uncles.contains_key(
                    *hash,
                ) && old(self)@.proposals.contains_key(*hash)),
            },
    {
        match self.get_block_header(hash) {
            Option::Some(header) => {
                match self.get_block_body(hash) {
                    Option::Some(transactions) => {
                        match self.get_block_uncles(hash) {
                            Option::Some(uncles) => {
                                match self.get_block_proposal_txs_ids(hash) {
                                    Option::Some(proposals) => Option::Some(
                                        Block { header, transactions, uncles, proposals },
                                    ),
                                    Option::None => Option::None,
                                }
                            },
                            Option::None => Option::None,
                        }
                    },
                    Option::None => Option::None,
                }
            },
            Option::None => Option::None,
        }
    }
}

/// Where a transaction sits, per the model: through its address into
/// the block body.
pub open spec fn spec_transaction(m: StoreModel, hash: H256) -> Option<(TransactionV, H256)> {
    if m.tx_addrs.contains_key(hash) {
        let a = m.tx_addrs[hash];
        if m.bodies.contains_key(a.block_hash) && a.index < m.bodies[a.block_hash].len() {
            Option::Some((m.bodies[a.block_hash][a.index as int], a.block_hash))
        } else {
            Option::None
        }
    } else {
        Option::None
    }
}

impl ChainKVStore {
    /// Get a committed transaction and the hash of the block holding it
    pub fn get_transaction(&self, hash: &H256) -> (r: Option<(Transaction, H256)>)
        requires
            self.wf(),
        ensures
            match r {
                Option::Some(p) => spec_transaction(self@, *hash) == Option::Some(
                    (p.0@, p.1),
                ),
                Option::None => spec_transaction(self@, *hash) is None,
            },
    {
        match self.get_transaction_address(hash) {
            Option::Some(addr) => {
                let key = h256_key(&addr.block_hash);
                match self.db.read(COLUMN_BLOCK_BODY, &key) {
                    Option::Some(bytes) => {
                        let ghost txs = self@.bodies[addr.block_hash];
                        proof {
                            assert(bytes@.subrange(0, bytes@.len() as int) =~= bytes@);
                            lemma_body_regions(bytes@, 0, txs);
                        }
                        let n = parse_u32(bytes.as_slice(), 0, Ghost(txs.len() as u32));
                        if addr.index < n {
                            let tx = body_transaction_at(
                                bytes.as_slice(),
                                addr.index as usize,
                                Ghost(txs),
                            );
                            Option::Some((tx, addr.block_hash))
                        } else {
                            Option::None
                        }
                    },
                    Option::None => Option::None,
                }
            },
            Option::None => Option::None,
        }
    }

    /// Get the cellbase (first) transaction of a block
    pub fn get_cellbase(&self, hash: &H256) -> (r: Option<Transaction>)
        requires
            self.wf(),
        ensures
            match r {
                Option::Some(tx) => self@.bodies.contains_key(*hash) && self@.bodies[*hash].len()
                    > 0 && tx@ == self@.bodies[*hash][0],
                Option::None => !self@.bodies.contains_key(*hash) || self@.bodies[*hash].len()
                    == 0,
            },
    {
        let key = h256_key(hash);
        match self.db.read(COLUMN_BLOCK_BODY, &key) {
            Option::Some(bytes) => {
                let ghost txs = self@.bodies[*hash];
                proof {
                    assert(bytes@.subrange(0, bytes@.len() as int) =~= bytes@);
                    lemma_body_regions(bytes@, 0, txs);
                }
                let n = parse_u32(bytes.as_slice(), 0, Ghost(txs.len() as u32));
                if n > 0 {
                    let tx = body_transaction_at(bytes.as_slice(), 0, Ghost(txs));
                    Option::Some(tx)
                } else {
                    Option::None
                }
            },
            Option::None => Option::None,
        }
    }

    /// Get a cell output, through the cell-output cache
    #[verifier::rlimit(100)]
    #[verifier::spinoff_prover]
    pub fn get_cell_output(&mut self, tx_hash: &H256, index: u32) -> (r: Option<CellOutput>)
        requires
            old(self).wf(),
        ensures
            final(self).wf(),
            final(self)@ == old(self)@,
            match r {
                Option::Some(c) => spec_cell_output(old(self)@, *tx_hash, index) == Option::Some(
                    c@,
                ),
                Option::None => spec_cell_output(old(self)@, *tx_hash, index) is None,
            },
    {
        let p = OutPoint { tx_hash: *tx_hash, index };
        let ghost c0 = self.cell_output_cache@;
        let cached = self.cell_output_cache.get_refresh(&p);
        match cached {
            Option::Some(c) => {
                proof {
                    crate::cache::lemma_output_lru_find_member(c0, p);
                    let i = choose|i: int| 0 <= i < c0.len() && (#[trigger] c0[i]) == (p, c@);
                    assert forall|i: int|
                        0 <= i < self.cell_output_cache@.len() implies spec_cell_output(
                        self.model@,
                        (#[trigger] self.cell_output_cache@[i]).0.tx_hash,
                        self.cell_output_cache@[i].0.index,
                    ) == Option::Some(self.cell_output_cache@[i].1) by {
                        let j = choose|j: int|
                            0 <= j < c0.len() && c0[j] == self.cell_output_cache@[i];
                    }
                }
                Option::Some(c)
            },
            Option::None => {
                match self.get_transaction_address(tx_hash) {
                    Option::Some(addr) => {
                        let key = h256_key(&addr.block_hash);
                        match self.db.read(COLUMN_BLOCK_BODY, &key) {
                            Option::Some(bytes) => {
                                let ghost txs = self@.bodies[addr.block_hash];
                                proof {
                                    assert(bytes@.subrange(0, bytes@.len() as int) =~= bytes@);
                                    lemma_body_regions(bytes@, 0, txs);
                                }
                                let n = parse_u32(bytes.as_slice(), 0, Ghost(txs.len() as u32));
                                if addr.index < n {
                                    let tx = body_transaction_at(
                                        bytes.as_slice(),
                                        addr.index as usize,
                                        Ghost(txs),
                                    );
                                    if (index as usize) < tx.outputs.len() {
                                        let out = clone_cell_output(&tx.outputs[index as usize]);
                                        let ghost c1 = self.cell_output_cache@;
                                        let out2 = clone_cell_output(&out);
                                        self.cell_output_cache.insert(p, out2);
                                        proof {
                                            assert(spec_cell_output(self.model@, *tx_hash, index)
                                                == Option::Some(out@));
                                            assert forall|i: int|
                                                0 <= i
                                                    < self.cell_output_cache@.len() implies spec_cell_output(
                                                self.model@,
                                                (#[trigger] self.cell_output_cache@[i]).0.tx_hash,
                                                self.cell_output_cache@[i].0.index,
                                            ) == Option::Some(self.cell_output_cache@[i].1) by {
                                                if self.cell_output_cache@[i] != (p, out2@) {
                                                    let j = choose|j: int|
                                                        0 <= j < c1.len() && c1[j]
                                                            == self.cell_output_cache@[i];
                                                }
                                            }
                                        }
                                        Option::Some(out)
                                    } else {
                                        Option::None
                                    }
                                } else {
                                    Option::None
                                }
                            },
                            Option::None => Option::None,
                        }
                    },
                    Option::None => Option::None,
                }
            },
        }
    }

    /// Every entry of the live cell set.
    pub fn traverse_cell_set(&self) -> (r: Vec<(H256, TransactionMeta)>)
        requires
            self.wf(),
        ensures
            forall|i: int|
                0 <= i < r@.len() ==> self@.cell_set.contains_key((#[trigger] r@[i]).0)
                    && r@[i].1@ == self@.cell_set[r@[i].0],
            forall|i: int, j: int| 0 <= i < j < r@.len() ==> (#[trigger] r@[i]).0 != (
            #[trigger] r@[j]).0,
            forall|h: H256|
                self@.cell_set.contains_key(h) ==> exists|i: int|
                    0 <= i < r@.len() && (#[trigger] r@[i]).0 == h,
    {
        let pairs = self.db.snapshot(COLUMN_CELL_SET);
        let mut r: Vec<(H256, TransactionMeta)> = Vec::new();
        let mut i: usize = 0;
        proof {
            crate::model::lemma_key_shapes();
        }
        while i < pairs.len()
            invariant
                self.wf(),
                i <= pairs@.len(),
                r@.len() == i,
                forall|x: int, y: int| 0 <= x < y < pairs@.len() ==> (#[trigger] pairs@[x]).0@ != (
                #[trigger] pairs@[y]).0@,
                forall|x: int|
                    0 <= x < pairs@.len() ==> self.db@[COLUMN_CELL_SET as int].contains_key(
                        (#[trigger] pairs@[x]).0@,
                    ) && self.db@[COLUMN_CELL_SET as int][pairs@[x].0@] == pairs@[x].1@,
                forall|x: int|
                    0 <= x < i ==> enc_h256((#[trigger] r@[x]).0) == pairs@[x].0@,
                forall|x: int|
                    0 <= x < i ==> self@.cell_set.contains_key((#[trigger] r@[x]).0) && r@[x].1@
                        == self@.cell_set[r@[x].0],
            decreases pairs@.len() - i,
        {
            proof {
                crate::model::lemma_key_shapes();
            }
            let ghost h = choose|h: H256| pairs@[i as int].0@ == enc_h256(h);
            assert(pairs@[i as int].0@ == enc_h256(h));
            let kb = &pairs[i].0;
            proof {
                assert(kb@.subrange(0, kb@.len() as int) =~= kb@);
            }
            let (hh, _e1) = H256::parse(kb.as_slice(), 0, Ghost(h));
            let vb = &pairs[i].1;
            let ghost tm = self@.cell_set[h];
            proof {
                assert(vb@.subrange(0, vb@.len() as int) =~= vb@);
            }
            let (meta, _e2) = TransactionMeta::parse(vb.as_slice(), 0, Ghost(tm));
            r.push((hh, meta));
            assert(forall|x: int|
                0 <= x < i + 1 ==> enc_h256((#[trigger] r@[x]).0) == pairs@[x].0@);
            i = i + 1;
        }
        proof {
            crate::model::lemma_key_shapes();
            assert forall|x: int, y: int| 0 <= x < y < r@.len() implies (#[trigger] r@[x]).0 != (
            #[trigger] r@[y]).0 by {
                assert(enc_h256(r@[x].0) == pairs@[x].0@);
                assert(enc_h256(r@[y].0) == pairs@[y].0@);
            }
            assert forall|h: H256| self@.cell_set.contains_key(h) implies exists|i: int|
                0 <= i < r@.len() && (#[trigger] r@[i]).0 == h by {
                assert(self.db@[COLUMN_CELL_SET as int].contains_key(enc_h256(h)));
                let x = choose|x: int|
                    0 <= x < pairs@.len() && (#[trigger] pairs@[x]).0@ == enc_h256(h);
                assert(enc_h256(r@[x].0) == enc_h256(h));
                assert(r@[x].0 == h);
            }
        }
        r
    }
}

/// The opening rate of the accumulated-deposit statistic.
pub const DEFAULT_ACCUMULATED_RATE: u64 = 10000000000000000;

/// The typed operations `insert_block` buffers: the four facets of the
/// block under its hash.
pub open spec fn insert_block_tops(b: BlockV) -> Seq<TypedOp> {
    seq![
        TypedOp::PutHeader(b.header.hash, b.header),
        TypedOp::PutUncles(b.header.hash, b.uncles),
        TypedOp::PutProposals(b.header.hash, b.proposals),
        TypedOp::PutBody(b.header.hash, b.transactions),
    ]
}

/// The cell meta `attach_block` records for output `j` of `t`.
pub open spec fn spec_tx_cell_meta(
    t: TransactionV,
    number: u64,
    epoch: u64,
    cellbase: bool,
    j: int,
) -> CellMeta {
    CellMeta {
        out_point: OutPoint { tx_hash: t.hash, index: j as u32 },
        block_info: crate::types::BlockInfo { number, epoch },
        cellbase,
        capacity: t.outputs[j].capacity,
        data_hash: t.outputs[j].data_hash,
    }
}

pub open spec fn cell_meta_tops_upto(
    t: TransactionV,
    number: u64,
    epoch: u64,
    cellbase: bool,
    j: int,
) -> Seq<TypedOp>
    decreases j,
{
    if j <= 0 {
        Seq::empty()
    } else {
        cell_meta_tops_upto(t, number, epoch, cellbase, j - 1) + seq![
            TypedOp::PutCellMeta(
                OutPoint { tx_hash: t.hash, index: (j - 1) as u32 },
                spec_tx_cell_meta(t, number, epoch, cellbase, j - 1),
            ),
        ]
    }
}

/// The address row plus one cell meta per output.
pub open spec fn tx_attach_tops(
    t: TransactionV,
    bh: H256,
    number: u64,
    epoch: u64,
    i: int,
) -> Seq<TypedOp> {
    seq![
        TypedOp::PutTxAddr(t.hash, TransactionAddress { block_hash: bh, index: i as u32 }),
    ] + cell_meta_tops_upto(t, number, epoch, i == 0, t.outputs.len() as int)
}

pub open spec fn attach_txs_upto(
    txs: Seq<TransactionV>,
    bh: H256,
    number: u64,
    epoch: u64,
    i: int,
) -> Seq<TypedOp>
    decreases i,
{
    if i <= 0 {
        Seq::empty()
    } else {
        attach_txs_upto(txs, bh, number, epoch, i - 1) + tx_attach_tops(
            txs[i - 1],
            bh,
            number,
            epoch,
            i - 1,
        )
    }
}

pub open spec fn uncle_marks_upto(us: Seq<UncleBlockV>, i: int) -> Seq<TypedOp>
    decreases i,
{
    if i <= 0 {
        Seq::empty()
    } else {
        uncle_marks_upto(us, i - 1) + seq![TypedOp::PutUncleMark(us[i - 1].header.hash)]
    }
}

/// The typed operations `attach_block` buffers.
pub open spec fn attach_tops(b: BlockV) -> Seq<TypedOp> {
    attach_txs_upto(
        b.transactions,
        b.header.hash,
        b.header.number,
        b.header.epoch,
        b.transactions.len() as int,
    ) + seq![TypedOp::PutNumToHash(b.header.number, b.header.hash)] + uncle_marks_upto(
        b.uncles,
        b.uncles.len() as int,
    ) + seq![TypedOp::PutHashToNum(b.header.hash, b.header.number)]
}

pub open spec fn del_cell_meta_tops_upto(t: TransactionV, j: int) -> Seq<TypedOp>
    decreases j,
{
    if j <= 0 {
        Seq::empty()
    } else {
        del_cell_meta_tops_upto(t, j - 1) + seq![
            TypedOp::DelCellMeta(OutPoint { tx_hash: t.hash, index: (j - 1) as u32 }),
        ]
    }
}

pub open spec fn tx_detach_tops(t: TransactionV) -> Seq<TypedOp> {
    seq![TypedOp::DelTxAddr(t.hash)] + del_cell_meta_tops_upto(t, t.outputs.len() as int)
}

pub open spec fn detach_txs_upto(txs: Seq<TransactionV>, i: int) -> Seq<TypedOp>
    decreases i,
{
    if i <= 0 {
        Seq::empty()
    } else {
        detach_txs_upto(txs, i - 1) + tx_detach_tops(txs[i - 1])
    }
}

pub open spec fn uncle_unmarks_upto(us: Seq<UncleBlockV>, i: int) -> Seq<TypedOp>
    decreases i,
{
    if i <= 0 {
        Seq::empty()
    } else {
        uncle_unmarks_upto(us, i - 1) + seq![TypedOp::DelUncleMark(us[i - 1].header.hash)]
    }
}

/// The typed operations `detach_block` buffers: the exact deletions of
/// what `attach_block` inserted.
pub open spec fn detach_tops(b: BlockV) -> Seq<TypedOp> {
    detach_txs_upto(b.transactions, b.transactions.len() as int) + uncle_unmarks_upto(
        b.uncles,
        b.uncles.len() as int,
    ) + seq![TypedOp::DelNumToHash(b.header.number)] + seq![
        TypedOp::DelHashToNum(b.header.hash),
    ]
}

/// A block the store can hold: every list fits its length prefix and
/// the body payload fits the offset table.
pub open spec fn storable_block(b: BlockV) -> bool {
    &&& wf_body(b.transactions)
    &&& crate::codec::wf_list::<UncleBlock>(b.uncles)
    &&& b.proposals.len() <= u32::MAX
}

/// A write batch: buffered byte operations, mirrored one-for-one by
/// typed operations. Nothing is visible until `commit`; a dropped batch
/// leaves no trace.
pub struct DefaultStoreBatch {
    pub ops: Vec<KvOp>,
    pub tops: Ghost<Seq<TypedOp>>,
}

impl View for DefaultStoreBatch {
    type V = Seq<TypedOp>;

    open spec fn view(&self) -> Seq<TypedOp> {
        self.tops@
    }
}

impl DefaultStoreBatch {
    /// Each buffered byte operation is exactly its typed counterpart.
    pub open spec fn wf(&self) -> bool {
        &&& views_of(self.ops@) == self.tops@.map_values(|t: TypedOp| top_to_kvop(t))
        &&& tops_wf(self.tops@)
    }

    pub fn new() -> (r: Self)
        ensures
            r.wf(),
            r@ == Seq::<TypedOp>::empty(),
    {
        let r = DefaultStoreBatch { ops: Vec::new(), tops: Ghost(Seq::empty()) };
        assert(views_of(r.ops@) =~= r.tops@.map_values(|t: TypedOp| top_to_kvop(t)));
        r
    }

    /// Buffer one operation.
    fn push_op(&mut self, op: KvOp, top: Ghost<TypedOp>)
        requires
            old(self).wf(),
            op@ == top_to_kvop(top@),
            crate::model::top_wf(top@),
        ensures
            final(self).wf(),
            final(self)@ == old(self)@ + seq![top@],
    {
        let ghost oldops = views_of(self.ops@);
        let ghost oldmap = self.tops@.map_values(|t: TypedOp| top_to_kvop(t));
        self.ops.push(op);
        proof {
            self.tops@ = self.tops@.push(top@);
            assert(views_of(self.ops@) =~= oldops.push(op@));
            assert(self.tops@.map_values(|t: TypedOp| top_to_kvop(t)) =~= oldmap.push(
                top_to_kvop(top@),
            ));
            assert(views_of(self.ops@) == self.tops@.map_values(|t: TypedOp| top_to_kvop(t)));
            assert(self.tops@ =~= old(self).tops@ + seq![top@]);
        }
    }

    /// Buffer the four facets of a block under its hash. No index or
    /// ownership changes.
    #[verifier::rlimit(100)]
    #[verifier::spinoff_prover]
    pub fn insert_block(&mut self, block: &Block) -> (r: Result<(), Error>)
        requires
            old(self).wf(),
            storable_block(block@),
        ensures
            final(self).wf(),
            final(self)@ == old(self)@ + insert_block_tops(block@),
            r is Ok,
    {
        let hash = block.header.hash;
        let key = h256_key(&hash);

        let mut header_bytes: Vec<u8> = Vec::new();
        block.header.write(&mut header_bytes);
        assert(header_bytes@ =~= enc_header(block@.header));
        self.push_op(
            KvOp::Insert { col: COLUMN_BLOCK_HEADER, key: bytes_clone(&key), value: header_bytes },
            Ghost(TypedOp::PutHeader(block@.header.hash, block@.header)),
        );

        let mut uncle_bytes: Vec<u8> = Vec::new();
        crate::codec::write_list::<UncleBlock>(&block.uncles, &mut uncle_bytes);
        assert(uncle_bytes@ =~= enc_list::<UncleBlock>(block@.uncles));
        self.push_op(
            KvOp::Insert { col: COLUMN_BLOCK_UNCLE, key: bytes_clone(&key), value: uncle_bytes },
            Ghost(TypedOp::PutUncles(block@.header.hash, block@.uncles)),
        );

        let mut prop_bytes: Vec<u8> = Vec::new();
        assert(views_of(block.proposals@) =~= block@.proposals);
        crate::codec::write_list::<ProposalShortId>(&block.proposals, &mut prop_bytes);
        assert(prop_bytes@ =~= enc_list::<ProposalShortId>(block@.proposals));
        self.push_op(
            KvOp::Insert {
                col: COLUMN_BLOCK_PROPOSAL_IDS,
                key: bytes_clone(&key),
                value: prop_bytes,
            },
            Ghost(TypedOp::PutProposals(block@.header.hash, block@.proposals)),
        );

        let mut body_bytes: Vec<u8> = Vec::new();
        crate::body::write_body(&block.transactions, &mut body_bytes);
        assert(body_bytes@ =~= enc_body(block@.transactions));
        self.push_op(
            KvOp::Insert { col: COLUMN_BLOCK_BODY, key, value: body_bytes },
            Ghost(TypedOp::PutBody(block@.header.hash, block@.transactions)),
        );
        proof {
            assert(self.tops@ =~= old(self).tops@ + insert_block_tops(block@));
        }
        Result::Ok(())
    }

    /// Buffer a block extension row.
    pub fn insert_block_ext(&mut self, block_hash: &H256, ext: &BlockExt) -> (r: Result<
        (),
        Error,
    >)
        requires
            old(self).wf(),
            crate::types::wf_block_ext(ext@),
        ensures
            final(self).wf(),
            final(self)@ == old(self)@ + seq![TypedOp::PutBlockExt(*block_hash, ext@)],
            r is Ok,
    {
        let key = h256_key(block_hash);
        let mut value: Vec<u8> = Vec::new();
        ext.write(&mut value);
        assert(value@ =~= crate::types::enc_block_ext(ext@));
        self.push_op(
            KvOp::Insert { col: COLUMN_BLOCK_EXT, key, value },
            Ghost(TypedOp::PutBlockExt(*block_hash, ext@)),
        );
        Result::Ok(())
    }

    /// Buffer the tip row: the hash of the new highest attached block.
    pub fn insert_tip_header(&mut self, h: &Header) -> (r: Result<(), Error>)
        requires
            old(self).wf(),
        ensures
            final(self).wf(),
            final(self)@ == old(self)@ + seq![TypedOp::PutTip(h.hash)],
            r is Ok,
    {
        let key = tip_key();
        let value = h256_key(&h.hash);
        self.push_op(
            KvOp::Insert { col: COLUMN_META, key, value },
            Ghost(TypedOp::PutTip(h@.hash)),
        );
        Result::Ok(())
    }

    /// Buffer the current-epoch row.
    pub fn insert_current_epoch_ext(&mut self, epoch: &EpochExt) -> (r: Result<(), Error>)
        requires
            old(self).wf(),
        ensures
            final(self).wf(),
            final(self)@ == old(self)@ + seq![TypedOp::PutCurrentEpoch(*epoch)],
            r is Ok,
    {
        let key = current_epoch_key();
        let mut value: Vec<u8> = Vec::new();
        epoch.write(&mut value);
        assert(value@ =~= crate::types::enc_epoch_ext(*epoch));
        self.push_op(
            KvOp::Insert { col: COLUMN_META, key, value },
            Ghost(TypedOp::PutCurrentEpoch(*epoch)),
        );
        Result::Ok(())
    }

    /// Buffer the block-to-epoch-anchor row.
    pub fn insert_block_epoch_index(&mut self, block_hash: &H256, epoch_hash: &H256) -> (r: Result<
        (),
        Error,
    >)
        requires
            old(self).wf(),
        ensures
            final(self).wf(),
            final(self)@ == old(self)@ + seq![TypedOp::PutBlockEpoch(*block_hash, *epoch_hash)],
            r is Ok,
    {
        let key = h256_key(block_hash);
        let value = h256_key(epoch_hash);
        self.push_op(
            KvOp::Insert { col: COLUMN_BLOCK_EPOCH, key, value },
            Ghost(TypedOp::PutBlockEpoch(*block_hash, *epoch_hash)),
        );
        Result::Ok(())
    }

    /// Buffer an epoch extension under its anchor, and the reverse
    /// number-to-anchor row.
    pub fn insert_epoch_ext(&mut self, hash: &H256, epoch: &EpochExt) -> (r: Result<(), Error>)
        requires
            old(self).wf(),
        ensures
            final(self).wf(),
            final(self)@ == old(self)@ + seq![
                TypedOp::PutEpochExt(*hash, *epoch),
                TypedOp::PutEpochIndex(epoch.number, *hash),
            ],
            r is Ok,
    {
        let key = h256_key(hash);
        let mut value: Vec<u8> = Vec::new();
        epoch.write(&mut value);
        assert(value@ =~= crate::types::enc_epoch_ext(*epoch));
        self.push_op(
            KvOp::Insert { col: COLUMN_EPOCH, key, value },
            Ghost(TypedOp::PutEpochExt(*hash, *epoch)),
        );
        let nkey = u64_key(epoch.number);
        let nvalue = h256_key(hash);
        self.push_op(
            KvOp::Insert { col: COLUMN_EPOCH, key: nkey, value: nvalue },
            Ghost(TypedOp::PutEpochIndex(epoch@.number, *hash)),
        );
        proof {
            assert(self.tops@ =~= old(self).tops@ + seq![
                TypedOp::PutEpochExt(*hash, *epoch),
                TypedOp::PutEpochIndex(epoch.number, *hash),
            ]);
        }
        Result::Ok(())
    }

    /// Buffer the live-cell-set row of one transaction.
    pub fn update_cell_set(&mut self, tx_hash: &H256, meta: &TransactionMeta) -> (r: Result<
        (),
        Error,
    >)
        requires
            old(self).wf(),
            crate::types::wf_tx_meta(meta@),
        ensures
            final(self).wf(),
            final(self)@ == old(self)@ + seq![TypedOp::PutCellSet(*tx_hash, meta@)],
            r is Ok,
    {
        let key = h256_key(tx_hash);
        let mut value: Vec<u8> = Vec::new();
        meta.write(&mut value);
        assert(value@ =~= crate::types::enc_tx_meta(meta@));
        self.push_op(
            KvOp::Insert { col: COLUMN_CELL_SET, key, value },
            Ghost(TypedOp::PutCellSet(*tx_hash, meta@)),
        );
        Result::Ok(())
    }

    /// Buffer the deletion of a live-cell-set row.
    pub fn delete_cell_set(&mut self, tx_hash: &H256) -> (r: Result<(), Error>)
        requires
            old(self).wf(),
        ensures
            final(self).wf(),
            final(self)@ == old(self)@ + seq![TypedOp::DelCellSet(*tx_hash)],
            r is Ok,
    {
        let key = h256_key(tx_hash);
        self.push_op(
            KvOp::Delete { col: COLUMN_CELL_SET, key },
            Ghost(TypedOp::DelCellSet(*tx_hash)),
        );
        Result::Ok(())
    }

    #[verifier::rlimit(100)]
    #[verifier::spinoff_prover]
    /// Buffer the attachment rows of a block: one address per
    /// transaction, one cell meta per output, both index directions,
    /// and the uncle marks.
    pub fn attach_block(&mut self, block: &Block) -> (r: Result<(), Error>)
        requires
            old(self).wf(),
            storable_block(block@),
        ensures
            final(self).wf(),
            final(self)@ == old(self)@ + attach_tops(block@),
            r is Ok,
    {
        let ghost txs = block@.transactions;
        let ghost bh = block@.header.hash;
        let ghost number = block@.header.number;
        let ghost epoch = block@.header.epoch;
        let ghost base = self.tops@;
        let hash = block.header.hash;
        let mut i: usize = 0;
        assert(self.tops@ =~= base + attach_txs_upto(txs, bh, number, epoch, 0));
        while i < block.transactions.len()
            invariant
                self.wf(),
                txs == block@.transactions,
                bh == block@.header.hash,
                number == block@.header.number,
                epoch == block@.header.epoch,
                hash == bh,
                storable_block(block@),
                i <= block.transactions@.len(),
                self.tops@ == base + attach_txs_upto(txs, bh, number, epoch, i as int),
            decreases block.transactions@.len() - i,
        {
            let ghost t = txs[i as int];
            assert(t == block.transactions@[i as int]@);
            let tx_hash = block.transactions[i].hash;
            let addr = TransactionAddress { block_hash: hash, index: i as u32 };
            let mut addr_bytes: Vec<u8> = Vec::new();
            addr.write(&mut addr_bytes);
            assert(addr_bytes@ =~= crate::types::enc_tx_address(addr));
            self.push_op(
                KvOp::Insert {
                    col: COLUMN_TRANSACTION_ADDR,
                    key: h256_key(&tx_hash),
                    value: addr_bytes,
                },
                Ghost(TypedOp::PutTxAddr(t.hash, addr)),
            );
            let cellbase = i == 0;
            let ghost inner_base = self.tops@;
            let mut j: usize = 0;
            assert(self.tops@ =~= inner_base + cell_meta_tops_upto(t, number, epoch, cellbase, 0));
            while j < block.transactions[i].outputs.len()
                invariant
                    self.wf(),
                    t == block.transactions@[i as int]@,
                    i < block.transactions@.len(),
                    cellbase == (i == 0),
                    hash == bh,
                    number == block@.header.number,
                    epoch == block@.header.epoch,
                    storable_block(block@),
                    txs == block@.transactions,
                    j <= t.outputs.len(),
                    self.tops@ == inner_base + cell_meta_tops_upto(
                        t,
                        number,
                        epoch,
                        cellbase,
                        j as int,
                    ),
                decreases t.outputs.len() - j,
            {
                let out_point = OutPoint { tx_hash: block.transactions[i].hash, index: j as u32 };
                let output = &block.transactions[i].outputs[j];
                let cell_meta = CellMeta {
                    out_point,
                    block_info: crate::types::BlockInfo {
                        number: block.header.number,
                        epoch: block.header.epoch,
                    },
                    cellbase,
                    capacity: output.capacity,
                    data_hash: output.data_hash,
                };
                assert(t.outputs == views_of(block.transactions@[i as int].outputs@));
                assert(views_of(block.transactions@[i as int].outputs@)[j as int]
                    == block.transactions@[i as int].outputs@[j as int]@);
                assert(cell_meta == spec_tx_cell_meta(t, number, epoch, cellbase, j as int));
                let mut meta_bytes: Vec<u8> = Vec::new();
                cell_meta.write(&mut meta_bytes);
                assert(meta_bytes@ =~= crate::types::enc_cell_meta(cell_meta));
                self.push_op(
                    KvOp::Insert {
                        col: COLUMN_CELL_META,
                        key: out_point_key(&out_point),
                        value: meta_bytes,
                    },
                    Ghost(TypedOp::PutCellMeta(out_point, cell_meta)),
                );
                proof {
                    assert(self.tops@ =~= inner_base + cell_meta_tops_upto(
                        t,
                        number,
                        epoch,
                        cellbase,
                        j + 1,
                    ));
                }
                j = j + 1;
            }
            proof {
                assert(self.tops@ =~= base + attach_txs_upto(txs, bh, number, epoch, i as int)
                    + tx_attach_tops(t, bh, number, epoch, i as int));
                assert(self.tops@ =~= base + attach_txs_upto(txs, bh, number, epoch, i + 1));
            }
            i = i + 1;
        }
        let ghost mid1 = self.tops@;
        self.push_op(
            KvOp::Insert {
                col: COLUMN_INDEX,
                key: u64_key(block.header.number),
                value: h256_key(&hash),
            },
            Ghost(TypedOp::PutNumToHash(number, bh)),
        );
        let ghost mid2 = self.tops@;
        let ghost us = block@.uncles;
        let mut k: usize = 0;
        assert(self.tops@ =~= mid2 + uncle_marks_upto(us, 0));
        while k < block.uncles.len()
            invariant
                self.wf(),
                us == block@.uncles,
                k <= block.uncles@.len(),
                self.tops@ == mid2 + uncle_marks_upto(us, k as int),
            decreases block.uncles@.len() - k,
        {
            let uh = block.uncles[k].header.hash;
            assert(uh == us[k as int].header.hash);
            let empty_value: Vec<u8> = Vec::new();
            assert(empty_value@ =~= Seq::<u8>::empty());
            self.push_op(
                KvOp::Insert { col: COLUMN_UNCLES, key: h256_key(&uh), value: empty_value },
                Ghost(TypedOp::PutUncleMark(uh)),
            );
            proof {
                assert(self.tops@ =~= mid2 + uncle_marks_upto(us, k + 1));
            }
            k = k + 1;
        }
        self.push_op(
            KvOp::Insert {
                col: COLUMN_INDEX,
                key: h256_key(&hash),
                value: u64_key(block.header.number),
            },
            Ghost(TypedOp::PutHashToNum(bh, number)),
        );
        proof {
            assert(self.tops@ =~= base + attach_tops(block@));
        }
        Result::Ok(())
    }

    /// Buffer the symmetric deletions of `attach_block`.
    pub fn detach_block(&mut self, block: &Block) -> (r: Result<(), Error>)
        requires
            old(self).wf(),
            storable_block(block@),
        ensures
            final(self).wf(),
            final(self)@ == old(self)@ + detach_tops(block@),
            r is Ok,
    {
        let ghost txs = block@.transactions;
        let ghost base = self.tops@;
        let mut i: usize = 0;
        assert(self.tops@ =~= base + detach_txs_upto(txs, 0));
        while i < block.transactions.len()
            invariant
                self.wf(),
                txs == block@.transactions,
                storable_block(block@),
                i <= block.transactions@.len(),
                self.tops@ == base + detach_txs_upto(txs, i as int),
            decreases block.transactions@.len() - i,
        {
            let ghost t = txs[i as int];
            assert(t == block.transactions@[i as int]@);
            let tx_hash = block.transactions[i].hash;
            self.push_op(
                KvOp::Delete { col: COLUMN_TRANSACTION_ADDR, key: h256_key(&tx_hash) },
                Ghost(TypedOp::DelTxAddr(t.hash)),
            );
            let ghost inner_base = self.tops@;
            let mut j: usize = 0;
            assert(self.tops@ =~= inner_base + del_cell_meta_tops_upto(t, 0));
            while j < block.transactions[i].outputs.len()
                invariant
                    self.wf(),
                    t == block.transactions@[i as int]@,
                    i < block.transactions@.len(),
                    txs == block@.transactions,
                    storable_block(block@),
                    j <= t.outputs.len(),
                    self.tops@ == inner_base + del_cell_meta_tops_upto(t, j as int),
                decreases t.outputs.len() - j,
            {
                let out_point = OutPoint { tx_hash: block.transactions[i].hash, index: j as u32 };
                self.push_op(
                    KvOp::Delete { col: COLUMN_CELL_META, key: out_point_key(&out_point) },
                    Ghost(TypedOp::DelCellMeta(out_point)),
                );
                proof {
                    assert(self.tops@ =~= inner_base + del_cell_meta_tops_upto(t, j + 1));
                }
                j = j + 1;
            }
            proof {
                assert(self.tops@ =~= base + detach_txs_upto(txs, i as int) + tx_detach_tops(t));
                assert(self.tops@ =~= base + detach_txs_upto(txs, i + 1));
            }
            i = i + 1;
        }
        let ghost mid1 = self.tops@;
        let ghost us = block@.uncles;
        let mut k: usize = 0;
        assert(self.tops@ =~= mid1 + uncle_unmarks_upto(us, 0));
        while k < block.uncles.len()
            invariant
                self.wf(),
                us == block@.uncles,
                k <= block.uncles@.len(),
                self.tops@ == mid1 + uncle_unmarks_upto(us, k as int),
            decreases block.uncles@.len() - k,
        {
            let uh = block.uncles[k].header.hash;
            assert(uh == us[k as int].header.hash);
            self.push_op(
                KvOp::Delete { col: COLUMN_UNCLES, key: h256_key(&uh) },
                Ghost(TypedOp::DelUncleMark(uh)),
            );
            proof {
                assert(self.tops@ =~= mid1 + uncle_unmarks_upto(us, k + 1));
            }
            k = k + 1;
        }
        self.push_op(
            KvOp::Delete { col: COLUMN_INDEX, key: u64_key(block.header.number) },
            Ghost(TypedOp::DelNumToHash(block@.header.number)),
        );
        self.push_op(
            KvOp::Delete { col: COLUMN_INDEX, key: h256_key(&block.header.hash) },
            Ghost(TypedOp::DelHashToNum(block@.header.hash)),
        );
        proof {
            assert(self.tops@ =~= base + detach_tops(block@));
        }
        Result::Ok(())
    }

    /// Atomically apply everything buffered. Readers of the store see
    /// either none of this batch or all of it; the caches are flushed
    /// so no stale value survives the commit.
    #[verifier::rlimit(100)]
    #[verifier::spinoff_prover]
    pub fn commit(self, store: &mut ChainKVStore) -> (r: Result<(), Error>)
        requires
            old(store).wf(),
            self.wf(),
        ensures
            r is Ok,
            final(store).wf(),
            final(store)@ == apply_tops(old(store)@, self@),
    {
        proof {
            assert forall|i: int|
                0 <= i < views_of(self.ops@).len() implies crate::kv::op_col(
                #[trigger] views_of(self.ops@)[i],
            ) < COLUMNS by {
                assert(views_of(self.ops@)[i] == top_to_kvop(self.tops@[i]));
            }
            crate::model::lemma_binds_apply(store.db@, store.model@, self.tops@);
        }
        store.db.apply(&self.ops);
        store.header_cache.clear();
        store.cell_output_cache.clear();
        proof {
            store.model@ = apply_tops(old(store).model@, self.tops@);
        }
        Result::Ok(())
    }
}

impl ChainKVStore {
    /// A fresh, empty batch.
    pub fn new_batch(&self) -> (r: Result<DefaultStoreBatch, Error>)
        ensures
            match r {
                Result::Ok(b) => b.wf() && b@ == Seq::<TypedOp>::empty(),
                Result::Err(_) => false,
            },
    {
        Result::Ok(DefaultStoreBatch::new())
    }
}

/// The capacities of `outs[1..i]` summed; output zero is reserved.
pub open spec fn cap_sum_upto(outs: Seq<crate::types::CellOutputV>, i: int) -> int
    decreases i,
{
    if i <= 1 {
        0
    } else {
        cap_sum_upto(outs, i - 1) + outs[i - 1].capacity
    }
}

pub proof fn lemma_cap_sum_upto_mono(outs: Seq<crate::types::CellOutputV>, k: int, n: int)
    requires
        0 <= k <= n <= outs.len(),
    ensures
        cap_sum_upto(outs, k) <= cap_sum_upto(outs, n),
    decreases n - k,
{
    if k < n {
        lemma_cap_sum_upto_mono(outs, k, n - 1);
    }
}

/// The accumulated capacity seeded at genesis: the non-reserved outputs
/// of the first transaction.
pub open spec fn genesis_capacity(b: BlockV) -> int {
    if b.transactions.len() > 0 {
        cap_sum_upto(b.transactions[0].outputs, b.transactions[0].outputs.len() as int)
    } else {
        0
    }
}

/// The block extension the initializer writes for the genesis block.
pub open spec fn genesis_ext(b: BlockV) -> BlockExtV {
    BlockExtV {
        received_at: b.header.timestamp,
        total_difficulty: b.header.difficulty,
        total_uncles_count: 0,
        verified: Option::Some(true),
        txs_fees: Seq::empty(),
        dao_stats: crate::types::DaoStats {
            accumulated_rate: DEFAULT_ACCUMULATED_RATE,
            accumulated_capacity: genesis_capacity(b) as u64,
        },
    }
}

/// The live-cell-set entry the initializer writes for one genesis
/// transaction: every output live.
pub open spec fn genesis_tx_meta(t: TransactionV, number: u64, epoch: u64)
    -> crate::types::TransactionMetaV {
    crate::types::TransactionMetaV {
        block_number: number,
        epoch,
        cellbase: t.inputs.len() == 0,
        bits: Seq::new(t.outputs.len(), |j: int| true),
    }
}

pub open spec fn cell_set_tops_upto(
    txs: Seq<TransactionV>,
    number: u64,
    epoch: u64,
    i: int,
) -> Seq<TypedOp>
    decreases i,
{
    if i <= 0 {
        Seq::empty()
    } else {
        cell_set_tops_upto(txs, number, epoch, i - 1) + seq![
            TypedOp::PutCellSet(txs[i - 1].hash, genesis_tx_meta(txs[i - 1], number, epoch)),
        ]
    }
}

/// Everything the initializer commits, in order.
pub open spec fn init_tops(g: BlockV, e: EpochExt) -> Seq<TypedOp> {
    cell_set_tops_upto(g.transactions, g.header.number, g.header.epoch, g.transactions.len() as int)
        + insert_block_tops(g) + seq![TypedOp::PutBlockExt(g.header.hash, genesis_ext(g))] + seq![
        TypedOp::PutTip(g.header.hash),
    ] + seq![TypedOp::PutCurrentEpoch(e)] + seq![
        TypedOp::PutBlockEpoch(g.header.hash, e.last_block_hash_in_previous_epoch),
    ] + seq![
        TypedOp::PutEpochExt(e.last_block_hash_in_previous_epoch, e),
        TypedOp::PutEpochIndex(e.number, e.last_block_hash_in_previous_epoch),
    ] + attach_tops(g)
}

impl ChainKVStore {
    /// Seed a store from the consensus descriptor: the genesis block,
    /// its extension, tip, epoch rows, the live cell set of every
    /// genesis transaction, and the attachment rows — one atomic batch.
    /// Overflow of the genesis capacity sum is fatal and leaves the
    /// store untouched.
    #[verifier::rlimit(100)]
    #[verifier::spinoff_prover]
    pub fn init(&mut self, consensus: &Consensus) -> (r: Result<(), Error>)
        requires
            old(self).wf(),
            storable_block(consensus.genesis@),
        ensures
            final(self).wf(),
            r is Ok <==> genesis_capacity(consensus.genesis@) <= u64::MAX,
            r is Ok ==> final(self)@ == apply_tops(
                old(self)@,
                init_tops(consensus.genesis@, consensus.epoch),
            ),
            r is Err ==> *final(self) == *old(self),
    {
        let genesis = consensus.genesis_block();
        let epoch = consensus.genesis_epoch_ext();
        let genesis_hash = genesis.header.hash;
        let ghost gv = genesis@;

        // the capacity the chain starts with: outputs 1.. of the first
        // transaction, output 0 being reserved
        let mut acc: u64 = 0;
        if genesis.transactions.len() > 0 {
            let ghost outs = gv.transactions[0].outputs;
            let nouts = genesis.transactions[0].outputs.len();
            let mut k: usize = 1;
            assert(acc == cap_sum_upto(outs, 1)) by {
                assert(cap_sum_upto(outs, 1) == 0);
            }
            while k < nouts
                invariant
                    1 <= k <= nouts || (nouts == 0 && k == 1),
                    nouts == outs.len(),
                    gv == genesis@,
                    gv == consensus.genesis@,
                    outs == gv.transactions[0].outputs,
                    gv.transactions.len() > 0,
                    acc == cap_sum_upto(outs, k as int),
                    *self == *old(self),
                    old(self).wf(),
                decreases nouts - k,
            {
                assert(outs[k as int] == genesis.transactions@[0].outputs@[k as int]@);
                let cap = genesis.transactions[0].outputs[k].capacity;
                match acc.checked_add(cap) {
                    Option::Some(next) => {
                        acc = next;
                    },
                    Option::None => {
                        proof {
                            lemma_cap_sum_upto_mono(outs, k + 1, outs.len() as int);
                        }
                        return Result::Err(Error::Overflow);
                    },
                }
                k = k + 1;
            }
            assert(genesis_capacity(gv) == cap_sum_upto(outs, outs.len() as int));
        }
        assert(acc == genesis_capacity(gv));

        let ext = BlockExt {
            received_at: genesis.header.timestamp,
            total_difficulty: genesis.header.difficulty,
            total_uncles_count: 0,
            verified: Option::Some(true),
            txs_fees: Vec::new(),
            dao_stats: crate::types::DaoStats {
                accumulated_rate: DEFAULT_ACCUMULATED_RATE,
                accumulated_capacity: acc,
            },
        };
        assert(ext@.txs_fees =~= Seq::<u64>::empty());
        assert(ext@ == genesis_ext(gv));

        let mut batch = DefaultStoreBatch::new();
        let ghost number = gv.header.number;
        let ghost ep = gv.header.epoch;
        let ghost txs = gv.transactions;
        let mut i: usize = 0;
        assert(batch@ =~= cell_set_tops_upto(txs, number, ep, 0));
        while i < genesis.transactions.len()
            invariant
                batch.wf(),
                gv == genesis@,
                txs == gv.transactions,
                number == gv.header.number,
                ep == gv.header.epoch,
                storable_block(gv),
                i <= genesis.transactions@.len(),
                batch@ == cell_set_tops_upto(txs, number, ep, i as int),
            decreases genesis.transactions@.len() - i,
        {
            let ghost t = txs[i as int];
            assert(t == genesis.transactions@[i as int]@);
            assert(crate::types::wf_transaction(t));
            let tx = &genesis.transactions[i];
            let meta = if tx.is_cellbase() {
                TransactionMeta::new_cellbase(
                    genesis.header.number,
                    genesis.header.epoch,
                    tx.outputs.len(),
                    false,
                )
            } else {
                TransactionMeta::new(
                    genesis.header.number,
                    genesis.header.epoch,
                    tx.outputs.len(),
                    false,
                )
            };
            proof {
                assert(meta@.bits =~= Seq::new(t.outputs.len(), |j: int| true));
                assert(meta@ == genesis_tx_meta(t, number, ep));
            }
            match batch.update_cell_set(&tx.hash, &meta) {
                Result::Ok(()) => {},
                Result::Err(e) => {
                    return Result::Err(e);
                },
            }
            proof {
                assert(batch@ =~= cell_set_tops_upto(txs, number, ep, i + 1));
            }
            i = i + 1;
        }
        match batch.insert_block(genesis) {
            Result::Ok(()) => {},
            Result::Err(e) => {
                return Result::Err(e);
            },
        }
        match batch.insert_block_ext(&genesis_hash, &ext) {
            Result::Ok(()) => {},
            Result::Err(e) => {
                return Result::Err(e);
            },
        }
        match batch.insert_tip_header(&genesis.header) {
            Result::Ok(()) => {},
            Result::Err(e) => {
                return Result::Err(e);
            },
        }
        match batch.insert_current_epoch_ext(epoch) {
            Result::Ok(()) => {},
            Result::Err(e) => {
                return Result::Err(e);
            },
        }
        match batch.insert_block_epoch_index(
            &genesis_hash,
            &epoch.last_block_hash_in_previous_epoch,
        ) {
            Result::Ok(()) => {},
            Result::Err(e) => {
                return Result::Err(e);
            },
        }
        match batch.insert_epoch_ext(&epoch.last_block_hash_in_previous_epoch, epoch) {
            Result::Ok(()) => {},
            Result::Err(e) => {
                return Result::Err(e);
            },
        }
        match batch.attach_block(genesis) {
            Result::Ok(()) => {},
            Result::Err(e) => {
                return Result::Err(e);
            },
        }
        proof {
            assert(batch@ =~= init_tops(gv, *epoch));
        }
        batch.commit(self)
    }
}

} // verus!
