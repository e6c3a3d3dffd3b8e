//! End-to-end tests of the chain store.

use ckb_store::cache::HeaderLru;
use ckb_store::peer::{PeerScoreConfig, ReportResult, Status};
use ckb_store::store::{ChainKVStore, Consensus, StoreConfig};
use ckb_store::types::{
    Block, BlockExt, CellOutput, DaoStats, H256, Header, OutPoint, Transaction, TransactionMeta,
    UncleBlock,
};

fn h(n: u64) -> H256 {
    H256 { x0: n, x1: n + 1, x2: n + 2, x3: n + 3 }
}

fn header(number: u64, hash: H256) -> Header {
    Header {
        parent_hash: h(900),
        number,
        timestamp: 42,
        epoch: 0,
        difficulty: 1,
        transactions_root: h(901),
        proposals_hash: h(902),
        uncles_hash: h(903),
        dao: h(904),
        nonce: 7,
        hash,
    }
}

fn tx(hash: H256, outputs: Vec<CellOutput>) -> Transaction {
    Transaction {
        version: 0,
        deps: vec![],
        inputs: vec![],
        outputs,
        outputs_data: vec![],
        witnesses: vec![],
        hash,
    }
}

fn out(capacity: u64) -> CellOutput {
    CellOutput { capacity, lock: vec![1, 2, 3], type_script: None, data_hash: h(905) }
}

fn default_consensus() -> Consensus {
    let gh = h(1);
    Consensus {
        genesis: Block {
            header: header(0, gh),
            transactions: vec![tx(h(10), vec![])],
            uncles: vec![],
            proposals: vec![],
        },
        epoch: ckb_store::types::EpochExt {
            number: 0,
            block_reward: 5,
            remainder_reward: 0,
            last_block_hash_in_previous_epoch: h(800),
            start_number: 0,
            length: 100,
            difficulty: 1,
        },
    }
}

#[test]
fn save_and_get_block() {
    let mut store = ChainKVStore::new();
    let consensus = default_consensus();
    let block = consensus.genesis_block().clone();
    let hash = block.header.hash;
    let mut batch = store.new_batch().unwrap();
    batch.insert_block(&block).unwrap();
    batch.commit(&mut store).unwrap();
    assert_eq!(block, store.get_block(&hash).unwrap());
}

#[test]
fn save_and_get_block_with_transactions() {
    let mut store = ChainKVStore::new();
    let block = Block {
        header: header(1, h(2)),
        transactions: vec![tx(h(20), vec![]), tx(h(21), vec![]), tx(h(22), vec![])],
        uncles: vec![],
        proposals: vec![],
    };
    let hash = block.header.hash;
    let mut batch = store.new_batch().unwrap();
    batch.insert_block(&block).unwrap();
    batch.commit(&mut store).unwrap();
    assert_eq!(block, store.get_block(&hash).unwrap());
}

#[test]
fn save_and_get_block_ext() {
    let mut store = ChainKVStore::new();
    let consensus = default_consensus();
    let block = consensus.genesis_block();
    let ext = BlockExt {
        received_at: block.header.timestamp,
        total_difficulty: block.header.difficulty,
        total_uncles_count: block.uncles.len() as u64,
        verified: Some(true),
        txs_fees: vec![],
        dao_stats: DaoStats { accumulated_rate: 10000000000000000, accumulated_capacity: 0 },
    };
    let hash = block.header.hash;
    let mut batch = store.new_batch().unwrap();
    batch.insert_block_ext(&hash, &ext).unwrap();
    batch.commit(&mut store).unwrap();
    assert_eq!(ext, store.get_block_ext(&hash).unwrap());
}

#[test]
fn index_store() {
    let mut store = ChainKVStore::new();
    let consensus = default_consensus();
    let block = consensus.genesis_block().clone();
    let hash = block.header.hash;
    store.init(&consensus).unwrap();
    assert_eq!(hash, store.get_block_hash(0).unwrap());
    assert_eq!(
        block.header.difficulty,
        store.get_block_ext(&hash).unwrap().total_difficulty
    );
    assert_eq!(block.header.number, store.get_block_number(&hash).unwrap());
    assert_eq!(block.header, store.get_tip_header().unwrap());
}

#[test]
fn attach_detach_symmetry() {
    let mut store = ChainKVStore::new();
    let block = Block {
        header: header(3, h(3)),
        transactions: vec![tx(h(30), vec![out(100), out(200)])],
        uncles: vec![],
        proposals: vec![],
    };
    let mut batch = store.new_batch().unwrap();
    batch.insert_block(&block).unwrap();
    batch.attach_block(&block).unwrap();
    batch.commit(&mut store).unwrap();
    assert_eq!(store.get_block_hash(3).unwrap(), h(3));
    assert_eq!(store.get_block_number(&h(3)).unwrap(), 3);
    let (t, bh) = store.get_transaction(&h(30)).unwrap();
    assert_eq!(t.hash, h(30));
    assert_eq!(bh, h(3));
    assert!(store.get_cell_meta(&h(30), 0).is_some());
    assert_eq!(store.get_cell_output(&h(30), 1).unwrap().capacity, 200);
    let mut batch = store.new_batch().unwrap();
    batch.detach_block(&block).unwrap();
    batch.commit(&mut store).unwrap();
    assert!(store.get_block_hash(3).is_none());
    assert!(store.get_block_number(&h(3)).is_none());
    assert!(store.get_transaction(&h(30)).is_none());
    assert!(store.get_cell_meta(&h(30), 0).is_none());
    assert!(store.get_cell_output(&h(30), 1).is_none());
}

#[test]
fn cell_set_spend() {
    let mut store = ChainKVStore::new();
    let block = Block {
        header: header(4, h(4)),
        transactions: vec![tx(h(40), vec![out(1), out(2)])],
        uncles: vec![],
        proposals: vec![],
    };
    let mut batch = store.new_batch().unwrap();
    batch.insert_block(&block).unwrap();
    batch.attach_block(&block).unwrap();
    batch
        .update_cell_set(&h(40), &TransactionMeta::new(4, 0, 2, false))
        .unwrap();
    batch.commit(&mut store).unwrap();
    let mut meta = TransactionMeta::new(4, 0, 2, false);
    meta.bits[1] = false;
    let mut batch = store.new_batch().unwrap();
    batch.update_cell_set(&h(40), &meta).unwrap();
    batch.commit(&mut store).unwrap();
    let entries = store.traverse_cell_set();
    assert_eq!(entries.len(), 1);
    assert_eq!(entries[0].0, h(40));
    assert_eq!(entries[0].1.bits, vec![true, false]);
    let mut batch = store.new_batch().unwrap();
    batch.delete_cell_set(&h(40)).unwrap();
    batch.commit(&mut store).unwrap();
    assert!(store.traverse_cell_set().is_empty());
}

#[test]
fn uncle_marker() {
    let mut store = ChainKVStore::new();
    let uncle = UncleBlock { header: header(9, h(90)), proposals: vec![] };
    let block = Block {
        header: header(5, h(5)),
        transactions: vec![],
        uncles: vec![uncle],
        proposals: vec![],
    };
    let mut batch = store.new_batch().unwrap();
    batch.insert_block(&block).unwrap();
    batch.attach_block(&block).unwrap();
    batch.commit(&mut store).unwrap();
    assert!(store.is_uncle(&h(90)));
    let mut batch = store.new_batch().unwrap();
    batch.detach_block(&block).unwrap();
    batch.commit(&mut store).unwrap();
    assert!(!store.is_uncle(&h(90)));
}

#[test]
fn uncommitted_batch_is_invisible() {
    let mut store = ChainKVStore::new();
    let block = Block {
        header: header(6, h(6)),
        transactions: vec![],
        uncles: vec![],
        proposals: vec![],
    };
    let mut batch = store.new_batch().unwrap();
    batch.insert_block(&block).unwrap();
    drop(batch);
    assert!(store.get_block_header(&h(6)).is_none());
    assert!(store.get_block(&h(6)).is_none());
}

#[test]
fn absent_number_returns_none() {
    let store = ChainKVStore::new();
    assert!(store.get_block_hash(12345).is_none());
}

#[test]
fn reopen_reads_previous_writes() {
    let mut store = ChainKVStore::new();
    let block = Block {
        header: header(7, h(7)),
        transactions: vec![],
        uncles: vec![],
        proposals: vec![],
    };
    let mut batch = store.new_batch().unwrap();
    batch.insert_block(&block).unwrap();
    batch.commit(&mut store).unwrap();
    let mut store2 = store.reopen(StoreConfig::default());
    assert_eq!(store2.get_block_header(&h(7)).unwrap(), block.header);
}

#[test]
fn lru_evicts_least_recently_used() {
    let mut cache = HeaderLru::new(2);
    cache.insert(h(1), header(1, h(1)));
    cache.insert(h(2), header(2, h(2)));
    // refresh h(1), then a third insert must evict h(2)
    assert!(cache.get_refresh(&h(1)).is_some());
    cache.insert(h(3), header(3, h(3)));
    assert!(cache.get_refresh(&h(2)).is_none());
    assert!(cache.get_refresh(&h(1)).is_some());
    assert!(cache.get_refresh(&h(3)).is_some());
}

#[test]
fn zero_capacity_cache_stores_nothing() {
    let mut cache = HeaderLru::new(0);
    cache.insert(h(1), header(1, h(1)));
    assert!(cache.get_refresh(&h(1)).is_none());
}

#[test]
fn epoch_rows_round_trip() {
    let mut store = ChainKVStore::new();
    let consensus = default_consensus();
    store.init(&consensus).unwrap();
    let anchor = h(800);
    assert_eq!(store.get_epoch_ext(&anchor).unwrap(), consensus.epoch);
    assert_eq!(store.get_epoch_index(0).unwrap(), anchor);
    assert_eq!(store.get_current_epoch_ext().unwrap(), consensus.epoch);
    assert_eq!(
        store.get_block_epoch_index(&h(1)).unwrap(),
        anchor
    );
}

#[test]
fn genesis_overflow_is_fatal() {
    let mut store = ChainKVStore::new();
    let mut consensus = default_consensus();
    consensus.genesis.transactions = vec![tx(
        h(10),
        vec![out(1), out(u64::MAX), out(u64::MAX)],
    )];
    let r = store.init(&consensus);
    assert_eq!(r, Err(ckb_store::store::Error::Overflow));
    assert!(store.get_block_hash(0).is_none());
}

#[test]
fn body_partial_reads() {
    let mut store = ChainKVStore::new();
    let t0 = tx(h(50), vec![out(5)]);
    let t1 = tx(h(51), vec![out(6), out(7)]);
    let block = Block {
        header: header(8, h(8)),
        transactions: vec![t0.clone(), t1.clone()],
        uncles: vec![],
        proposals: vec![],
    };
    let mut batch = store.new_batch().unwrap();
    batch.insert_block(&block).unwrap();
    batch.attach_block(&block).unwrap();
    batch.commit(&mut store).unwrap();
    assert_eq!(store.get_block_txs_hashes(&h(8)).unwrap(), vec![h(50), h(51)]);
    assert_eq!(store.get_cellbase(&h(8)).unwrap(), t0);
    let (got, bh) = store.get_transaction(&h(51)).unwrap();
    assert_eq!(got, t1);
    assert_eq!(bh, h(8));
    assert_eq!(store.get_cell_output(&h(51), 1).unwrap().capacity, 7);
    // a cached re-read answers the same
    assert_eq!(store.get_cell_output(&h(51), 1).unwrap().capacity, 7);
    assert_eq!(
        store.get_transaction_address(&h(51)).unwrap().index,
        1
    );
    assert_eq!(
        store.get_cell_meta(&h(51), 0).unwrap().capacity,
        6
    );
    assert_eq!(
        store.get_cell_meta(&h(51), 0).unwrap().out_point,
        OutPoint { tx_hash: h(51), index: 0 }
    );
}

#[test]
fn peer_report_results() {
    assert!(ReportResult::Banned.is_banned());
    assert!(ReportResult::Accepted.is_ok());
    assert!(!ReportResult::Accepted.is_banned());
    let c = PeerScoreConfig::default();
    assert_eq!(c.default_score, 100);
    assert_eq!(c.ban_score, 40);
    assert_eq!(c.ban_timeout_ms, 24 * 3600 * 1000);
    assert_ne!(Status::Connected, Status::Disconnected);
}
