//! Chain entities and their byte encodings.
//!
//! Entities made only of fixed-width numbers derive `Structural`, so
//! spec-level equality is field-wise and they can stand directly in
//! contracts. Entities holding variable-length data have a ghost view
//! struct over `Seq`.

use vstd::prelude::*;
use vstd::bytes::*;
use vstd::slice::slice_index_get;
use crate::codec::{
    Codec,
    enc_bool,
    enc_bytes,
    enc_list,
    lemma_starts_at_concat,
    parse_list,
    starts_at,
    views_of,
    wf_bytes,
    wf_list,
    write_list,
};

verus! {

/// Short alias for the two-byte little-endian encoding.
pub open spec fn e16(x: u16) -> Seq<u8> {
    spec_u16_to_le_bytes(x)
}

/// Short alias for the four-byte little-endian encoding.
pub open spec fn e32(x: u32) -> Seq<u8> {
    spec_u32_to_le_bytes(x)
}

/// Short alias for the eight-byte little-endian encoding.
pub open spec fn e64(x: u64) -> Seq<u8> {
    spec_u64_to_le_bytes(x)
}

/// Short alias for the sixteen-byte little-endian encoding.
pub open spec fn e128(x: u128) -> Seq<u8> {
    spec_u128_to_le_bytes(x)
}

/// A 256-bit hash, kept as four 64-bit limbs in little-endian order.
#[derive(Clone, Copy, Debug, PartialEq, Eq, Structural, Hash)]
pub struct H256 {
    pub x0: u64,
    pub x1: u64,
    pub x2: u64,
    pub x3: u64,
}

impl View for H256 {
    type V = H256;

    open spec fn view(&self) -> H256 {
        *self
    }
}

/// The 32-byte raw encoding of a hash, also its key form in the store.
pub open spec fn enc_h256(v: H256) -> Seq<u8> {
    e64(v.x0) + (e64(v.x1) + (e64(v.x2) + e64(v.x3)))
}

pub proof fn lemma_enc_h256_len()
    ensures
        forall|v: H256| (#[trigger] enc_h256(v)).len() == 32,
{
    lemma_auto_spec_u64_to_from_le_bytes();
}

/// Distinct hashes have distinct encodings, so hash keys never collide.
pub proof fn lemma_enc_h256_injective(a: H256, b: H256)
    requires
        enc_h256(a) == enc_h256(b),
    ensures
        a == b,
{
    lemma_auto_spec_u64_to_from_le_bytes();
    assert(enc_h256(a).subrange(0, 8) =~= e64(a.x0));
    assert(enc_h256(b).subrange(0, 8) =~= e64(b.x0));
    assert(enc_h256(a).subrange(8, 16) =~= e64(a.x1));
    assert(enc_h256(b).subrange(8, 16) =~= e64(b.x1));
    assert(enc_h256(a).subrange(16, 24) =~= e64(a.x2));
    assert(enc_h256(b).subrange(16, 24) =~= e64(b.x2));
    assert(enc_h256(a).subrange(24, 32) =~= e64(a.x3));
    assert(enc_h256(b).subrange(24, 32) =~= e64(b.x3));
    assert(spec_u64_from_le_bytes(e64(a.x0)) == spec_u64_from_le_bytes(e64(b.x0)));
    assert(spec_u64_from_le_bytes(e64(a.x1)) == spec_u64_from_le_bytes(e64(b.x1)));
    assert(spec_u64_from_le_bytes(e64(a.x2)) == spec_u64_from_le_bytes(e64(b.x2)));
    assert(spec_u64_from_le_bytes(e64(a.x3)) == spec_u64_from_le_bytes(e64(b.x3)));
}

impl Codec for H256 {
    open spec fn wf(v: H256) -> bool {
        true
    }

    open spec fn enc(v: H256) -> Seq<u8> {
        enc_h256(v)
    }

    fn write(&self, out: &mut Vec<u8>) {
        self.x0.write(out);
        self.x1.write(out);
        self.x2.write(out);
        self.x3.write(out);
        assert(self@ == *self);
        assert(out@ =~= old(out)@ + Self::enc(self@));
    }

    fn parse(bytes: &[u8], pos: usize, v: Ghost<H256>) -> (r: (Self, usize)) {
        proof {
            lemma_starts_at_concat(
                bytes@,
                pos as int,
                e64(v@.x0),
                e64(v@.x1) + (e64(v@.x2) + e64(v@.x3)),
            );
            lemma_starts_at_concat(
                bytes@,
                pos + e64(v@.x0).len(),
                e64(v@.x1),
                e64(v@.x2) + e64(v@.x3),
            );
            lemma_starts_at_concat(
                bytes@,
                pos + e64(v@.x0).len() + e64(v@.x1).len(),
                e64(v@.x2),
                e64(v@.x3),
            );
        }
        let (x0, p0) = u64::parse(bytes, pos, Ghost(v@.x0));
        let (x1, p1) = u64::parse(bytes, p0, Ghost(v@.x1));
        let (x2, p2) = u64::parse(bytes, p1, Ghost(v@.x2));
        let (x3, p3) = u64::parse(bytes, p2, Ghost(v@.x3));
        (H256 { x0, x1, x2, x3 }, p3)
    }
}

/// A reference to a transaction output: transaction hash plus output index.
#[derive(Clone, Copy, Debug, PartialEq, Eq, Structural)]
pub struct OutPoint {
    pub tx_hash: H256,
    pub index: u32,
}

impl View for OutPoint {
    type V = OutPoint;

    open spec fn view(&self) -> OutPoint {
        *self
    }
}

/// The canonical 36-byte cell key: `tx_hash ‖ index_le_u32`.
pub open spec fn enc_out_point(v: OutPoint) -> Seq<u8> {
    enc_h256(v.tx_hash) + e32(v.index)
}

pub proof fn lemma_enc_out_point_len()
    ensures
        forall|v: OutPoint| (#[trigger] enc_out_point(v)).len() == 36,
{
    lemma_enc_h256_len();
    lemma_auto_spec_u32_to_from_le_bytes();
}

/// Distinct out-points have distinct cell keys.
pub proof fn lemma_enc_out_point_injective(a: OutPoint, b: OutPoint)
    requires
        enc_out_point(a) == enc_out_point(b),
    ensures
        a == b,
{
    lemma_enc_h256_len();
    lemma_auto_spec_u32_to_from_le_bytes();
    assert(enc_out_point(a).subrange(0, 32) =~= enc_h256(a.tx_hash));
    assert(enc_out_point(b).subrange(0, 32) =~= enc_h256(b.tx_hash));
    assert(enc_out_point(a).subrange(32, 36) =~= e32(a.index));
    assert(enc_out_point(b).subrange(32, 36) =~= e32(b.index));
    lemma_enc_h256_injective(a.tx_hash, b.tx_hash);
    assert(spec_u32_from_le_bytes(e32(a.index)) == spec_u32_from_le_bytes(e32(b.index)));
}

impl Codec for OutPoint {
    open spec fn wf(v: OutPoint) -> bool {
        true
    }

    open spec fn enc(v: OutPoint) -> Seq<u8> {
        enc_out_point(v)
    }

    fn write(&self, out: &mut Vec<u8>) {
        self.tx_hash.write(out);
        self.index.write(out);
        assert(self@ == *self);
        assert(out@ =~= old(out)@ + Self::enc(self@));
    }

    fn parse(bytes: &[u8], pos: usize, v: Ghost<OutPoint>) -> (r: (Self, usize)) {
        proof {
            lemma_starts_at_concat(bytes@, pos as int, enc_h256(v@.tx_hash), e32(v@.index));
        }
        let (tx_hash, p0) = H256::parse(bytes, pos, Ghost(v@.tx_hash));
        let (index, p1) = u32::parse(bytes, p0, Ghost(v@.index));
        (OutPoint { tx_hash, index }, p1)
    }
}

/// A ten-byte short identifier of a proposed transaction.
#[derive(Clone, Copy, Debug, PartialEq, Eq, Structural)]
pub struct ProposalShortId {
    pub head: u64,
    pub tail: u16,
}

impl View for ProposalShortId {
    type V = ProposalShortId;

    open spec fn view(&self) -> ProposalShortId {
        *self
    }
}

pub open spec fn enc_proposal_id(v: ProposalShortId) -> Seq<u8> {
    e64(v.head) + e16(v.tail)
}

impl Codec for ProposalShortId {
    open spec fn wf(v: ProposalShortId) -> bool {
        true
    }

    open spec fn enc(v: ProposalShortId) -> Seq<u8> {
        enc_proposal_id(v)
    }

    fn write(&self, out: &mut Vec<u8>) {
        self.head.write(out);
        self.tail.write(out);
        assert(self@ == *self);
        assert(out@ =~= old(out)@ + Self::enc(self@));
    }

    fn parse(bytes: &[u8], pos: usize, v: Ghost<ProposalShortId>) -> (r: (Self, usize)) {
        proof {
            lemma_starts_at_concat(bytes@, pos as int, e64(v@.head), e16(v@.tail));
        }
        let (head, p0) = u64::parse(bytes, pos, Ghost(v@.head));
        let (tail, p1) = u16::parse(bytes, p0, Ghost(v@.tail));
        (ProposalShortId { head, tail }, p1)
    }
}

/// The chain position a cell was created at.
#[derive(Clone, Copy, Debug, PartialEq, Eq, Structural)]
pub struct BlockInfo {
    pub number: u64,
    pub epoch: u64,
}

/// Accumulated deposit statistics carried in a block extension.
#[derive(Clone, Copy, Debug, PartialEq, Eq, Structural)]
pub struct DaoStats {
    pub accumulated_rate: u64,
    pub accumulated_capacity: u64,
}

/// Where a committed transaction physically lives.
#[derive(Clone, Copy, Debug, PartialEq, Eq, Structural)]
pub struct TransactionAddress {
    /// Hash of the block that holds the transaction
    pub block_hash: H256,
    /// Offset of the transaction in the block's body
    pub index: u32,
}

impl View for TransactionAddress {
    type V = TransactionAddress;

    open spec fn view(&self) -> TransactionAddress {
        *self
    }
}

pub open spec fn enc_tx_address(v: TransactionAddress) -> Seq<u8> {
    enc_h256(v.block_hash) + e32(v.index)
}

impl Codec for TransactionAddress {
    open spec fn wf(v: TransactionAddress) -> bool {
        true
    }

    open spec fn enc(v: TransactionAddress) -> Seq<u8> {
        enc_tx_address(v)
    }

    fn write(&self, out: &mut Vec<u8>) {
        self.block_hash.write(out);
        self.index.write(out);
        assert(self@ == *self);
        assert(out@ =~= old(out)@ + Self::enc(self@));
    }

    fn parse(bytes: &[u8], pos: usize, v: Ghost<TransactionAddress>) -> (r: (Self, usize)) {
        proof {
            lemma_starts_at_concat(bytes@, pos as int, enc_h256(v@.block_hash), e32(v@.index));
        }
        let (block_hash, p0) = H256::parse(bytes, pos, Ghost(v@.block_hash));
        let (index, p1) = u32::parse(bytes, p0, Ghost(v@.index));
        (TransactionAddress { block_hash, index }, p1)
    }
}

/// Metadata of one live cell, stored under its 36-byte cell key.
#[derive(Clone, Copy, Debug, PartialEq, Eq, Structural)]
pub struct CellMeta {
    pub out_point: OutPoint,
    pub block_info: BlockInfo,
    pub cellbase: bool,
    pub capacity: u64,
    pub data_hash: H256,
}

impl View for CellMeta {
    type V = CellMeta;

    open spec fn view(&self) -> CellMeta {
        *self
    }
}

/// The sequential, length-prefixed record family: fields in order.
pub open spec fn enc_cell_meta(v: CellMeta) -> Seq<u8> {
    enc_out_point(v.out_point) + (e64(v.block_info.number) + (e64(v.block_info.epoch) + (enc_bool(
        v.cellbase,
    ) + (e64(v.capacity) + enc_h256(v.data_hash)))))
}

impl Codec for CellMeta {
    open spec fn wf(v: CellMeta) -> bool {
        true
    }

    open spec fn enc(v: CellMeta) -> Seq<u8> {
        enc_cell_meta(v)
    }

    fn write(&self, out: &mut Vec<u8>) {
        self.out_point.write(out);
        self.block_info.number.write(out);
        self.block_info.epoch.write(out);
        self.cellbase.write(out);
        self.capacity.write(out);
        self.data_hash.write(out);
        assert(self@ == *self);
        assert(out@ =~= old(out)@ + Self::enc(self@));
    }

    fn parse(bytes: &[u8], pos: usize, v: Ghost<CellMeta>) -> (r: (Self, usize)) {
        proof {
            lemma_starts_at_concat(
                bytes@,
                pos as int,
                enc_out_point(v@.out_point),
                e64(v@.block_info.number) + (e64(v@.block_info.epoch) + (enc_bool(v@.cellbase) + (
                e64(v@.capacity) + enc_h256(v@.data_hash)))),
            );
            lemma_starts_at_concat(
                bytes@,
                pos + enc_out_point(v@.out_point).len(),
                e64(v@.block_info.number),
                e64(v@.block_info.epoch) + (enc_bool(v@.cellbase) + (e64(v@.capacity) + enc_h256(
                    v@.data_hash,
                ))),
            );
            lemma_starts_at_concat(
                bytes@,
                pos + enc_out_point(v@.out_point).len() + e64(v@.block_info.number).len(),
                e64(v@.block_info.epoch),
                enc_bool(v@.cellbase) + (e64(v@.capacity) + enc_h256(v@.data_hash)),
            );
            lemma_starts_at_concat(
                bytes@,
                pos + enc_out_point(v@.out_point).len() + e64(v@.block_info.number).len() + e64(
                    v@.block_info.epoch,
                ).len(),
                enc_bool(v@.cellbase),
                e64(v@.capacity) + enc_h256(v@.data_hash),
            );
            lemma_starts_at_concat(
                bytes@,
                pos + enc_out_point(v@.out_point).len() + e64(v@.block_info.number).len() + e64(
                    v@.block_info.epoch,
                ).len() + enc_bool(v@.cellbase).len(),
                e64(v@.capacity),
                enc_h256(v@.data_hash),
            );
        }
        let (out_point, p0) = OutPoint::parse(bytes, pos, Ghost(v@.out_point));
        let (number, p1) = u64::parse(bytes, p0, Ghost(v@.block_info.number));
        let (epoch, p2) = u64::parse(bytes, p1, Ghost(v@.block_info.epoch));
        let (cellbase, p3) = bool::parse(bytes, p2, Ghost(v@.cellbase));
        let (capacity, p4) = u64::parse(bytes, p3, Ghost(v@.capacity));
        let (data_hash, p5) = H256::parse(bytes, p4, Ghost(v@.data_hash));
        (
            CellMeta {
                out_point,
                block_info: BlockInfo { number, epoch },
                cellbase,
                capacity,
                data_hash,
            },
            p5,
        )
    }
}

/// Per-epoch reward and difficulty snapshot.
#[derive(Clone, Copy, Debug, PartialEq, Eq, Structural)]
pub struct EpochExt {
    pub number: u64,
    pub block_reward: u64,
    pub remainder_reward: u64,
    pub last_block_hash_in_previous_epoch: H256,
    pub start_number: u64,
    pub length: u64,
    pub difficulty: u128,
}

impl View for EpochExt {
    type V = EpochExt;

    open spec fn view(&self) -> EpochExt {
        *self
    }
}

pub open spec fn enc_epoch_ext(v: EpochExt) -> Seq<u8> {
    e64(v.number) + (e64(v.block_reward) + (e64(v.remainder_reward) + (enc_h256(
        v.last_block_hash_in_previous_epoch,
    ) + (e64(v.start_number) + (e64(v.length) + e128(v.difficulty))))))
}

impl Codec for EpochExt {
    open spec fn wf(v: EpochExt) -> bool {
        true
    }

    open spec fn enc(v: EpochExt) -> Seq<u8> {
        enc_epoch_ext(v)
    }

    fn write(&self, out: &mut Vec<u8>) {
        self.number.write(out);
        self.block_reward.write(out);
        self.remainder_reward.write(out);
        self.last_block_hash_in_previous_epoch.write(out);
        self.start_number.write(out);
        self.length.write(out);
        self.difficulty.write(out);
        assert(self@ == *self);
        assert(out@ =~= old(out)@ + Self::enc(self@));
    }

    fn parse(bytes: &[u8], pos: usize, v: Ghost<EpochExt>) -> (r: (Self, usize)) {
        proof {
            lemma_starts_at_concat(
                bytes@,
                pos as int,
                e64(v@.number),
                e64(v@.block_reward) + (e64(v@.remainder_reward) + (enc_h256(
                    v@.last_block_hash_in_previous_epoch,
                ) + (e64(v@.start_number) + (e64(v@.length) + e128(v@.difficulty))))),
            );
            lemma_starts_at_concat(
                bytes@,
                pos + e64(v@.number).len(),
                e64(v@.block_reward),
                e64(v@.remainder_reward) + (enc_h256(v@.last_block_hash_in_previous_epoch) + (e64(
                    v@.start_number,
                ) + (e64(v@.length) + e128(v@.difficulty)))),
            );
            lemma_starts_at_concat(
                bytes@,
                pos + e64(v@.number).len() + e64(v@.block_reward).len(),
                e64(v@.remainder_reward),
                enc_h256(v@.last_block_hash_in_previous_epoch) + (e64(v@.start_number) + (e64(
                    v@.length,
                ) + e128(v@.difficulty))),
            );
            lemma_starts_at_concat(
                bytes@,
                pos + e64(v@.number).len() + e64(v@.block_reward).len() + e64(
                    v@.remainder_reward,
                ).len(),
                enc_h256(v@.last_block_hash_in_previous_epoch),
                e64(v@.start_number) + (e64(v@.length) + e128(v@.difficulty)),
            );
            lemma_starts_at_concat(
                bytes@,
                pos + e64(v@.number).len() + e64(v@.block_reward).len() + e64(
                    v@.remainder_reward,
                ).len() + enc_h256(v@.last_block_hash_in_previous_epoch).len(),
                e64(v@.start_number),
                e64(v@.length) + e128(v@.difficulty),
            );
            lemma_starts_at_concat(
                bytes@,
                pos + e64(v@.number).len() + e64(v@.block_reward).len() + e64(
                    v@.remainder_reward,
                ).len() + enc_h256(v@.last_block_hash_in_previous_epoch).len() + e64(
                    v@.start_number,
                ).len(),
                e64(v@.length),
                e128(v@.difficulty),
            );
        }
        let (number, p0) = u64::parse(bytes, pos, Ghost(v@.number));
        let (block_reward, p1) = u64::parse(bytes, p0, Ghost(v@.block_reward));
        let (remainder_reward, p2) = u64::parse(bytes, p1, Ghost(v@.remainder_reward));
        let (last_hash, p3) = H256::parse(bytes, p2, Ghost(v@.last_block_hash_in_previous_epoch));
        let (start_number, p4) = u64::parse(bytes, p3, Ghost(v@.start_number));
        let (length, p5) = u64::parse(bytes, p4, Ghost(v@.length));
        let (difficulty, p6) = u128::parse(bytes, p5, Ghost(v@.difficulty));
        (
            EpochExt {
                number,
                block_reward,
                remainder_reward,
                last_block_hash_in_previous_epoch: last_hash,
                start_number,
                length,
                difficulty,
            },
            p6,
        )
    }
}

/// A block header. All fields are fixed-width, so headers compare
/// field-wise in contracts.
#[derive(Clone, Copy, Debug, PartialEq, Eq, Structural)]
pub struct Header {
    pub parent_hash: H256,
    pub number: u64,
    pub timestamp: u64,
    pub epoch: u64,
    pub difficulty: u128,
    pub transactions_root: H256,
    pub proposals_hash: H256,
    pub uncles_hash: H256,
    pub dao: H256,
    pub nonce: u64,
    /// Content-derived identity of the block
    pub hash: H256,
}

impl View for Header {
    type V = Header;

    open spec fn view(&self) -> Header {
        *self
    }
}

pub open spec fn enc_header(v: Header) -> Seq<u8> {
    enc_h256(v.parent_hash) + (e64(v.number) + (e64(v.timestamp) + (e64(v.epoch) + (e128(
        v.difficulty,
    ) + (enc_h256(v.transactions_root) + (enc_h256(v.proposals_hash) + (enc_h256(v.uncles_hash) + (
    enc_h256(v.dao) + (e64(v.nonce) + enc_h256(v.hash))))))))))
}

impl Codec for Header {
    open spec fn wf(v: Header) -> bool {
        true
    }

    open spec fn enc(v: Header) -> Seq<u8> {
        enc_header(v)
    }

    #[verifier::rlimit(50)]
    fn write(&self, out: &mut Vec<u8>) {
        self.parent_hash.write(out);
        self.number.write(out);
        self.timestamp.write(out);
        self.epoch.write(out);
        self.difficulty.write(out);
        self.transactions_root.write(out);
        self.proposals_hash.write(out);
        self.uncles_hash.write(out);
        self.dao.write(out);
        self.nonce.write(out);
        self.hash.write(out);
        assert(self@ == *self);
        assert(out@ =~= old(out)@ + Self::enc(self@));
    }

    fn parse(bytes: &[u8], pos: usize, v: Ghost<Header>) -> (r: (Self, usize)) {
        let ghost t9 = e64(v@.nonce) + enc_h256(v@.hash);
        let ghost t8 = enc_h256(v@.dao) + t9;
        let ghost t7 = enc_h256(v@.uncles_hash) + t8;
        let ghost t6 = enc_h256(v@.proposals_hash) + t7;
        let ghost t5 = enc_h256(v@.transactions_root) + t6;
        let ghost t4 = e128(v@.difficulty) + t5;
        let ghost t3 = e64(v@.epoch) + t4;
        let ghost t2 = e64(v@.timestamp) + t3;
        let ghost t1 = e64(v@.number) + t2;
        proof {
            let p = pos as int;
            lemma_starts_at_concat(bytes@, p, enc_h256(v@.parent_hash), t1);
            let p1 = p + enc_h256(v@.parent_hash).len();
            lemma_starts_at_concat(bytes@, p1, e64(v@.number), t2);
            let p2 = p1 + e64(v@.number).len();
            lemma_starts_at_concat(bytes@, p2, e64(v@.timestamp), t3);
            let p3 = p2 + e64(v@.timestamp).len();
            lemma_starts_at_concat(bytes@, p3, e64(v@.epoch), t4);
            let p4 = p3 + e64(v@.epoch).len();
            lemma_starts_at_concat(bytes@, p4, e128(v@.difficulty), t5);
            let p5 = p4 + e128(v@.difficulty).len();
            lemma_starts_at_concat(bytes@, p5, enc_h256(v@.transactions_root), t6);
            let p6 = p5 + enc_h256(v@.transactions_root).len();
            lemma_starts_at_concat(bytes@, p6, enc_h256(v@.proposals_hash), t7);
            let p7 = p6 + enc_h256(v@.proposals_hash).len();
            lemma_starts_at_concat(bytes@, p7, enc_h256(v@.uncles_hash), t8);
            let p8 = p7 + enc_h256(v@.uncles_hash).len();
            lemma_starts_at_concat(bytes@, p8, enc_h256(v@.dao), t9);
            let p9 = p8 + enc_h256(v@.dao).len();
            lemma_starts_at_concat(bytes@, p9, e64(v@.nonce), enc_h256(v@.hash));
        }
        let (parent_hash, p1) = H256::parse(bytes, pos, Ghost(v@.parent_hash));
        let (number, p2) = u64::parse(bytes, p1, Ghost(v@.number));
        let (timestamp, p3) = u64::parse(bytes, p2, Ghost(v@.timestamp));
        let (epoch, p4) = u64::parse(bytes, p3, Ghost(v@.epoch));
        let (difficulty, p5) = u128::parse(bytes, p4, Ghost(v@.difficulty));
        let (transactions_root, p6) = H256::parse(bytes, p5, Ghost(v@.transactions_root));
        let (proposals_hash, p7) = H256::parse(bytes, p6, Ghost(v@.proposals_hash));
        let (uncles_hash, p8) = H256::parse(bytes, p7, Ghost(v@.uncles_hash));
        let (dao, p9) = H256::parse(bytes, p8, Ghost(v@.dao));
        let (nonce, p10) = u64::parse(bytes, p9, Ghost(v@.nonce));
        let (hash, p11) = H256::parse(bytes, p10, Ghost(v@.hash));
        (
            Header {
                parent_hash,
                number,
                timestamp,
                epoch,
                difficulty,
                transactions_root,
                proposals_hash,
                uncles_hash,
                dao,
                nonce,
                hash,
            },
            p11,
        )
    }
}

/// The abstract value of an optional byte string.
pub open spec fn opt_bytes_view(o: Option<Vec<u8>>) -> Option<Seq<u8>> {
    match o {
        Option::None => Option::None,
        Option::Some(v) => Option::Some(v@),
    }
}

/// Tag byte `0` for absent, or `1` followed by the byte string.
pub open spec fn enc_opt_bytes(o: Option<Seq<u8>>) -> Seq<u8> {
    match o {
        Option::None => seq![0u8],
        Option::Some(s) => seq![1u8] + enc_bytes(s),
    }
}

pub open spec fn wf_opt_bytes(o: Option<Seq<u8>>) -> bool {
    match o {
        Option::None => true,
        Option::Some(s) => wf_bytes(s),
    }
}

fn write_opt_bytes(o: &Option<Vec<u8>>, out: &mut Vec<u8>)
    requires
        wf_opt_bytes(opt_bytes_view(*o)),
    ensures
        final(out)@ == old(out)@ + enc_opt_bytes(opt_bytes_view(*o)),
{
    match o {
        Option::None => {
            out.push(0u8);
            assert(out@ =~= old(out)@ + enc_opt_bytes(opt_bytes_view(*o)));
        },
        Option::Some(s) => {
            out.push(1u8);
            s.write(out);
            assert(out@ =~= old(out)@ + enc_opt_bytes(opt_bytes_view(*o)));
        },
    }
}

fn parse_opt_bytes(bytes: &[u8], pos: usize, v: Ghost<Option<Seq<u8>>>) -> (r: (
    Option<Vec<u8>>,
    usize,
))
    requires
        wf_opt_bytes(v@),
        starts_at(bytes@, pos as int, enc_opt_bytes(v@)),
    ensures
        opt_bytes_view(r.0) == v@,
        r.1 == pos + enc_opt_bytes(v@).len(),
{
    let total = bytes.len();
    assert(bytes@.subrange(pos as int, pos + enc_opt_bytes(v@).len())[0] == enc_opt_bytes(v@)[0]);
    let tag = *slice_index_get(bytes, pos);
    if tag == 1u8 {
        assert(v@ is Some);
        let ghost s = v@.unwrap();
        proof {
            assert(enc_opt_bytes(v@) == seq![1u8] + enc_bytes(s));
            lemma_starts_at_concat(bytes@, pos as int, seq![1u8], enc_bytes(s));
        }
        let (data, end) = Vec::<u8>::parse(bytes, pos + 1, Ghost(s));
        (Option::Some(data), end)
    } else {
        assert(v@ is None);
        (Option::None, pos + 1)
    }
}

/// A spendable output: its capacity, lock script, optional type script,
/// and the hash of its data.
#[derive(Clone, Debug, PartialEq, Eq)]
pub struct CellOutput {
    pub capacity: u64,
    pub lock: Vec<u8>,
    pub type_script: Option<Vec<u8>>,
    pub data_hash: H256,
}

pub ghost struct CellOutputV {
    pub capacity: u64,
    pub lock: Seq<u8>,
    pub type_script: Option<Seq<u8>>,
    pub data_hash: H256,
}

impl View for CellOutput {
    type V = CellOutputV;

    open spec fn view(&self) -> CellOutputV {
        CellOutputV {
            capacity: self.capacity,
            lock: self.lock@,
            type_script: opt_bytes_view(self.type_script),
            data_hash: self.data_hash,
        }
    }
}

pub open spec fn enc_cell_output(v: CellOutputV) -> Seq<u8> {
    e64(v.capacity) + (enc_bytes(v.lock) + (enc_opt_bytes(v.type_script) + enc_h256(v.data_hash)))
}

pub open spec fn wf_cell_output(v: CellOutputV) -> bool {
    wf_bytes(v.lock) && wf_opt_bytes(v.type_script)
}

impl Codec for CellOutput {
    open spec fn wf(v: CellOutputV) -> bool {
        wf_cell_output(v)
    }

    open spec fn enc(v: CellOutputV) -> Seq<u8> {
        enc_cell_output(v)
    }

    fn write(&self, out: &mut Vec<u8>) {
        self.capacity.write(out);
        self.lock.write(out);
        write_opt_bytes(&self.type_script, out);
        self.data_hash.write(out);
        assert(out@ =~= old(out)@ + enc_cell_output(self@));
    }

    fn parse(bytes: &[u8], pos: usize, v: Ghost<CellOutputV>) -> (r: (Self, usize)) {
        proof {
            lemma_starts_at_concat(
                bytes@,
                pos as int,
                e64(v@.capacity),
                enc_bytes(v@.lock) + (enc_opt_bytes(v@.type_script) + enc_h256(v@.data_hash)),
            );
            lemma_starts_at_concat(
                bytes@,
                pos + e64(v@.capacity).len(),
                enc_bytes(v@.lock),
                enc_opt_bytes(v@.type_script) + enc_h256(v@.data_hash),
            );
            lemma_starts_at_concat(
                bytes@,
                pos + e64(v@.capacity).len() + enc_bytes(v@.lock).len(),
                enc_opt_bytes(v@.type_script),
                enc_h256(v@.data_hash),
            );
        }
        let (capacity, p0) = u64::parse(bytes, pos, Ghost(v@.capacity));
        let (lock, p1) = Vec::<u8>::parse(bytes, p0, Ghost(v@.lock));
        let (type_script, p2) = parse_opt_bytes(bytes, p1, Ghost(v@.type_script));
        let (data_hash, p3) = H256::parse(bytes, p2, Ghost(v@.data_hash));
        let r = CellOutput { capacity, lock, type_script, data_hash };
        assert(r@ == v@);
        (r, p3)
    }
}

/// A transaction: out-point references in, cells out, plus the witness
/// and data payloads. The hash is its content-derived identity.
#[derive(Clone, Debug, PartialEq, Eq)]
pub struct Transaction {
    pub version: u32,
    pub deps: Vec<OutPoint>,
    pub inputs: Vec<OutPoint>,
    pub outputs: Vec<CellOutput>,
    pub outputs_data: Vec<Vec<u8>>,
    pub witnesses: Vec<Vec<u8>>,
    pub hash: H256,
}

pub ghost struct TransactionV {
    pub version: u32,
    pub deps: Seq<OutPoint>,
    pub inputs: Seq<OutPoint>,
    pub outputs: Seq<CellOutputV>,
    pub outputs_data: Seq<Seq<u8>>,
    pub witnesses: Seq<Seq<u8>>,
    pub hash: H256,
}

impl View for Transaction {
    type V = TransactionV;

    open spec fn view(&self) -> TransactionV {
        TransactionV {
            version: self.version,
            deps: self.deps@,
            inputs: self.inputs@,
            outputs: views_of(self.outputs@),
            outputs_data: views_of(self.outputs_data@),
            witnesses: views_of(self.witnesses@),
            hash: self.hash,
        }
    }
}

impl Transaction {
    /// A cellbase mints new coins and consumes no real input.
    pub fn is_cellbase(&self) -> (r: bool)
        ensures
            r == (self@.inputs.len() == 0),
    {
        self.inputs.len() == 0
    }
}

pub open spec fn enc_transaction(v: TransactionV) -> Seq<u8> {
    e32(v.version) + (enc_list::<OutPoint>(v.deps) + (enc_list::<OutPoint>(v.inputs) + (enc_list::<
        CellOutput,
    >(v.outputs) + (enc_list::<Vec<u8>>(v.outputs_data) + (enc_list::<Vec<u8>>(v.witnesses)
        + enc_h256(v.hash))))))
}

pub open spec fn wf_transaction(v: TransactionV) -> bool {
    &&& wf_list::<OutPoint>(v.deps)
    &&& wf_list::<OutPoint>(v.inputs)
    &&& wf_list::<CellOutput>(v.outputs)
    &&& wf_list::<Vec<u8>>(v.outputs_data)
    &&& wf_list::<Vec<u8>>(v.witnesses)
}

impl Codec for Transaction {
    open spec fn wf(v: TransactionV) -> bool {
        wf_transaction(v)
    }

    open spec fn enc(v: TransactionV) -> Seq<u8> {
        enc_transaction(v)
    }

    #[verifier::rlimit(50)]
    fn write(&self, out: &mut Vec<u8>) {
        self.version.write(out);
        write_list::<OutPoint>(&self.deps, out);
        write_list::<OutPoint>(&self.inputs, out);
        write_list::<CellOutput>(&self.outputs, out);
        write_list::<Vec<u8>>(&self.outputs_data, out);
        write_list::<Vec<u8>>(&self.witnesses, out);
        self.hash.write(out);
        assert(views_of(self.deps@) =~= self@.deps);
        assert(views_of(self.inputs@) =~= self@.inputs);
        assert(out@ =~= old(out)@ + enc_transaction(self@));
    }

    fn parse(bytes: &[u8], pos: usize, v: Ghost<TransactionV>) -> (r: (Self, usize)) {
        let ghost t5 = enc_list::<Vec<u8>>(v@.witnesses) + enc_h256(v@.hash);
        let ghost t4 = enc_list::<Vec<u8>>(v@.outputs_data) + t5;
        let ghost t3 = enc_list::<CellOutput>(v@.outputs) + t4;
        let ghost t2 = enc_list::<OutPoint>(v@.inputs) + t3;
        let ghost t1 = enc_list::<OutPoint>(v@.deps) + t2;
        proof {
            let p = pos as int;
            lemma_starts_at_concat(bytes@, p, e32(v@.version), t1);
            let p1 = p + e32(v@.version).len();
            lemma_starts_at_concat(bytes@, p1, enc_list::<OutPoint>(v@.deps), t2);
            let p2 = p1 + enc_list::<OutPoint>(v@.deps).len();
            lemma_starts_at_concat(bytes@, p2, enc_list::<OutPoint>(v@.inputs), t3);
            let p3 = p2 + enc_list::<OutPoint>(v@.inputs).len();
            lemma_starts_at_concat(bytes@, p3, enc_list::<CellOutput>(v@.outputs), t4);
            let p4 = p3 + enc_list::<CellOutput>(v@.outputs).len();
            lemma_starts_at_concat(bytes@, p4, enc_list::<Vec<u8>>(v@.outputs_data), t5);
            let p5 = p4 + enc_list::<Vec<u8>>(v@.outputs_data).len();
            lemma_starts_at_concat(
                bytes@,
                p5,
                enc_list::<Vec<u8>>(v@.witnesses),
                enc_h256(v@.hash),
            );
        }
        let (version, p1) = u32::parse(bytes, pos, Ghost(v@.version));
        let (deps, p2) = parse_list::<OutPoint>(bytes, p1, Ghost(v@.deps));
        let (inputs, p3) = parse_list::<OutPoint>(bytes, p2, Ghost(v@.inputs));
        let (outputs, p4) = parse_list::<CellOutput>(bytes, p3, Ghost(v@.outputs));
        let (outputs_data, p5) = parse_list::<Vec<u8>>(bytes, p4, Ghost(v@.outputs_data));
        let (witnesses, p6) = parse_list::<Vec<u8>>(bytes, p5, Ghost(v@.witnesses));
        let (hash, p7) = H256::parse(bytes, p6, Ghost(v@.hash));
        let r = Transaction { version, deps, inputs, outputs, outputs_data, witnesses, hash };
        assert(views_of(r.deps@) =~= r@.deps);
        assert(views_of(r.inputs@) =~= r@.inputs);
        assert(r@ == v@);
        (r, p7)
    }
}

/// An uncle: a competing header embedded in a winning block, along with
/// the proposal identifiers it carried.
#[derive(Clone, Debug, PartialEq, Eq)]
pub struct UncleBlock {
    pub header: Header,
    pub proposals: Vec<ProposalShortId>,
}

pub ghost struct UncleBlockV {
    pub header: Header,
    pub proposals: Seq<ProposalShortId>,
}

impl View for UncleBlock {
    type V = UncleBlockV;

    open spec fn view(&self) -> UncleBlockV {
        UncleBlockV { header: self.header, proposals: self.proposals@ }
    }
}

impl UncleBlock {
    /// The uncle's identity is its header's hash.
    pub fn hash(&self) -> (r: H256)
        ensures
            r == self@.header.hash,
    {
        self.header.hash
    }
}

pub open spec fn enc_uncle(v: UncleBlockV) -> Seq<u8> {
    enc_header(v.header) + enc_list::<ProposalShortId>(v.proposals)
}

pub open spec fn wf_uncle(v: UncleBlockV) -> bool {
    wf_list::<ProposalShortId>(v.proposals)
}

impl Codec for UncleBlock {
    open spec fn wf(v: UncleBlockV) -> bool {
        wf_uncle(v)
    }

    open spec fn enc(v: UncleBlockV) -> Seq<u8> {
        enc_uncle(v)
    }

    fn write(&self, out: &mut Vec<u8>) {
        self.header.write(out);
        write_list::<ProposalShortId>(&self.proposals, out);
        assert(views_of(self.proposals@) =~= self@.proposals);
        assert(out@ =~= old(out)@ + enc_uncle(self@));
    }

    fn parse(bytes: &[u8], pos: usize, v: Ghost<UncleBlockV>) -> (r: (Self, usize)) {
        proof {
            lemma_starts_at_concat(
                bytes@,
                pos as int,
                enc_header(v@.header),
                enc_list::<ProposalShortId>(v@.proposals),
            );
        }
        let (header, p0) = Header::parse(bytes, pos, Ghost(v@.header));
        let (proposals, p1) = parse_list::<ProposalShortId>(bytes, p0, Ghost(v@.proposals));
        let r = UncleBlock { header, proposals };
        assert(views_of(r.proposals@) =~= r@.proposals);
        assert(r@ == v@);
        (r, p1)
    }
}

/// A full block: header, body, uncles, and proposal identifiers. Blocks
/// are stored split across four columns, so the block itself has no
/// single-record encoding.
#[derive(Clone, Debug, PartialEq, Eq)]
pub struct Block {
    pub header: Header,
    pub transactions: Vec<Transaction>,
    pub uncles: Vec<UncleBlock>,
    pub proposals: Vec<ProposalShortId>,
}

pub ghost struct BlockV {
    pub header: Header,
    pub transactions: Seq<TransactionV>,
    pub uncles: Seq<UncleBlockV>,
    pub proposals: Seq<ProposalShortId>,
}

impl View for Block {
    type V = BlockV;

    open spec fn view(&self) -> BlockV {
        BlockV {
            header: self.header,
            transactions: views_of(self.transactions@),
            uncles: views_of(self.uncles@),
            proposals: self.proposals@,
        }
    }
}

impl Block {
    /// The block's identity is its header's hash.
    pub fn hash(&self) -> (r: H256)
        ensures
            r == self@.header.hash,
    {
        self.header.hash
    }
}

/// Every list of the block fits its length prefixes.
pub open spec fn wf_block(v: BlockV) -> bool {
    &&& forall|i: int|
        0 <= i < v.transactions.len() ==> wf_transaction(#[trigger] v.transactions[i])
    &&& v.transactions.len() <= u32::MAX
    &&& forall|i: int| 0 <= i < v.uncles.len() ==> wf_uncle(#[trigger] v.uncles[i])
    &&& v.uncles.len() <= u32::MAX
    &&& v.proposals.len() <= u32::MAX
}

/// Per-transaction output-liveness bitmap held in the live cell set.
#[derive(Clone, Debug, PartialEq, Eq)]
pub struct TransactionMeta {
    pub block_number: u64,
    pub epoch: u64,
    pub cellbase: bool,
    /// One liveness flag per output
    pub bits: Vec<bool>,
}

pub ghost struct TransactionMetaV {
    pub block_number: u64,
    pub epoch: u64,
    pub cellbase: bool,
    pub bits: Seq<bool>,
}

impl View for TransactionMeta {
    type V = TransactionMetaV;

    open spec fn view(&self) -> TransactionMetaV {
        TransactionMetaV {
            block_number: self.block_number,
            epoch: self.epoch,
            cellbase: self.cellbase,
            bits: self.bits@,
        }
    }
}

impl TransactionMeta {
    /// A meta entry for an ordinary transaction, every output live
    /// unless `all_dead` is set.
    pub fn new(block_number: u64, epoch: u64, outputs_count: usize, all_dead: bool) -> (r: Self)
        ensures
            r@.block_number == block_number,
            r@.epoch == epoch,
            r@.cellbase == false,
            r@.bits.len() == outputs_count,
            forall|i: int| 0 <= i < outputs_count ==> r@.bits[i] == !all_dead,
    {
        TransactionMeta {
            block_number,
            epoch,
            cellbase: false,
            bits: Self::filled_bits(outputs_count, !all_dead),
        }
    }

    /// A meta entry for the cellbase transaction of a block.
    pub fn new_cellbase(block_number: u64, epoch: u64, outputs_count: usize, all_dead: bool) -> (r:
        Self)
        ensures
            r@.block_number == block_number,
            r@.epoch == epoch,
            r@.cellbase == true,
            r@.bits.len() == outputs_count,
            forall|i: int| 0 <= i < outputs_count ==> r@.bits[i] == !all_dead,
    {
        TransactionMeta {
            block_number,
            epoch,
            cellbase: true,
            bits: Self::filled_bits(outputs_count, !all_dead),
        }
    }

    fn filled_bits(count: usize, value: bool) -> (r: Vec<bool>)
        ensures
            r@.len() == count,
            forall|i: int| 0 <= i < count ==> r@[i] == value,
    {
        let mut bits: Vec<bool> = Vec::new();
        let mut i: usize = 0;
        while i < count
            invariant
                i <= count,
                bits@.len() == i,
                forall|j: int| 0 <= j < i ==> bits@[j] == value,
            decreases count - i,
        {
            bits.push(value);
            i = i + 1;
        }
        bits
    }
}

pub open spec fn enc_tx_meta(v: TransactionMetaV) -> Seq<u8> {
    e64(v.block_number) + (e64(v.epoch) + (enc_bool(v.cellbase) + enc_list::<bool>(v.bits)))
}

pub open spec fn wf_tx_meta(v: TransactionMetaV) -> bool {
    v.bits.len() <= u32::MAX
}

impl Codec for TransactionMeta {
    open spec fn wf(v: TransactionMetaV) -> bool {
        wf_tx_meta(v)
    }

    open spec fn enc(v: TransactionMetaV) -> Seq<u8> {
        enc_tx_meta(v)
    }

    fn write(&self, out: &mut Vec<u8>) {
        self.block_number.write(out);
        self.epoch.write(out);
        self.cellbase.write(out);
        write_list::<bool>(&self.bits, out);
        assert(views_of(self.bits@) =~= self@.bits);
        assert(out@ =~= old(out)@ + enc_tx_meta(self@));
    }

    fn parse(bytes: &[u8], pos: usize, v: Ghost<TransactionMetaV>) -> (r: (Self, usize)) {
        proof {
            let p = pos as int;
            lemma_starts_at_concat(
                bytes@,
                p,
                e64(v@.block_number),
                e64(v@.epoch) + (enc_bool(v@.cellbase) + enc_list::<bool>(v@.bits)),
            );
            lemma_starts_at_concat(
                bytes@,
                p + e64(v@.block_number).len(),
                e64(v@.epoch),
                enc_bool(v@.cellbase) + enc_list::<bool>(v@.bits),
            );
            lemma_starts_at_concat(
                bytes@,
                p + e64(v@.block_number).len() + e64(v@.epoch).len(),
                enc_bool(v@.cellbase),
                enc_list::<bool>(v@.bits),
            );
        }
        let (block_number, p0) = u64::parse(bytes, pos, Ghost(v@.block_number));
        let (epoch, p1) = u64::parse(bytes, p0, Ghost(v@.epoch));
        let (cellbase, p2) = bool::parse(bytes, p1, Ghost(v@.cellbase));
        let (bits, p3) = parse_list::<bool>(bytes, p2, Ghost(v@.bits));
        let r = TransactionMeta { block_number, epoch, cellbase, bits };
        assert(views_of(r.bits@) =~= r@.bits);
        assert(r@ == v@);
        (r, p3)
    }
}

/// One byte: `0` for absent, `1` for false, `2` for true.
pub open spec fn enc_opt_bool(o: Option<bool>) -> Seq<u8> {
    match o {
        Option::None => seq![0u8],
        Option::Some(b) => seq![if b { 2u8 } else { 1u8 }],
    }
}

fn write_opt_bool(o: &Option<bool>, out: &mut Vec<u8>)
    ensures
        final(out)@ == old(out)@ + enc_opt_bool(*o),
{
    match o {
        Option::None => out.push(0u8),
        Option::Some(b) => out.push(if *b { 2u8 } else { 1u8 }),
    }
    assert(out@ =~= old(out)@ + enc_opt_bool(*o));
}

fn parse_opt_bool(bytes: &[u8], pos: usize, v: Ghost<Option<bool>>) -> (r: (Option<bool>, usize))
    requires
        starts_at(bytes@, pos as int, enc_opt_bool(v@)),
    ensures
        r.0 == v@,
        r.1 == pos + 1,
{
    let total = bytes.len();
    assert(bytes@.subrange(pos as int, pos + 1)[0] == enc_opt_bool(v@)[0]);
    let tag = *slice_index_get(bytes, pos);
    if tag == 0u8 {
        (Option::None, pos + 1)
    } else {
        (Option::Some(tag == 2u8), pos + 1)
    }
}

/// Chain-position metadata of a block that is not part of its header.
#[derive(Clone, Debug, PartialEq, Eq)]
pub struct BlockExt {
    pub received_at: u64,
    pub total_difficulty: u128,
    pub total_uncles_count: u64,
    pub verified: Option<bool>,
    pub txs_fees: Vec<u64>,
    pub dao_stats: DaoStats,
}

pub ghost struct BlockExtV {
    pub received_at: u64,
    pub total_difficulty: u128,
    pub total_uncles_count: u64,
    pub verified: Option<bool>,
    pub txs_fees: Seq<u64>,
    pub dao_stats: DaoStats,
}

impl View for BlockExt {
    type V = BlockExtV;

    open spec fn view(&self) -> BlockExtV {
        BlockExtV {
            received_at: self.received_at,
            total_difficulty: self.total_difficulty,
            total_uncles_count: self.total_uncles_count,
            verified: self.verified,
            txs_fees: self.txs_fees@,
            dao_stats: self.dao_stats,
        }
    }
}

pub open spec fn enc_block_ext(v: BlockExtV) -> Seq<u8> {
    e64(v.received_at) + (e128(v.total_difficulty) + (e64(v.total_uncles_count) + (enc_opt_bool(
        v.verified,
    ) + (enc_list::<u64>(v.txs_fees) + (e64(v.dao_stats.accumulated_rate) + e64(
        v.dao_stats.accumulated_capacity,
    ))))))
}

pub open spec fn wf_block_ext(v: BlockExtV) -> bool {
    v.txs_fees.len() <= u32::MAX
}

impl Codec for BlockExt {
    open spec fn wf(v: BlockExtV) -> bool {
        wf_block_ext(v)
    }

    open spec fn enc(v: BlockExtV) -> Seq<u8> {
        enc_block_ext(v)
    }

    fn write(&self, out: &mut Vec<u8>) {
        self.received_at.write(out);
        self.total_difficulty.write(out);
        self.total_uncles_count.write(out);
        write_opt_bool(&self.verified, out);
        write_list::<u64>(&self.txs_fees, out);
        self.dao_stats.accumulated_rate.write(out);
        self.dao_stats.accumulated_capacity.write(out);
        assert(views_of(self.txs_fees@) =~= self@.txs_fees);
        assert(out@ =~= old(out)@ + enc_block_ext(self@));
    }

    fn parse(bytes: &[u8], pos: usize, v: Ghost<BlockExtV>) -> (r: (Self, usize)) {
        let ghost t5 = e64(v@.dao_stats.accumulated_rate) + e64(v@.dao_stats.accumulated_capacity);
        let ghost t4 = enc_list::<u64>(v@.txs_fees) + t5;
        let ghost t3 = enc_opt_bool(v@.verified) + t4;
        let ghost t2 = e64(v@.total_uncles_count) + t3;
        let ghost t1 = e128(v@.total_difficulty) + t2;
        proof {
            let p = pos as int;
            lemma_starts_at_concat(bytes@, p, e64(v@.received_at), t1);
            let p1 = p + e64(v@.received_at).len();
            lemma_starts_at_concat(bytes@, p1, e128(v@.total_difficulty), t2);
            let p2 = p1 + e128(v@.total_difficulty).len();
            lemma_starts_at_concat(bytes@, p2, e64(v@.total_uncles_count), t3);
            let p3 = p2 + e64(v@.total_uncles_count).len();
            lemma_starts_at_concat(bytes@, p3, enc_opt_bool(v@.verified), t4);
            let p4 = p3 + enc_opt_bool(v@.verified).len();
            lemma_starts_at_concat(bytes@, p4, enc_list::<u64>(v@.txs_fees), t5);
            let p5 = p4 + enc_list::<u64>(v@.txs_fees).len();
            lemma_starts_at_concat(
                bytes@,
                p5,
                e64(v@.dao_stats.accumulated_rate),
                e64(v@.dao_stats.accumulated_capacity),
            );
        }
        let (received_at, p1) = u64::parse(bytes, pos, Ghost(v@.received_at));
        let (total_difficulty, p2) = u128::parse(bytes, p1, Ghost(v@.total_difficulty));
        let (total_uncles_count, p3) = u64::parse(bytes, p2, Ghost(v@.total_uncles_count));
        let (verified, p4) = parse_opt_bool(bytes, p3, Ghost(v@.verified));
        let (txs_fees, p5) = parse_list::<u64>(bytes, p4, Ghost(v@.txs_fees));
        let (rate, p6) = u64::parse(bytes, p5, Ghost(v@.dao_stats.accumulated_rate));
        let (cap, p7) = u64::parse(bytes, p6, Ghost(v@.dao_stats.accumulated_capacity));
        let r = BlockExt {
            received_at,
            total_difficulty,
            total_uncles_count,
            verified,
            txs_fees,
            dao_stats: DaoStats { accumulated_rate: rate, accumulated_capacity: cap },
        };
        assert(views_of(r.txs_fees@) =~= r@.txs_fees);
        assert(r@ == v@);
        (r, p7)
    }
}

} // verus!
