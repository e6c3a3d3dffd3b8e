//! The block-body record.
//!
//! A body is the block's transaction list, laid out for random access:
//! a count, a table of the transaction hashes, a table of byte offsets
//! into the payload, and then the encoded transactions themselves. One
//! transaction, or just the hash table, can be read without decoding the
//! records around it.

use vstd::prelude::*;
use vstd::bytes::*;
use crate::codec::{
    Codec,
    enc_items,
    lemma_enc_items_len_fixed,
    lemma_items_entry,
    lemma_starts_at_concat,
    parse_items,
    parse_u32,
    parse_u64,
    starts_at,
    views_of,
    wf_items,
    write_items,
};
use crate::types::{H256, Transaction, TransactionV, e32, e64, enc_h256, wf_transaction};

verus! {

/// The hash table of a body: one hash per transaction, in order.
pub open spec fn body_tx_hashes(txs: Seq<TransactionV>) -> Seq<H256> {
    txs.map_values(|t: TransactionV| t.hash)
}

/// The offset table: entry `i` is where the `i`-th encoded transaction
/// begins in the payload; the last entry is the payload's length.
pub open spec fn body_offs(txs: Seq<TransactionV>) -> Seq<u64> {
    Seq::new(txs.len() + 1, |i: int| enc_items::<Transaction>(txs.take(i)).len() as u64)
}

/// Count, hash table, offset table, payload.
pub open spec fn enc_body(txs: Seq<TransactionV>) -> Seq<u8> {
    e32(txs.len() as u32) + (enc_items::<H256>(body_tx_hashes(txs)) + (enc_items::<u64>(
        body_offs(txs),
    ) + enc_items::<Transaction>(txs)))
}

pub open spec fn wf_body(txs: Seq<TransactionV>) -> bool {
    &&& forall|i: int| 0 <= i < txs.len() ==> wf_transaction(#[trigger] txs[i])
    &&& txs.len() <= u32::MAX
    &&& enc_items::<Transaction>(txs).len() <= u64::MAX
}

/// Eight bytes per offset entry.
pub proof fn lemma_u64_items_len(vs: Seq<u64>)
    ensures
        enc_items::<u64>(vs).len() == 8 * vs.len(),
{
    lemma_auto_spec_u64_to_from_le_bytes();
    assert forall|v: u64| (#[trigger] <u64 as Codec>::enc(v)).len() == 8 by {}
    lemma_enc_items_len_fixed::<u64>(vs, 8);
}

/// Thirty-two bytes per hash entry.
pub proof fn lemma_h256_items_len(vs: Seq<H256>)
    ensures
        enc_items::<H256>(vs).len() == 32 * vs.len(),
{
    crate::types::lemma_enc_h256_len();
    assert forall|v: H256| (#[trigger] <H256 as Codec>::enc(v)).len() == 32 by {}
    lemma_enc_items_len_fixed::<H256>(vs, 32);
}

/// Where each region of an encoded body sits.
pub proof fn lemma_body_regions(b: Seq<u8>, pos: int, txs: Seq<TransactionV>)
    requires
        starts_at(b, pos, enc_body(txs)),
    ensures
        starts_at(b, pos, e32(txs.len() as u32)),
        starts_at(b, pos + 4, enc_items::<H256>(body_tx_hashes(txs))),
        starts_at(b, pos + 4 + 32 * txs.len(), enc_items::<u64>(body_offs(txs))),
        starts_at(
            b,
            pos + 4 + 32 * txs.len() + 8 * (txs.len() + 1),
            enc_items::<Transaction>(txs),
        ),
        enc_body(txs).len() == 4 + 32 * txs.len() + 8 * (txs.len() + 1) + enc_items::<Transaction>(
            txs,
        ).len(),
{
    lemma_auto_spec_u32_to_from_le_bytes();
    lemma_h256_items_len(body_tx_hashes(txs));
    lemma_u64_items_len(body_offs(txs));
    assert(body_tx_hashes(txs).len() == txs.len());
    assert(body_offs(txs).len() == txs.len() + 1);
    lemma_starts_at_concat(
        b,
        pos,
        e32(txs.len() as u32),
        enc_items::<H256>(body_tx_hashes(txs)) + (enc_items::<u64>(body_offs(txs))
            + enc_items::<Transaction>(txs)),
    );
    lemma_starts_at_concat(
        b,
        pos + 4,
        enc_items::<H256>(body_tx_hashes(txs)),
        enc_items::<u64>(body_offs(txs)) + enc_items::<Transaction>(txs),
    );
    lemma_starts_at_concat(
        b,
        pos + 4 + 32 * txs.len(),
        enc_items::<u64>(body_offs(txs)),
        enc_items::<Transaction>(txs),
    );
}

/// Append the body record of `txs` to `out`.
pub fn write_body(txs: &Vec<Transaction>, out: &mut Vec<u8>)
    requires
        wf_body(views_of(txs@)),
    ensures
        final(out)@ == old(out)@ + enc_body(views_of(txs@)),
{
    let ghost vs = views_of(txs@);
    let ghost hs = body_tx_hashes(vs);
    let n: u32 = txs.len() as u32;
    let mut len_bytes = u32_to_le_bytes(n);
    out.append(&mut len_bytes);
    assert(out@ =~= old(out)@ + e32(vs.len() as u32));

    // hash table
    let ghost base1 = out@;
    let mut i: usize = 0;
    assert(out@ =~= base1 + enc_items::<H256>(hs.take(0)));
    while i < txs.len()
        invariant
            i <= txs.len(),
            vs == views_of(txs@),
            hs == body_tx_hashes(vs),
            out@ == base1 + enc_items::<H256>(hs.take(i as int)),
        decreases txs.len() - i,
    {
        assert(hs[i as int] == txs@[i as int]@.hash);
        txs[i].hash.write(out);
        proof {
            crate::codec::lemma_enc_items_push::<H256>(hs.take(i as int), hs[i as int]);
            assert(hs.take(i as int).push(hs[i as int]) =~= hs.take(i + 1));
            assert((base1 + enc_items::<H256>(hs.take(i as int))) + enc_h256(hs[i as int]) =~= base1
                + enc_items::<H256>(hs.take(i + 1)));
        }
        i = i + 1;
    }
    assert(hs.take(hs.len() as int) =~= hs);

    // payload and offset table
    let mut payload: Vec<u8> = Vec::new();
    let mut offs: Vec<u64> = Vec::new();
    let mut j: usize = 0;
    assert(payload@ =~= enc_items::<Transaction>(vs.take(0)));
    while j < txs.len()
        invariant
            j <= txs.len(),
            vs == views_of(txs@),
            wf_body(vs),
            payload@ == enc_items::<Transaction>(vs.take(j as int)),
            offs@.len() == j,
            forall|k: int| 0 <= k < j ==> offs@[k] == body_offs(vs)[k],
        decreases txs.len() - j,
    {
        proof {
            lemma_u64_items_len(body_offs(vs));
            crate::codec::lemma_enc_items_split::<Transaction>(vs, j as int);
            assert(enc_items::<Transaction>(vs.take(j as int)).len() <= enc_items::<Transaction>(
                vs,
            ).len());
        }
        offs.push(payload.len() as u64);
        assert(vs[j as int] == txs@[j as int]@);
        txs[j].write(&mut payload);
        proof {
            crate::codec::lemma_enc_items_push::<Transaction>(vs.take(j as int), vs[j as int]);
            assert(vs.take(j as int).push(vs[j as int]) =~= vs.take(j + 1));
        }
        j = j + 1;
    }
    proof {
        crate::codec::lemma_enc_items_split::<Transaction>(vs, vs.len() as int);
        assert(vs.take(vs.len() as int) =~= vs);
    }
    offs.push(payload.len() as u64);
    assert(offs@ =~= body_offs(vs));

    write_items::<u64>(&offs, out);
    assert(views_of(offs@) =~= offs@);
    out.append(&mut payload);
    assert(out@ =~= old(out)@ + enc_body(vs));
}

/// Decode the whole transaction list of a body record.
pub fn parse_body(bytes: &[u8], pos: usize, txs: Ghost<Seq<TransactionV>>) -> (r: (
    Vec<Transaction>,
    usize,
))
    requires
        wf_body(txs@),
        starts_at(bytes@, pos as int, enc_body(txs@)),
    ensures
        views_of(r.0@) == txs@,
        r.1 == pos + enc_body(txs@).len(),
{
    let total = bytes.len();
    proof {
        lemma_body_regions(bytes@, pos as int, txs@);
    }
    let n = parse_u32(bytes, pos, Ghost(txs@.len() as u32));
    assert(pos + 4 + 32 * (n as int) + 8 * ((n as int) + 1) <= total);
    let base3 = pos + 4 + 32 * (n as usize) + 8 * ((n as usize) + 1);
    let (v, end) = parse_items::<Transaction>(bytes, base3, n as usize, txs);
    (v, end)
}

/// Fetch the `i`-th transaction of a body record without decoding any
/// other: read its offset, then parse it in place.
pub fn body_transaction_at(bytes: &[u8], i: usize, txs: Ghost<Seq<TransactionV>>) -> (r:
    Transaction)
    requires
        wf_body(txs@),
        starts_at(bytes@, 0, enc_body(txs@)),
        i < txs@.len(),
    ensures
        r@ == txs@[i as int],
{
    let total = bytes.len();
    proof {
        lemma_body_regions(bytes@, 0, txs@);
    }
    let n = parse_u32(bytes, 0, Ghost(txs@.len() as u32));
    assert(4 + 32 * (n as int) + 8 * ((n as int) + 1) <= total);
    let base2 = 4 + 32 * (n as usize);
    let base3 = base2 + 8 * ((n as usize) + 1);
    proof {
        lemma_items_entry::<u64>(bytes@, base2 as int, body_offs(txs@), i as int);
        lemma_u64_items_len(body_offs(txs@).take(i as int));
        lemma_u64_items_len(body_offs(txs@));
    }
    let off = parse_u64(bytes, base2 + 8 * i, Ghost(body_offs(txs@)[i as int]));
    proof {
        lemma_items_entry::<Transaction>(bytes@, base3 as int, txs@, i as int);
        assert(enc_items::<Transaction>(txs@.take(i as int)).len() <= enc_items::<Transaction>(
            txs@,
        ).len());
        assert(off == enc_items::<Transaction>(txs@.take(i as int)).len());
    }
    let (tx, _end) = Transaction::parse(bytes, base3 + off as usize, Ghost(txs@[i as int]));
    tx
}

} // verus!
