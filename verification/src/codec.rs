//! Binary codec framework.
//!
//! Every stored entity has a byte encoding, given by a spec-level
//! encoding function. Writers append the encoding of a value to a byte
//! buffer; parsers read a value back out of a buffer that is known (from
//! the store's invariant) to hold an encoding at a given position. The
//! parser contract is the round-trip law: parsing the encoding of `v`
//! yields exactly `v`.

use vstd::prelude::*;
use vstd::bytes::*;
use vstd::seq_lib::*;
use vstd::slice::*;

verus! {

/// The byte sequence `e` occurs in `b` starting at position `pos`.
pub open spec fn starts_at(b: Seq<u8>, pos: int, e: Seq<u8>) -> bool {
    &&& 0 <= pos
    &&& pos + e.len() <= b.len()
    &&& b.subrange(pos, pos + e.len()) == e
}

/// A concatenation that occurs at `pos` splits into its two parts.
pub proof fn lemma_starts_at_concat(b: Seq<u8>, pos: int, e1: Seq<u8>, e2: Seq<u8>)
    requires
        starts_at(b, pos, e1 + e2),
    ensures
        starts_at(b, pos, e1),
        starts_at(b, pos + e1.len(), e2),
{
    let e = e1 + e2;
    assert forall|i: int| 0 <= i < e1.len() implies b.subrange(pos, pos + e1.len())[i] == e1[i] by {
        assert(b.subrange(pos, pos + e.len())[i] == e[i]);
    }
    assert(b.subrange(pos, pos + e1.len()) =~= e1);
    assert forall|i: int| 0 <= i < e2.len() implies b.subrange(
        pos + e1.len(),
        pos + e1.len() + e2.len(),
    )[i] == e2[i] by {
        assert(b.subrange(pos, pos + e.len())[e1.len() + i] == e[e1.len() + i]);
    }
    assert(b.subrange(pos + e1.len(), pos + e1.len() + e2.len()) =~= e2);
}

/// A type with a byte encoding for its abstract values.
pub trait Codec: View + Sized {
    /// Values whose lengths all fit the `u32` prefixes of the encoding.
    spec fn wf(v: Self::V) -> bool;

    /// The byte encoding of an abstract value.
    spec fn enc(v: Self::V) -> Seq<u8>;

    /// Append the encoding of `self` to `out`.
    fn write(&self, out: &mut Vec<u8>)
        requires
            Self::wf(self@),
        ensures
            final(out)@ == old(out)@ + Self::enc(self@),
    ;

    /// Read back the value whose encoding is known to sit at `pos`.
    fn parse(bytes: &[u8], pos: usize, v: Ghost<Self::V>) -> (r: (Self, usize))
        requires
            Self::wf(v@),
            starts_at(bytes@, pos as int, Self::enc(v@)),
        ensures
            r.0@ == v@,
            r.1 == pos + Self::enc(v@).len(),
    ;
}

/// The element-wise views of a sequence of values.
pub open spec fn views_of<T: View>(s: Seq<T>) -> Seq<T::V> {
    s.map_values(|t: T| t@)
}

/// The concatenation of the encodings of a sequence of values.
pub open spec fn enc_items<T: Codec>(vs: Seq<T::V>) -> Seq<u8>
    decreases vs.len(),
{
    if vs.len() == 0 {
        Seq::empty()
    } else {
        T::enc(vs[0]) + enc_items::<T>(vs.drop_first())
    }
}

pub open spec fn wf_items<T: Codec>(vs: Seq<T::V>) -> bool {
    forall|i: int| 0 <= i < vs.len() ==> T::wf(#[trigger] vs[i])
}

/// A length-prefixed sequence of encoded values.
pub open spec fn enc_list<T: Codec>(vs: Seq<T::V>) -> Seq<u8> {
    spec_u32_to_le_bytes(vs.len() as u32) + enc_items::<T>(vs)
}

pub open spec fn wf_list<T: Codec>(vs: Seq<T::V>) -> bool {
    wf_items::<T>(vs) && vs.len() <= u32::MAX
}

/// The encoded items split at any index `i`.
pub proof fn lemma_enc_items_split<T: Codec>(vs: Seq<T::V>, i: int)
    requires
        0 <= i <= vs.len(),
    ensures
        enc_items::<T>(vs) == enc_items::<T>(vs.take(i)) + enc_items::<T>(vs.skip(i)),
    decreases i,
{
    if i == 0 {
        assert(vs.take(0) =~= Seq::<T::V>::empty());
        assert(vs.skip(0) =~= vs);
        assert(enc_items::<T>(vs.take(0)) + enc_items::<T>(vs.skip(0)) =~= enc_items::<T>(vs));
    } else {
        lemma_enc_items_split::<T>(vs.drop_first(), i - 1);
        assert(vs.take(i).drop_first() =~= vs.drop_first().take(i - 1));
        assert(vs.skip(i) =~= vs.drop_first().skip(i - 1));
        assert(vs.take(i)[0] == vs[0]);
        assert(enc_items::<T>(vs.take(i)) == T::enc(vs[0]) + enc_items::<T>(
            vs.drop_first().take(i - 1),
        ));
        assert((T::enc(vs[0]) + enc_items::<T>(vs.drop_first().take(i - 1))) + enc_items::<T>(
            vs.skip(i),
        ) =~= T::enc(vs[0]) + (enc_items::<T>(vs.drop_first().take(i - 1)) + enc_items::<T>(
            vs.drop_first().skip(i - 1),
        )));
    }
}

/// Appending one value to a sequence appends its encoding.
pub proof fn lemma_enc_items_push<T: Codec>(vs: Seq<T::V>, v: T::V)
    ensures
        enc_items::<T>(vs.push(v)) == enc_items::<T>(vs) + T::enc(v),
{
    lemma_enc_items_split::<T>(vs.push(v), vs.len() as int);
    assert(vs.push(v).take(vs.len() as int) =~= vs);
    let s1 = seq![v];
    assert(vs.push(v).skip(vs.len() as int) =~= s1);
    assert(s1.len() == 1 && s1[0] == v);
    assert(s1.drop_first() =~= Seq::<T::V>::empty());
    assert(enc_items::<T>(s1) == T::enc(v) + enc_items::<T>(s1.drop_first()));
    assert(T::enc(v) + Seq::<u8>::empty() =~= T::enc(v));
}

/// When every encoding has the same width `w`, the items occupy `w * n` bytes.
pub proof fn lemma_enc_items_len_fixed<T: Codec>(vs: Seq<T::V>, w: nat)
    requires
        forall|v: T::V| (#[trigger] T::enc(v)).len() == w,
    ensures
        enc_items::<T>(vs).len() == w * vs.len(),
    decreases vs.len(),
{
    if vs.len() == 0 {
    } else {
        lemma_enc_items_len_fixed::<T>(vs.drop_first(), w);
        assert(w * vs.len() == w + w * (vs.len() - 1)) by (nonlinear_arith);
    }
}

/// Within a run of encoded items, the `i`-th encoding sits right after
/// the encodings of the first `i` items.
pub proof fn lemma_items_entry<T: Codec>(b: Seq<u8>, base: int, vs: Seq<T::V>, i: int)
    requires
        starts_at(b, base, enc_items::<T>(vs)),
        0 <= i < vs.len(),
    ensures
        enc_items::<T>(vs.take(i)).len() + T::enc(vs[i]).len() <= enc_items::<T>(vs).len(),
        starts_at(b, base + enc_items::<T>(vs.take(i)).len(), T::enc(vs[i])),
{
    lemma_enc_items_split::<T>(vs, i);
    lemma_starts_at_concat(b, base, enc_items::<T>(vs.take(i)), enc_items::<T>(vs.skip(i)));
    assert(vs.skip(i)[0] == vs[i]);
    assert(vs.skip(i).drop_first() =~= vs.skip(i + 1));
    assert(enc_items::<T>(vs.skip(i)) == T::enc(vs[i]) + enc_items::<T>(vs.skip(i + 1)));
    lemma_starts_at_concat(
        b,
        base + enc_items::<T>(vs.take(i)).len(),
        T::enc(vs[i]),
        enc_items::<T>(vs.skip(i + 1)),
    );
}

/// Write every item of `xs`, back to back.
pub fn write_items<T: Codec>(xs: &Vec<T>, out: &mut Vec<u8>)
    requires
        wf_items::<T>(views_of(xs@)),
    ensures
        final(out)@ == old(out)@ + enc_items::<T>(views_of(xs@)),
{
    let ghost vs = views_of(xs@);
    let ghost base = out@;
    let mut i: usize = 0;
    assert(out@ =~= base + enc_items::<T>(vs.take(0)));
    while i < xs.len()
        invariant
            i <= xs.len(),
            vs == views_of(xs@),
            wf_items::<T>(vs),
            base == old(out)@,
            out@ == base + enc_items::<T>(vs.take(i as int)),
        decreases xs.len() - i,
    {
        assert(vs[i as int] == xs@[i as int]@);
        xs[i].write(out);
        proof {
            lemma_enc_items_push::<T>(vs.take(i as int), vs[i as int]);
            assert(vs.take(i as int).push(vs[i as int]) =~= vs.take(i + 1));
            assert((base + enc_items::<T>(vs.take(i as int))) + T::enc(vs[i as int]) =~= base
                + enc_items::<T>(vs.take(i + 1)));
        }
        i = i + 1;
    }
    assert(vs.take(vs.len() as int) =~= vs);
}

/// Write every item of `xs`, prefixed with the item count.
pub fn write_list<T: Codec>(xs: &Vec<T>, out: &mut Vec<u8>)
    requires
        wf_list::<T>(views_of(xs@)),
    ensures
        final(out)@ == old(out)@ + enc_list::<T>(views_of(xs@)),
{
    let ghost vs = views_of(xs@);
    let n: u32 = xs.len() as u32;
    let mut len_bytes = u32_to_le_bytes(n);
    out.append(&mut len_bytes);
    assert(out@ =~= old(out)@ + spec_u32_to_le_bytes(vs.len() as u32));
    write_items::<T>(xs, out);
    assert(old(out)@ + spec_u32_to_le_bytes(vs.len() as u32) + enc_items::<T>(vs) =~= old(out)@
        + enc_list::<T>(vs));
}

/// Parse a length-prefixed sequence of values known to sit at `pos`.
pub fn parse_list<T: Codec>(bytes: &[u8], pos: usize, vs: Ghost<Seq<T::V>>) -> (r: (Vec<T>, usize))
    requires
        wf_list::<T>(vs@),
        starts_at(bytes@, pos as int, enc_list::<T>(vs@)),
    ensures
        views_of(r.0@) == vs@,
        r.1 == pos + enc_list::<T>(vs@).len(),
{
    let total = bytes.len();
    proof {
        lemma_auto_spec_u32_to_from_le_bytes();
        lemma_starts_at_concat(
            bytes@,
            pos as int,
            spec_u32_to_le_bytes(vs@.len() as u32),
            enc_items::<T>(vs@),
        );
    }
    let n = parse_u32(bytes, pos, Ghost(vs@.len() as u32));
    assert(pos + 4 <= total);
    let (out, end) = parse_items::<T>(bytes, pos + 4, n as usize, vs);
    (out, end)
}

/// Parse `count` back-to-back values known to sit at `pos`.
pub fn parse_items<T: Codec>(bytes: &[u8], pos: usize, count: usize, vs: Ghost<Seq<T::V>>) -> (r: (
    Vec<T>,
    usize,
))
    requires
        wf_items::<T>(vs@),
        count == vs@.len(),
        starts_at(bytes@, pos as int, enc_items::<T>(vs@)),
    ensures
        views_of(r.0@) == vs@,
        r.1 == pos + enc_items::<T>(vs@).len(),
{
    let mut cur: usize = pos;
    let mut out: Vec<T> = Vec::new();
    assert(views_of(out@) =~= vs@.take(0));
    assert(vs@.skip(0) =~= vs@);
    let mut i: usize = 0;
    while i < count
        invariant
            count == vs@.len(),
            wf_items::<T>(vs@),
            i <= vs@.len(),
            out@.len() == i,
            views_of(out@) == vs@.take(i as int),
            cur == pos + enc_items::<T>(vs@.take(i as int)).len(),
            starts_at(bytes@, cur as int, enc_items::<T>(vs@.skip(i as int))),
        decreases count - i,
    {
        proof {
            assert(vs@.skip(i as int)[0] == vs@[i as int]);
            assert(vs@.skip(i as int).drop_first() =~= vs@.skip(i + 1));
            assert(enc_items::<T>(vs@.skip(i as int)) == T::enc(vs@[i as int]) + enc_items::<T>(
                vs@.skip(i + 1),
            ));
            lemma_starts_at_concat(
                bytes@,
                cur as int,
                T::enc(vs@[i as int]),
                enc_items::<T>(vs@.skip(i + 1)),
            );
        }
        let (item, next) = T::parse(bytes, cur, Ghost(vs@[i as int]));
        out.push(item);
        proof {
            assert(views_of(out@) =~= vs@.take(i + 1));
            lemma_enc_items_push::<T>(vs@.take(i as int), vs@[i as int]);
            assert(vs@.take(i as int).push(vs@[i as int]) =~= vs@.take(i + 1));
        }
        cur = next;
        i = i + 1;
    }
    assert(vs@.take(vs@.len() as int) =~= vs@);
    (out, cur)
}

/// Parse a `u32` stored as four little-endian bytes.
pub fn parse_u32(bytes: &[u8], pos: usize, v: Ghost<u32>) -> (r: u32)
    requires
        starts_at(bytes@, pos as int, spec_u32_to_le_bytes(v@)),
    ensures
        r == v@,
{
    let total = bytes.len();
    proof {
        lemma_auto_spec_u32_to_from_le_bytes();
    }
    assert(pos + 4 <= total);
    let s = slice_subrange(bytes, pos, pos + 4);
    u32_from_le_bytes(s)
}

/// Parse a `u64` stored as eight little-endian bytes.
pub fn parse_u64(bytes: &[u8], pos: usize, v: Ghost<u64>) -> (r: u64)
    requires
        starts_at(bytes@, pos as int, spec_u64_to_le_bytes(v@)),
    ensures
        r == v@,
{
    let total = bytes.len();
    proof {
        lemma_auto_spec_u64_to_from_le_bytes();
    }
    assert(pos + 8 <= total);
    let s = slice_subrange(bytes, pos, pos + 8);
    u64_from_le_bytes(s)
}

/// Parse a `u128` stored as sixteen little-endian bytes.
pub fn parse_u128(bytes: &[u8], pos: usize, v: Ghost<u128>) -> (r: u128)
    requires
        starts_at(bytes@, pos as int, spec_u128_to_le_bytes(v@)),
    ensures
        r == v@,
{
    let total = bytes.len();
    proof {
        lemma_auto_spec_u128_to_from_le_bytes();
    }
    assert(pos + 16 <= total);
    let s = slice_subrange(bytes, pos, pos + 16);
    u128_from_le_bytes(s)
}

/// Parse a `u16` stored as two little-endian bytes.
pub fn parse_u16(bytes: &[u8], pos: usize, v: Ghost<u16>) -> (r: u16)
    requires
        starts_at(bytes@, pos as int, spec_u16_to_le_bytes(v@)),
    ensures
        r == v@,
{
    let total = bytes.len();
    proof {
        lemma_auto_spec_u16_to_from_le_bytes();
    }
    assert(pos + 2 <= total);
    let s = slice_subrange(bytes, pos, pos + 2);
    u16_from_le_bytes(s)
}

impl Codec for u16 {
    open spec fn wf(v: u16) -> bool {
        true
    }

    open spec fn enc(v: u16) -> Seq<u8> {
        spec_u16_to_le_bytes(v)
    }

    fn write(&self, out: &mut Vec<u8>) {
        let mut b = u16_to_le_bytes(*self);
        out.append(&mut b);
        assert(self@ == *self);
        assert(out@ =~= old(out)@ + Self::enc(self@));
    }

    fn parse(bytes: &[u8], pos: usize, v: Ghost<u16>) -> (r: (Self, usize)) {
        let total = bytes.len();
        proof {
            lemma_auto_spec_u16_to_from_le_bytes();
        }
        let x = parse_u16(bytes, pos, v);
        assert(pos + 2 <= total);
        (x, pos + 2)
    }
}

impl Codec for u32 {
    open spec fn wf(v: u32) -> bool {
        true
    }

    open spec fn enc(v: u32) -> Seq<u8> {
        spec_u32_to_le_bytes(v)
    }

    fn write(&self, out: &mut Vec<u8>) {
        let mut b = u32_to_le_bytes(*self);
        out.append(&mut b);
        assert(self@ == *self);
        assert(out@ =~= old(out)@ + Self::enc(self@));
    }

    fn parse(bytes: &[u8], pos: usize, v: Ghost<u32>) -> (r: (Self, usize)) {
        let total = bytes.len();
        proof {
            lemma_auto_spec_u32_to_from_le_bytes();
        }
        let x = parse_u32(bytes, pos, v);
        assert(pos + 4 <= total);
        (x, pos + 4)
    }
}

impl Codec for u64 {
    open spec fn wf(v: u64) -> bool {
        true
    }

    open spec fn enc(v: u64) -> Seq<u8> {
        spec_u64_to_le_bytes(v)
    }

    fn write(&self, out: &mut Vec<u8>) {
        let mut b = u64_to_le_bytes(*self);
        out.append(&mut b);
        assert(self@ == *self);
        assert(out@ =~= old(out)@ + Self::enc(self@));
    }

    fn parse(bytes: &[u8], pos: usize, v: Ghost<u64>) -> (r: (Self, usize)) {
        let total = bytes.len();
        proof {
            lemma_auto_spec_u64_to_from_le_bytes();
        }
        let x = parse_u64(bytes, pos, v);
        assert(pos + 8 <= total);
        (x, pos + 8)
    }
}

impl Codec for u128 {
    open spec fn wf(v: u128) -> bool {
        true
    }

    open spec fn enc(v: u128) -> Seq<u8> {
        spec_u128_to_le_bytes(v)
    }

    fn write(&self, out: &mut Vec<u8>) {
        let mut b = u128_to_le_bytes(*self);
        out.append(&mut b);
        assert(self@ == *self);
        assert(out@ =~= old(out)@ + Self::enc(self@));
    }

    fn parse(bytes: &[u8], pos: usize, v: Ghost<u128>) -> (r: (Self, usize)) {
        let total = bytes.len();
        proof {
            lemma_auto_spec_u128_to_from_le_bytes();
        }
        let x = parse_u128(bytes, pos, v);
        assert(pos + 16 <= total);
        (x, pos + 16)
    }
}

/// A single byte, `1` for true and `0` for false.
pub open spec fn enc_bool(v: bool) -> Seq<u8> {
    seq![if v { 1u8 } else { 0u8 }]
}

impl Codec for bool {
    open spec fn wf(v: bool) -> bool {
        true
    }

    open spec fn enc(v: bool) -> Seq<u8> {
        enc_bool(v)
    }

    fn write(&self, out: &mut Vec<u8>) {
        out.push(if *self { 1u8 } else { 0u8 });
        assert(self@ == *self);
        assert(out@ =~= old(out)@ + Self::enc(self@));
    }

    fn parse(bytes: &[u8], pos: usize, v: Ghost<bool>) -> (r: (Self, usize)) {
        let total = bytes.len();
        assert(bytes@.subrange(pos as int, pos + 1)[0] == enc_bool(v@)[0]);
        let b = *slice_index_get(bytes, pos);
        (b == 1u8, pos + 1)
    }
}

/// Variable-length byte strings are stored with a `u32` length prefix.
pub open spec fn enc_bytes(v: Seq<u8>) -> Seq<u8> {
    spec_u32_to_le_bytes(v.len() as u32) + v
}

pub open spec fn wf_bytes(v: Seq<u8>) -> bool {
    v.len() <= u32::MAX
}

impl Codec for Vec<u8> {
    open spec fn wf(v: Seq<u8>) -> bool {
        wf_bytes(v)
    }

    open spec fn enc(v: Seq<u8>) -> Seq<u8> {
        enc_bytes(v)
    }

    fn write(&self, out: &mut Vec<u8>) {
        let mut b = u32_to_le_bytes(self.len() as u32);
        out.append(&mut b);
        let mut data = self.clone();
        assert(data@ =~= self@);
        out.append(&mut data);
        assert(out@ =~= old(out)@ + Self::enc(self@));
    }

    fn parse(bytes: &[u8], pos: usize, v: Ghost<Seq<u8>>) -> (r: (Self, usize)) {
        let total = bytes.len();
        proof {
            lemma_auto_spec_u32_to_from_le_bytes();
            lemma_starts_at_concat(bytes@, pos as int, spec_u32_to_le_bytes(v@.len() as u32), v@);
        }
        let n = parse_u32(bytes, pos, Ghost(v@.len() as u32));
        assert(pos + 4 + n as usize <= total);
        let s = slice_subrange(bytes, pos + 4, pos + 4 + n as usize);
        let data = slice_to_vec(s);
        assert(data@ =~= v@);
        (data, pos + 4 + n as usize)
    }
}

} // verus!
