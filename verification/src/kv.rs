//! The columnar key-value model.
//!
//! Each column is a keyspace of byte keys and byte values, abstracted as
//! a `Map<Seq<u8>, Seq<u8>>`. Mutation goes through atomic batches: a
//! batch accumulates insert and delete operations and is applied in one
//! step; an unapplied batch leaves no trace.

use vstd::prelude::*;
use vstd::std_specs::cmp::PartialEqSpec;

verus! {

/// Number of columns of the chain store.
pub const COLUMNS: u32 = 13;

pub const COLUMN_BLOCK_HEADER: u32 = 0;

pub const COLUMN_BLOCK_BODY: u32 = 1;

pub const COLUMN_BLOCK_UNCLE: u32 = 2;

pub const COLUMN_BLOCK_PROPOSAL_IDS: u32 = 3;

pub const COLUMN_BLOCK_EXT: u32 = 4;

pub const COLUMN_BLOCK_EPOCH: u32 = 5;

pub const COLUMN_INDEX: u32 = 6;

pub const COLUMN_META: u32 = 7;

pub const COLUMN_TRANSACTION_ADDR: u32 = 8;

pub const COLUMN_CELL_META: u32 = 9;

pub const COLUMN_CELL_SET: u32 = 10;

pub const COLUMN_EPOCH: u32 = 11;

pub const COLUMN_UNCLES: u32 = 12;

/// Byte equality of two vectors.
pub fn bytes_eq(a: &Vec<u8>, b: &Vec<u8>) -> (r: bool)
    ensures
        r == (a@ == b@),
{
    let r = *a == *b;
    proof {
        if r {
            assert(a@ =~= b@);
        } else {
            if a@ == b@ {
                assert(a.eq_spec(b)) by {
                    assert(a.len() == b.len());
                    assert(forall|i: int|
                        0 <= i < a.len() ==> (#[trigger] a[i]) == b[i]);
                }
            }
        }
    }
    r
}

/// Copy a byte vector.
pub fn bytes_clone(a: &Vec<u8>) -> (r: Vec<u8>)
    ensures
        r@ == a@,
{
    let r = a.clone();
    assert(r@ =~= a@);
    r
}

/// One stored pair.
pub struct KvEntry {
    pub key: Vec<u8>,
    pub value: Vec<u8>,
}

impl View for KvEntry {
    type V = (Seq<u8>, Seq<u8>);

    open spec fn view(&self) -> (Seq<u8>, Seq<u8>) {
        (self.key@, self.value@)
    }
}

/// No key occurs twice.
pub open spec fn unique_keys(s: Seq<(Seq<u8>, Seq<u8>)>) -> bool {
    forall|i: int, j: int| 0 <= i < j < s.len() ==> (#[trigger] s[i]).0 != (#[trigger] s[j]).0
}

/// The map held by a run of entries; later entries win.
pub open spec fn entries_map(s: Seq<(Seq<u8>, Seq<u8>)>) -> Map<Seq<u8>, Seq<u8>>
    decreases s.len(),
{
    if s.len() == 0 {
        Map::empty()
    } else {
        entries_map(s.drop_last()).insert(s.last().0, s.last().1)
    }
}

pub proof fn lemma_entries_map_index(s: Seq<(Seq<u8>, Seq<u8>)>, i: int)
    requires
        unique_keys(s),
        0 <= i < s.len(),
    ensures
        entries_map(s).contains_key(s[i].0),
        entries_map(s)[s[i].0] == s[i].1,
    decreases s.len(),
{
    if i == s.len() - 1 {
    } else {
        assert(unique_keys(s.drop_last())) by {
            assert(forall|x: int, y: int|
                0 <= x < y < s.len() - 1 ==> (#[trigger] s.drop_last()[x]).0 != (
                #[trigger] s.drop_last()[y]).0);
        }
        lemma_entries_map_index(s.drop_last(), i);
        assert(s.drop_last()[i] == s[i]);
        assert(s[i].0 != s.last().0);
    }
}

pub proof fn lemma_entries_map_absent(s: Seq<(Seq<u8>, Seq<u8>)>, k: Seq<u8>)
    requires
        forall|i: int| 0 <= i < s.len() ==> (#[trigger] s[i]).0 != k,
    ensures
        !entries_map(s).contains_key(k),
    decreases s.len(),
{
    if s.len() == 0 {
    } else {
        assert(forall|i: int|
            0 <= i < s.len() - 1 ==> (#[trigger] s.drop_last()[i]).0 != k);
        lemma_entries_map_absent(s.drop_last(), k);
        assert(s.last().0 != k);
    }
}

pub proof fn lemma_entries_map_update(s: Seq<(Seq<u8>, Seq<u8>)>, i: int, v: Seq<u8>)
    requires
        unique_keys(s),
        0 <= i < s.len(),
    ensures
        entries_map(s.update(i, (s[i].0, v))) == entries_map(s).insert(s[i].0, v),
    decreases s.len(),
{
    let k = s[i].0;
    let s2 = s.update(i, (k, v));
    if i == s.len() - 1 {
        assert(s2.drop_last() =~= s.drop_last());
        assert(s2.last() == (k, v));
        assert(entries_map(s2) == entries_map(s.drop_last()).insert(k, v));
        assert(entries_map(s.drop_last()).insert(k, s.last().1).insert(k, v) =~= entries_map(
            s.drop_last(),
        ).insert(k, v));
    } else {
        assert(unique_keys(s.drop_last())) by {
            assert(forall|x: int, y: int|
                0 <= x < y < s.len() - 1 ==> (#[trigger] s.drop_last()[x]).0 != (
                #[trigger] s.drop_last()[y]).0);
        }
        assert(s.drop_last()[i] == s[i]);
        lemma_entries_map_update(s.drop_last(), i, v);
        assert(s2.drop_last() =~= s.drop_last().update(i, (k, v)));
        assert(s2.last() == s.last());
        // the two inserted keys differ, so the inserts commute
        assert(k != s.last().0);
        assert(entries_map(s.drop_last()).insert(k, v).insert(s.last().0, s.last().1)
            =~= entries_map(s.drop_last()).insert(s.last().0, s.last().1).insert(k, v));
    }
}

pub proof fn lemma_entries_map_remove(s: Seq<(Seq<u8>, Seq<u8>)>, i: int)
    requires
        unique_keys(s),
        0 <= i < s.len(),
    ensures
        entries_map(s.remove(i)) == entries_map(s).remove(s[i].0),
    decreases s.len(),
{
    let k = s[i].0;
    if i == s.len() - 1 {
        assert(s.remove(i) =~= s.drop_last());
        assert(forall|j: int|
            0 <= j < s.len() - 1 ==> (#[trigger] s.drop_last()[j]).0 != k);
        lemma_entries_map_absent(s.drop_last(), k);
        assert(entries_map(s.drop_last()).insert(k, s.last().1).remove(k) =~= entries_map(
            s.drop_last(),
        ));
    } else {
        assert(unique_keys(s.drop_last())) by {
            assert(forall|x: int, y: int|
                0 <= x < y < s.len() - 1 ==> (#[trigger] s.drop_last()[x]).0 != (
                #[trigger] s.drop_last()[y]).0);
        }
        assert(s.drop_last()[i] == s[i]);
        lemma_entries_map_remove(s.drop_last(), i);
        assert(s.remove(i).drop_last() =~= s.drop_last().remove(i));
        assert(s.remove(i).last() == s.last());
        assert(k != s.last().0);
        assert(entries_map(s.drop_last()).remove(k).insert(s.last().0, s.last().1) =~= entries_map(
            s.drop_last(),
        ).insert(s.last().0, s.last().1).remove(k));
    }
}

/// One keyspace of the store.
pub struct Column {
    pub entries: Vec<KvEntry>,
}

impl View for Column {
    type V = Map<Seq<u8>, Seq<u8>>;

    open spec fn view(&self) -> Map<Seq<u8>, Seq<u8>> {
        entries_map(self.entry_views())
    }
}

impl Column {
    pub open spec fn entry_views(&self) -> Seq<(Seq<u8>, Seq<u8>)> {
        crate::codec::views_of(self.entries@)
    }

    pub open spec fn wf(&self) -> bool {
        unique_keys(self.entry_views())
    }

    pub fn new() -> (r: Self)
        ensures
            r.wf(),
            r@ == Map::<Seq<u8>, Seq<u8>>::empty(),
    {
        let c = Column { entries: Vec::new() };
        assert(c.entry_views() =~= Seq::<(Seq<u8>, Seq<u8>)>::empty());
        c
    }

    /// Index of the entry holding `key`, if any.
    fn find(&self, key: &Vec<u8>) -> (r: Option<usize>)
        ensures
            match r {
                Option::Some(i) => i < self.entries@.len() && self.entry_views()[i as int].0
                    == key@,
                Option::None => forall|i: int|
                    0 <= i < self.entry_views().len() ==> (#[trigger] self.entry_views()[i]).0
                        != key@,
            },
    {
        let mut i: usize = 0;
        while i < self.entries.len()
            invariant
                i <= self.entries@.len(),
                forall|j: int|
                    0 <= j < i ==> (#[trigger] self.entry_views()[j]).0 != key@,
            decreases self.entries@.len() - i,
        {
            if bytes_eq(&self.entries[i].key, key) {
                return Option::Some(i);
            }
            i = i + 1;
        }
        Option::None
    }

    /// Current value under `key`.
    pub fn get(&self, key: &Vec<u8>) -> (r: Option<Vec<u8>>)
        requires
            self.wf(),
        ensures
            match r {
                Option::Some(v) => self@.contains_key(key@) && v@ == self@[key@],
                Option::None => !self@.contains_key(key@),
            },
    {
        match self.find(key) {
            Option::Some(i) => {
                proof {
                    lemma_entries_map_index(self.entry_views(), i as int);
                }
                Option::Some(bytes_clone(&self.entries[i].value))
            },
            Option::None => {
                proof {
                    lemma_entries_map_absent(self.entry_views(), key@);
                }
                Option::None
            },
        }
    }

    /// Insert or overwrite.
    pub fn put(&mut self, key: Vec<u8>, value: Vec<u8>)
        requires
            old(self).wf(),
        ensures
            final(self).wf(),
            final(self)@ == old(self)@.insert(key@, value@),
    {
        match self.find(&key) {
            Option::Some(i) => {
                let ghost s = self.entry_views();
                proof {
                    lemma_entries_map_update(s, i as int, value@);
                }
                self.entries[i] = KvEntry { key, value };
                assert(self.entry_views() =~= s.update(i as int, (s[i as int].0, value@)));
                assert(self.wf()) by {
                    assert(forall|x: int, y: int|
                        0 <= x < y < self.entry_views().len() ==> (#[trigger] self.entry_views()[x]).0
                            != (#[trigger] self.entry_views()[y]).0);
                }
            },
            Option::None => {
                let ghost s = self.entry_views();
                let ghost kk = key@;
                let ghost vv = value@;
                proof {
                    lemma_entries_map_absent(s, kk);
                }
                self.entries.push(KvEntry { key, value });
                assert(self.entry_views() =~= s.push((kk, vv)));
                assert(self.entry_views().drop_last() =~= s);
                assert(self@ == old(self)@.insert(kk, vv));
                assert(self.wf()) by {
                    assert(forall|x: int, y: int|
                        0 <= x < y < self.entry_views().len() ==> (#[trigger] self.entry_views()[x]).0
                            != (#[trigger] self.entry_views()[y]).0);
                }
            },
        }
    }

    /// Delete, a no-op when the key is absent.
    pub fn del(&mut self, key: &Vec<u8>)
        requires
            old(self).wf(),
        ensures
            final(self).wf(),
            final(self)@ == old(self)@.remove(key@),
    {
        match self.find(key) {
            Option::Some(i) => {
                let ghost s = self.entry_views();
                proof {
                    lemma_entries_map_remove(s, i as int);
                }
                self.entries.remove(i);
                assert(self.entry_views() =~= s.remove(i as int));
                assert(self.wf()) by {
                    assert(forall|x: int, y: int|
                        0 <= x < y < self.entry_views().len() ==> (#[trigger] self.entry_views()[x]).0
                            != (#[trigger] self.entry_views()[y]).0);
                }
            },
            Option::None => {
                proof {
                    lemma_entries_map_absent(self.entry_views(), key@);
                    assert(self@.remove(key@) =~= self@);
                }
            },
        }
    }

    /// Every stored pair, in storage order.
    pub fn snapshot(&self) -> (r: Vec<(Vec<u8>, Vec<u8>)>)
        ensures
            r@.len() == self.entry_views().len(),
            forall|i: int|
                0 <= i < r@.len() ==> (#[trigger] r@[i]).0@ == self.entry_views()[i].0 && r@[i].1@
                    == self.entry_views()[i].1,
    {
        let mut r: Vec<(Vec<u8>, Vec<u8>)> = Vec::new();
        let mut i: usize = 0;
        while i < self.entries.len()
            invariant
                i <= self.entries@.len(),
                r@.len() == i,
                forall|j: int|
                    0 <= j < i ==> (#[trigger] r@[j]).0@ == self.entry_views()[j].0 && r@[j].1@
                        == self.entry_views()[j].1,
            decreases self.entries@.len() - i,
        {
            let k = bytes_clone(&self.entries[i].key);
            let v = bytes_clone(&self.entries[i].value);
            r.push((k, v));
            i = i + 1;
        }
        r
    }
}

/// One buffered mutation.
pub enum KvOp {
    Insert { col: u32, key: Vec<u8>, value: Vec<u8> },
    Delete { col: u32, key: Vec<u8> },
}

pub ghost enum KvOpV {
    Insert { col: u32, key: Seq<u8>, value: Seq<u8> },
    Delete { col: u32, key: Seq<u8> },
}

impl View for KvOp {
    type V = KvOpV;

    open spec fn view(&self) -> KvOpV {
        match self {
            KvOp::Insert { col, key, value } => KvOpV::Insert {
                col: *col,
                key: key@,
                value: value@,
            },
            KvOp::Delete { col, key } => KvOpV::Delete { col: *col, key: key@ },
        }
    }
}

pub open spec fn op_col(op: KvOpV) -> u32 {
    match op {
        KvOpV::Insert { col, .. } => col,
        KvOpV::Delete { col, .. } => col,
    }
}

pub open spec fn ops_in_range(ops: Seq<KvOpV>) -> bool {
    forall|i: int| 0 <= i < ops.len() ==> op_col(#[trigger] ops[i]) < COLUMNS
}

/// The effect of one operation on the column maps.
pub open spec fn apply_op(m: Seq<Map<Seq<u8>, Seq<u8>>>, op: KvOpV) -> Seq<Map<Seq<u8>, Seq<u8>>> {
    match op {
        KvOpV::Insert { col, key, value } => m.update(col as int, m[col as int].insert(key, value)),
        KvOpV::Delete { col, key } => m.update(col as int, m[col as int].remove(key)),
    }
}

/// The effect of a whole batch, first operation first.
pub open spec fn apply_ops(m: Seq<Map<Seq<u8>, Seq<u8>>>, ops: Seq<KvOpV>) -> Seq<
    Map<Seq<u8>, Seq<u8>>,
>
    decreases ops.len(),
{
    if ops.len() == 0 {
        m
    } else {
        apply_ops(apply_op(m, ops[0]), ops.drop_first())
    }
}

/// Batches compose: applying two batches in turn is applying their
/// concatenation.
pub proof fn lemma_apply_ops_concat(
    m: Seq<Map<Seq<u8>, Seq<u8>>>,
    s1: Seq<KvOpV>,
    s2: Seq<KvOpV>,
)
    ensures
        apply_ops(m, s1 + s2) == apply_ops(apply_ops(m, s1), s2),
    decreases s1.len(),
{
    if s1.len() == 0 {
        assert(s1 + s2 =~= s2);
    } else {
        assert((s1 + s2)[0] == s1[0]);
        assert((s1 + s2).drop_first() =~= s1.drop_first() + s2);
        lemma_apply_ops_concat(apply_op(m, s1[0]), s1.drop_first(), s2);
    }
}

/// The whole columnar store.
pub struct KeyValueStore {
    pub col_header: Column,
    pub col_body: Column,
    pub col_uncle: Column,
    pub col_proposal_ids: Column,
    pub col_block_ext: Column,
    pub col_block_epoch: Column,
    pub col_index: Column,
    pub col_meta: Column,
    pub col_tx_addr: Column,
    pub col_cell_meta: Column,
    pub col_cell_set: Column,
    pub col_epoch: Column,
    pub col_uncles: Column,
}

impl View for KeyValueStore {
    type V = Seq<Map<Seq<u8>, Seq<u8>>>;

    open spec fn view(&self) -> Seq<Map<Seq<u8>, Seq<u8>>> {
        seq![
            self.col_header@,
            self.col_body@,
            self.col_uncle@,
            self.col_proposal_ids@,
            self.col_block_ext@,
            self.col_block_epoch@,
            self.col_index@,
            self.col_meta@,
            self.col_tx_addr@,
            self.col_cell_meta@,
            self.col_cell_set@,
            self.col_epoch@,
            self.col_uncles@,
        ]
    }
}

impl KeyValueStore {
    pub open spec fn wf(&self) -> bool {
        &&& self.col_header.wf()
        &&& self.col_body.wf()
        &&& self.col_uncle.wf()
        &&& self.col_proposal_ids.wf()
        &&& self.col_block_ext.wf()
        &&& self.col_block_epoch.wf()
        &&& self.col_index.wf()
        &&& self.col_meta.wf()
        &&& self.col_tx_addr.wf()
        &&& self.col_cell_meta.wf()
        &&& self.col_cell_set.wf()
        &&& self.col_epoch.wf()
        &&& self.col_uncles.wf()
    }

    /// A fresh store: every column empty.
    pub fn open() -> (r: Self)
        ensures
            r.wf(),
            r@.len() == COLUMNS,
            forall|c: int| 0 <= c < COLUMNS ==> (#[trigger] r@[c]) == Map::<Seq<u8>, Seq<u8>>::empty(),
    {
        KeyValueStore {
            col_header: Column::new(),
            col_body: Column::new(),
            col_uncle: Column::new(),
            col_proposal_ids: Column::new(),
            col_block_ext: Column::new(),
            col_block_epoch: Column::new(),
            col_index: Column::new(),
            col_meta: Column::new(),
            col_tx_addr: Column::new(),
            col_cell_meta: Column::new(),
            col_cell_set: Column::new(),
            col_epoch: Column::new(),
            col_uncles: Column::new(),
        }
    }

    fn col_ref(&self, col: u32) -> (r: &Column)
        requires
            col < COLUMNS,
        ensures
            r@ == self@[col as int],
            self.wf() ==> r.wf(),
    {
        if col == 0 {
            &self.col_header
        } else if col == 1 {
            &self.col_body
        } else if col == 2 {
            &self.col_uncle
        } else if col == 3 {
            &self.col_proposal_ids
        } else if col == 4 {
            &self.col_block_ext
        } else if col == 5 {
            &self.col_block_epoch
        } else if col == 6 {
            &self.col_index
        } else if col == 7 {
            &self.col_meta
        } else if col == 8 {
            &self.col_tx_addr
        } else if col == 9 {
            &self.col_cell_meta
        } else if col == 10 {
            &self.col_cell_set
        } else if col == 11 {
            &self.col_epoch
        } else {
            &self.col_uncles
        }
    }

    /// The current value under `key` in column `col`.
    pub fn read(&self, col: u32, key: &Vec<u8>) -> (r: Option<Vec<u8>>)
        requires
            self.wf(),
            col < COLUMNS,
        ensures
            match r {
                Option::Some(v) => self@[col as int].contains_key(key@) && v@ == self@[col as int][key@],
                Option::None => !self@[col as int].contains_key(key@),
            },
    {
        self.col_ref(col).get(key)
    }

    /// A byte range of the value under `key`, without handing out the rest.
    pub fn partial_read(&self, col: u32, key: &Vec<u8>, from: usize, to: usize) -> (r: Option<
        Vec<u8>,
    >)
        requires
            self.wf(),
            col < COLUMNS,
        ensures
            match r {
                Option::Some(v) => self@[col as int].contains_key(key@) && from <= to <= self@[col as int][key@].len()
                    && v@ == self@[col as int][key@].subrange(from as int, to as int),
                Option::None => !self@[col as int].contains_key(key@) || !(from <= to
                    <= self@[col as int][key@].len()),
            },
    {
        match self.col_ref(col).get(key) {
            Option::Some(v) => {
                if from <= to && to <= v.len() {
                    let s = vstd::slice::slice_subrange(v.as_slice(), from, to);
                    Option::Some(vstd::slice::slice_to_vec(s))
                } else {
                    Option::None
                }
            },
            Option::None => Option::None,
        }
    }

    /// Every pair of the column, in storage order.
    pub fn snapshot(&self, col: u32) -> (r: Vec<(Vec<u8>, Vec<u8>)>)
        requires
            self.wf(),
            col < COLUMNS,
        ensures
            forall|i: int, j: int| 0 <= i < j < r@.len() ==> (#[trigger] r@[i]).0@ != (
            #[trigger] r@[j]).0@,
            forall|i: int|
                0 <= i < r@.len() ==> self@[col as int].contains_key((#[trigger] r@[i]).0@)
                    && self@[col as int][r@[i].0@] == r@[i].1@,
            forall|k: Seq<u8>|
                self@[col as int].contains_key(k) ==> exists|i: int|
                    0 <= i < r@.len() && (#[trigger] r@[i]).0@ == k,
    {
        let c = self.col_ref(col);
        let r = c.snapshot();
        proof {
            assert forall|i: int| 0 <= i < r@.len() implies self@[col as int].contains_key(
                (#[trigger] r@[i]).0@,
            ) && self@[col as int][r@[i].0@] == r@[i].1@ by {
                lemma_entries_map_index(c.entry_views(), i);
            }
            assert forall|k: Seq<u8>| self@[col as int].contains_key(k) implies exists|i: int|
                0 <= i < r@.len() && (#[trigger] r@[i]).0@ == k by {
                if forall|i: int|
                    0 <= i < c.entry_views().len() ==> (#[trigger] c.entry_views()[i]).0 != k {
                    lemma_entries_map_absent(c.entry_views(), k);
                }
                let i = choose|i: int|
                    0 <= i < c.entry_views().len() && (#[trigger] c.entry_views()[i]).0 == k;
                assert(r@[i].0@ == k);
            }
            assert forall|i: int, j: int| 0 <= i < j < r@.len() implies (#[trigger] r@[i]).0@ != (
            #[trigger] r@[j]).0@ by {
                assert(c.entry_views()[i].0 == r@[i].0@);
                assert(c.entry_views()[j].0 == r@[j].0@);
            }
        }
        r
    }

    fn put(&mut self, col: u32, key: Vec<u8>, value: Vec<u8>)
        requires
            old(self).wf(),
            col < COLUMNS,
        ensures
            final(self).wf(),
            final(self)@ == old(self)@.update(
                col as int,
                old(self)@[col as int].insert(key@, value@),
            ),
    {
        if col == 0 {
            self.col_header.put(key, value);
        } else if col == 1 {
            self.col_body.put(key, value);
        } else if col == 2 {
            self.col_uncle.put(key, value);
        } else if col == 3 {
            self.col_proposal_ids.put(key, value);
        } else if col == 4 {
            self.col_block_ext.put(key, value);
        } else if col == 5 {
            self.col_block_epoch.put(key, value);
        } else if col == 6 {
            self.col_index.put(key, value);
        } else if col == 7 {
            self.col_meta.put(key, value);
        } else if col == 8 {
            self.col_tx_addr.put(key, value);
        } else if col == 9 {
            self.col_cell_meta.put(key, value);
        } else if col == 10 {
            self.col_cell_set.put(key, value);
        } else if col == 11 {
            self.col_epoch.put(key, value);
        } else {
            self.col_uncles.put(key, value);
        }
        assert(self@ =~= old(self)@.update(col as int, old(self)@[col as int].insert(key@, value@)));
    }

    fn del(&mut self, col: u32, key: &Vec<u8>)
        requires
            old(self).wf(),
            col < COLUMNS,
        ensures
            final(self).wf(),
            final(self)@ == old(self)@.update(col as int, old(self)@[col as int].remove(key@)),
    {
        if col == 0 {
            self.col_header.del(key);
        } else if col == 1 {
            self.col_body.del(key);
        } else if col == 2 {
            self.col_uncle.del(key);
        } else if col == 3 {
            self.col_proposal_ids.del(key);
        } else if col == 4 {
            self.col_block_ext.del(key);
        } else if col == 5 {
            self.col_block_epoch.del(key);
        } else if col == 6 {
            self.col_index.del(key);
        } else if col == 7 {
            self.col_meta.del(key);
        } else if col == 8 {
            self.col_tx_addr.del(key);
        } else if col == 9 {
            self.col_cell_meta.del(key);
        } else if col == 10 {
            self.col_cell_set.del(key);
        } else if col == 11 {
            self.col_epoch.del(key);
        } else {
            self.col_uncles.del(key);
        }
        assert(self@ =~= old(self)@.update(col as int, old(self)@[col as int].remove(key@)));
    }

    /// Apply a batch atomically: readers of this store see either none
    /// or all of it, since the store is only reachable again once the
    /// whole batch is in.
    pub fn apply(&mut self, ops: &Vec<KvOp>)
        requires
            old(self).wf(),
            ops_in_range(crate::codec::views_of(ops@)),
        ensures
            final(self).wf(),
            final(self)@ == apply_ops(old(self)@, crate::codec::views_of(ops@)),
    {
        let ghost vs = crate::codec::views_of(ops@);
        let mut i: usize = 0;
        assert(vs.skip(0) =~= vs);
        while i < ops.len()
            invariant
                i <= ops@.len(),
                vs == crate::codec::views_of(ops@),
                ops_in_range(vs),
                self.wf(),
                apply_ops(old(self)@, vs) == apply_ops(self@, vs.skip(i as int)),
            decreases ops@.len() - i,
        {
            proof {
                assert(vs.skip(i as int)[0] == vs[i as int]);
                assert(vs.skip(i as int).drop_first() =~= vs.skip(i + 1));
            }
            match &ops[i] {
                KvOp::Insert { col, key, value } => {
                    let k = bytes_clone(key);
                    let v = bytes_clone(value);
                    self.put(*col, k, v);
                },
                KvOp::Delete { col, key } => {
                    self.del(*col, key);
                },
            }
            i = i + 1;
        }
        assert(vs.skip(vs.len() as int) =~= Seq::<KvOpV>::empty());
    }
}

} // verus!
