//! Bounded LRU caches for hot entities.
//!
//! Entries are kept oldest-first: a probe that hits moves its entry to
//! the back, and inserting into a full cache evicts the front — exactly
//! the least-recently-used entry. A zero capacity disables the cache.

use vstd::prelude::*;
use crate::kv::bytes_clone;
use crate::types::{CellOutput, CellOutputV, H256, Header, OutPoint};

verus! {

/// The cached header under `k`, most recent entry winning.
pub open spec fn header_lru_find(s: Seq<(H256, Header)>, k: H256) -> Option<Header>
    decreases s.len(),
{
    if s.len() == 0 {
        Option::None
    } else if s.last().0 == k {
        Option::Some(s.last().1)
    } else {
        header_lru_find(s.drop_last(), k)
    }
}

pub open spec fn header_lru_has(s: Seq<(H256, Header)>, k: H256) -> bool {
    exists|i: int| 0 <= i < s.len() && (#[trigger] s[i]).0 == k
}

pub open spec fn header_lru_distinct(s: Seq<(H256, Header)>) -> bool {
    forall|i: int, j: int| 0 <= i < j < s.len() ==> (#[trigger] s[i]).0 != (#[trigger] s[j]).0
}

proof fn lemma_header_lru_find_at(s: Seq<(H256, Header)>, i: int)
    requires
        header_lru_distinct(s),
        0 <= i < s.len(),
    ensures
        header_lru_find(s, s[i].0) == Option::Some(s[i].1),
    decreases s.len(),
{
    if i == s.len() - 1 {
    } else {
        assert(header_lru_distinct(s.drop_last())) by {
            assert(forall|x: int, y: int|
                0 <= x < y < s.len() - 1 ==> (#[trigger] s.drop_last()[x]).0 != (
                #[trigger] s.drop_last()[y]).0);
        }
        assert(s.drop_last()[i] == s[i]);
        lemma_header_lru_find_at(s.drop_last(), i);
        assert(s[i].0 != s.last().0);
    }
}

proof fn lemma_header_lru_find_absent(s: Seq<(H256, Header)>, k: H256)
    requires
        forall|i: int| 0 <= i < s.len() ==> (#[trigger] s[i]).0 != k,
    ensures
        header_lru_find(s, k) == Option::<Header>::None,
    decreases s.len(),
{
    if s.len() == 0 {
    } else {
        assert(forall|i: int| 0 <= i < s.len() - 1 ==> (#[trigger] s.drop_last()[i]).0 != k);
        lemma_header_lru_find_absent(s.drop_last(), k);
    }
}

/// Whatever `find` answers was one of the entries.
pub proof fn lemma_header_lru_find_member(s: Seq<(H256, Header)>, k: H256)
    ensures
        match header_lru_find(s, k) {
            Option::Some(v) => exists|i: int| 0 <= i < s.len() && (#[trigger] s[i]) == (k, v),
            Option::None => true,
        },
    decreases s.len(),
{
    if s.len() == 0 {
    } else if s.last().0 == k {
        assert(s[s.len() - 1] == (k, s.last().1));
    } else {
        lemma_header_lru_find_member(s.drop_last(), k);
        if header_lru_find(s, k) is Some {
            let v = header_lru_find(s, k).unwrap();
            let i = choose|i: int|
                0 <= i < s.drop_last().len() && (#[trigger] s.drop_last()[i]) == (k, v);
            assert(s[i] == (k, v));
        }
    }
}

/// The bounded header cache, keyed by block hash.
pub struct HeaderLru {
    pub entries: Vec<(H256, Header)>,
    pub capacity: usize,
}

impl View for HeaderLru {
    type V = Seq<(H256, Header)>;

    open spec fn view(&self) -> Seq<(H256, Header)> {
        self.entries@
    }
}

impl HeaderLru {
    pub open spec fn cap(&self) -> usize {
        self.capacity
    }

    pub open spec fn wf(&self) -> bool {
        self@.len() <= self.cap() && header_lru_distinct(self@)
    }

    pub fn new(capacity: usize) -> (r: Self)
        ensures
            r.wf(),
            r@ == Seq::<(H256, Header)>::empty(),
            r.cap() == capacity,
    {
        HeaderLru { entries: Vec::new(), capacity }
    }

    fn find(&self, key: &H256) -> (r: Option<usize>)
        requires
            self.wf(),
        ensures
            match r {
                Option::Some(i) => i < self@.len() && self@[i as int].0 == key,
                Option::None => forall|i: int|
                    0 <= i < self@.len() ==> (#[trigger] self@[i]).0 != key,
            },
    {
        let mut i: usize = 0;
        while i < self.entries.len()
            invariant
                i <= self@.len(),
                forall|j: int| 0 <= j < i ==> (#[trigger] self@[j]).0 != key,
            decreases self@.len() - i,
        {
            if self.entries[i].0 == *key {
                return Option::Some(i);
            }
            i = i + 1;
        }
        Option::None
    }

    /// Probe the cache; a hit refreshes the entry's recency.
    pub fn get_refresh(&mut self, key: &H256) -> (r: Option<Header>)
        requires
            old(self).wf(),
        ensures
            final(self).wf(),
            final(self).cap() == old(self).cap(),
            r == header_lru_find(old(self)@, *key),
            r is None ==> final(self)@ == old(self)@,
            forall|i: int|
                0 <= i < final(self)@.len() ==> exists|j: int|
                    0 <= j < old(self)@.len() && old(self)@[j] == (#[trigger] final(self)@[i]),
    {
        match self.find(key) {
            Option::Some(i) => {
                proof {
                    lemma_header_lru_find_at(self@, i as int);
                }
                let ghost s0 = self@;
                let e = self.entries.remove(i);
                self.entries.push(e);
                proof {
                    assert(self@ =~= s0.remove(i as int).push(s0[i as int]));
                    assert forall|x: int| 0 <= x < self@.len() implies exists|j: int|
                        0 <= j < s0.len() && s0[j] == (#[trigger] self@[x]) by {
                        if x == self@.len() - 1 {
                            assert(s0[i as int] == self@[x]);
                        } else if x < i {
                            assert(s0[x] == self@[x]);
                        } else {
                            assert(s0[x + 1] == self@[x]);
                        }
                    }
                    assert(header_lru_distinct(self@)) by {
                        assert forall|x: int, y: int|
                            0 <= x < y < self@.len() implies (#[trigger] self@[x]).0 != (
                        #[trigger] self@[y]).0 by {
                            let s1 = s0.remove(i as int);
                            if y == self@.len() - 1 {
                                if x < i {
                                    assert(self@[x] == s0[x]);
                                } else {
                                    assert(self@[x] == s0[x + 1]);
                                }
                            } else {
                                if x < i {
                                    assert(self@[x] == s0[x]);
                                } else {
                                    assert(self@[x] == s0[x + 1]);
                                }
                                if y < i {
                                    assert(self@[y] == s0[y]);
                                } else {
                                    assert(self@[y] == s0[y + 1]);
                                }
                            }
                        }
                    }
                }
                Option::Some(e.1)
            },
            Option::None => {
                proof {
                    lemma_header_lru_find_absent(self@, *key);
                }
                Option::None
            },
        }
    }

    /// Insert, refreshing recency; a full cache evicts its
    /// least-recently-used entry, and a zero-capacity cache stores
    /// nothing.
    pub fn insert(&mut self, key: H256, value: Header)
        requires
            old(self).wf(),
        ensures
            final(self).wf(),
            final(self).cap() == old(self).cap(),
            forall|i: int|
                0 <= i < final(self)@.len() ==> (#[trigger] final(self)@[i]) == (key, value)
                    || exists|j: int| 0 <= j < old(self)@.len() && old(self)@[j] == final(self)@[i],
            old(self).cap() == 0 ==> final(self)@ == old(self)@,
            old(self).cap() > 0 ==> header_lru_find(final(self)@, key) == Option::Some(value),
            old(self).cap() > 0 && !header_lru_has(old(self)@, key) && old(self)@.len() < old(
                self,
            ).cap() ==> final(self)@ == old(self)@.push((key, value)),
            old(self).cap() > 0 && !header_lru_has(old(self)@, key) && old(self)@.len() == old(
                self,
            ).cap() ==> final(self)@ == old(self)@.drop_first().push((key, value)),
    {
        if self.capacity == 0 {
            return ;
        }
        let ghost s0 = self@;
        match self.find(&key) {
            Option::Some(i) => {
                self.entries.remove(i);
                proof {
                    assert(header_lru_has(s0, key));
                    assert(self@ =~= s0.remove(i as int));
                    assert forall|x: int| 0 <= x < self@.len() implies (exists|j: int|
                        0 <= j < s0.len() && s0[j] == (#[trigger] self@[x])) && self@[x].0
                        != key by {
                        if x < i {
                            assert(s0[x] == self@[x]);
                        } else {
                            assert(s0[x + 1] == self@[x]);
                        }
                    }
                    assert(header_lru_distinct(self@)) by {
                        assert forall|x: int, y: int|
                            0 <= x < y < self@.len() implies (#[trigger] self@[x]).0 != (
                        #[trigger] self@[y]).0 by {
                            if x < i {
                                assert(self@[x] == s0[x]);
                            } else {
                                assert(self@[x] == s0[x + 1]);
                            }
                            if y < i {
                                assert(self@[y] == s0[y]);
                            } else {
                                assert(self@[y] == s0[y + 1]);
                            }
                        }
                    }
                }
            },
            Option::None => {
                if self.entries.len() == self.capacity {
                    self.entries.remove(0);
                    proof {
                        assert(self@ =~= s0.drop_first());
                        assert forall|x: int| 0 <= x < self@.len() implies (exists|j: int|
                            0 <= j < s0.len() && s0[j] == (#[trigger] self@[x])) && self@[x].0
                            != key by {
                            assert(s0[x + 1] == self@[x]);
                        }
                        assert(header_lru_distinct(self@)) by {
                            assert forall|x: int, y: int|
                                0 <= x < y < self@.len() implies (#[trigger] self@[x]).0 != (
                            #[trigger] self@[y]).0 by {
                                assert(self@[x] == s0[x + 1]);
                                assert(self@[y] == s0[y + 1]);
                            }
                        }
                    }
                }
            },
        }
        let ghost s1 = self@;
        assert forall|i: int| 0 <= i < s1.len() implies exists|j: int|
            0 <= j < s0.len() && s0[j] == (#[trigger] s1[i]) by {
            if s1 == s0 {
                assert(s0[i] == s1[i]);
            }
        }
        assert(forall|i: int| 0 <= i < s1.len() ==> (#[trigger] s1[i]).0 != key);
        assert(header_lru_distinct(s1));
        assert(s1.len() < self.capacity);
        self.entries.push((key, value));
        proof {
            assert(self@ =~= s1.push((key, value)));
            assert(header_lru_distinct(self@)) by {
                assert forall|x: int, y: int|
                    0 <= x < y < self@.len() implies (#[trigger] self@[x]).0 != (
                #[trigger] self@[y]).0 by {
                    if y == self@.len() - 1 {
                        assert(self@[x] == s1[x]);
                    } else {
                        assert(self@[x] == s1[x]);
                        assert(self@[y] == s1[y]);
                    }
                }
            }
        }
    }

    /// Drop everything; the store does this on commit so cached reads
    /// never show stale values.
    pub fn clear(&mut self)
        ensures
            final(self).wf(),
            final(self)@ == Seq::<(H256, Header)>::empty(),
            final(self).cap() == old(self).cap(),
    {
        self.entries.clear();
        assert(self@ =~= Seq::<(H256, Header)>::empty());
    }
}

/// The cached output under `k`, most recent entry winning.
pub open spec fn output_lru_find(s: Seq<(OutPoint, CellOutputV)>, k: OutPoint) -> Option<
    CellOutputV,
>
    decreases s.len(),
{
    if s.len() == 0 {
        Option::None
    } else if s.last().0 == k {
        Option::Some(s.last().1)
    } else {
        output_lru_find(s.drop_last(), k)
    }
}

pub open spec fn output_lru_distinct(s: Seq<(OutPoint, CellOutputV)>) -> bool {
    forall|i: int, j: int| 0 <= i < j < s.len() ==> (#[trigger] s[i]).0 != (#[trigger] s[j]).0
}

proof fn lemma_output_lru_find_at(s: Seq<(OutPoint, CellOutputV)>, i: int)
    requires
        output_lru_distinct(s),
        0 <= i < s.len(),
    ensures
        output_lru_find(s, s[i].0) == Option::Some(s[i].1),
    decreases s.len(),
{
    if i == s.len() - 1 {
    } else {
        assert(output_lru_distinct(s.drop_last())) by {
            assert(forall|x: int, y: int|
                0 <= x < y < s.len() - 1 ==> (#[trigger] s.drop_last()[x]).0 != (
                #[trigger] s.drop_last()[y]).0);
        }
        assert(s.drop_last()[i] == s[i]);
        lemma_output_lru_find_at(s.drop_last(), i);
        assert(s[i].0 != s.last().0);
    }
}

proof fn lemma_output_lru_find_absent(s: Seq<(OutPoint, CellOutputV)>, k: OutPoint)
    requires
        forall|i: int| 0 <= i < s.len() ==> (#[trigger] s[i]).0 != k,
    ensures
        output_lru_find(s, k) == Option::<CellOutputV>::None,
    decreases s.len(),
{
    if s.len() == 0 {
    } else {
        assert(forall|i: int| 0 <= i < s.len() - 1 ==> (#[trigger] s.drop_last()[i]).0 != k);
        lemma_output_lru_find_absent(s.drop_last(), k);
    }
}

/// Whatever `find` answers was one of the entries.
pub proof fn lemma_output_lru_find_member(s: Seq<(OutPoint, CellOutputV)>, k: OutPoint)
    ensures
        match output_lru_find(s, k) {
            Option::Some(v) => exists|i: int| 0 <= i < s.len() && (#[trigger] s[i]) == (k, v),
            Option::None => true,
        },
    decreases s.len(),
{
    if s.len() == 0 {
    } else if s.last().0 == k {
        assert(s[s.len() - 1] == (k, s.last().1));
    } else {
        lemma_output_lru_find_member(s.drop_last(), k);
        if output_lru_find(s, k) is Some {
            let v = output_lru_find(s, k).unwrap();
            let i = choose|i: int|
                0 <= i < s.drop_last().len() && (#[trigger] s.drop_last()[i]) == (k, v);
            assert(s[i] == (k, v));
        }
    }
}

/// Copy a cell output.
pub fn clone_cell_output(c: &CellOutput) -> (r: CellOutput)
    ensures
        r@ == c@,
{
    let type_script = match &c.type_script {
        Option::None => Option::None,
        Option::Some(s) => Option::Some(bytes_clone(s)),
    };
    let r = CellOutput {
        capacity: c.capacity,
        lock: bytes_clone(&c.lock),
        type_script,
        data_hash: c.data_hash,
    };
    assert(r@ == c@);
    r
}

/// The bounded cell-output cache, keyed by `(tx_hash, output index)`.
pub struct CellOutputLru {
    pub entries: Vec<(OutPoint, CellOutput)>,
    pub capacity: usize,
}

impl View for CellOutputLru {
    type V = Seq<(OutPoint, CellOutputV)>;

    open spec fn view(&self) -> Seq<(OutPoint, CellOutputV)> {
        self.entries@.map_values(|p: (OutPoint, CellOutput)| (p.0, p.1@))
    }
}

impl CellOutputLru {
    pub open spec fn cap(&self) -> usize {
        self.capacity
    }

    pub open spec fn wf(&self) -> bool {
        self@.len() <= self.cap() && output_lru_distinct(self@)
    }

    pub fn new(capacity: usize) -> (r: Self)
        ensures
            r.wf(),
            r@ == Seq::<(OutPoint, CellOutputV)>::empty(),
            r.cap() == capacity,
    {
        let r = CellOutputLru { entries: Vec::new(), capacity };
        assert(r@ =~= Seq::<(OutPoint, CellOutputV)>::empty());
        r
    }

    fn find(&self, key: &OutPoint) -> (r: Option<usize>)
        requires
            self.wf(),
        ensures
            match r {
                Option::Some(i) => i < self@.len() && self@[i as int].0 == key,
                Option::None => forall|i: int|
                    0 <= i < self@.len() ==> (#[trigger] self@[i]).0 != key,
            },
    {
        let mut i: usize = 0;
        while i < self.entries.len()
            invariant
                i <= self.entries@.len(),
                self@.len() == self.entries@.len(),
                forall|j: int| 0 <= j < i ==> (#[trigger] self@[j]).0 != key,
            decreases self.entries@.len() - i,
        {
            assert(self@[i as int].0 == self.entries@[i as int].0);
            if self.entries[i].0 == *key {
                return Option::Some(i);
            }
            i = i + 1;
        }
        Option::None
    }

    /// Probe the cache; a hit refreshes the entry's recency.
    pub fn get_refresh(&mut self, key: &OutPoint) -> (r: Option<CellOutput>)
        requires
            old(self).wf(),
        ensures
            final(self).wf(),
            final(self).cap() == old(self).cap(),
            match r {
                Option::Some(v) => output_lru_find(old(self)@, *key) == Option::Some(v@),
                Option::None => output_lru_find(old(self)@, *key) is None,
            },
            r is None ==> final(self)@ == old(self)@,
            forall|i: int|
                0 <= i < final(self)@.len() ==> exists|j: int|
                    0 <= j < old(self)@.len() && old(self)@[j] == (#[trigger] final(self)@[i]),
    {
        match self.find(key) {
            Option::Some(i) => {
                proof {
                    lemma_output_lru_find_at(self@, i as int);
                }
                let ghost s0 = self@;
                let e = self.entries.remove(i);
                let v = clone_cell_output(&e.1);
                self.entries.push(e);
                proof {
                    assert(self@ =~= s0.remove(i as int).push(s0[i as int]));
                    assert forall|x: int| 0 <= x < self@.len() implies exists|j: int|
                        0 <= j < s0.len() && s0[j] == (#[trigger] self@[x]) by {
                        if x == self@.len() - 1 {
                            assert(s0[i as int] == self@[x]);
                        } else if x < i {
                            assert(s0[x] == self@[x]);
                        } else {
                            assert(s0[x + 1] == self@[x]);
                        }
                    }
                    assert(output_lru_distinct(self@)) by {
                        assert forall|x: int, y: int|
                            0 <= x < y < self@.len() implies (#[trigger] self@[x]).0 != (
                        #[trigger] self@[y]).0 by {
                            if x < i {
                                assert(self@[x] == s0[x]);
                            } else if x < self@.len() - 1 {
                                assert(self@[x] == s0[x + 1]);
                            }
                            if y < i {
                                assert(self@[y] == s0[y]);
                            } else if y < self@.len() - 1 {
                                assert(self@[y] == s0[y + 1]);
                            }
                        }
                    }
                }
                Option::Some(v)
            },
            Option::None => {
                proof {
                    lemma_output_lru_find_absent(self@, *key);
                }
                Option::None
            },
        }
    }

    /// Insert, refreshing recency; a full cache evicts its
    /// least-recently-used entry, and a zero-capacity cache stores
    /// nothing.
    pub fn insert(&mut self, key: OutPoint, value: CellOutput)
        requires
            old(self).wf(),
        ensures
            final(self).wf(),
            final(self).cap() == old(self).cap(),
            forall|i: int|
                0 <= i < final(self)@.len() ==> (#[trigger] final(self)@[i]) == (key, value@)
                    || exists|j: int| 0 <= j < old(self)@.len() && old(self)@[j] == final(self)@[i],
            old(self).cap() == 0 ==> final(self)@ == old(self)@,
            old(self).cap() > 0 ==> output_lru_find(final(self)@, key) == Option::Some(value@),
    {
        if self.capacity == 0 {
            return ;
        }
        let ghost s0 = self@;
        match self.find(&key) {
            Option::Some(i) => {
                self.entries.remove(i);
                proof {
                    assert(self@ =~= s0.remove(i as int));
                    assert forall|x: int| 0 <= x < self@.len() implies (exists|j: int|
                        0 <= j < s0.len() && s0[j] == (#[trigger] self@[x])) && self@[x].0
                        != key by {
                        if x < i {
                            assert(s0[x] == self@[x]);
                        } else {
                            assert(s0[x + 1] == self@[x]);
                        }
                    }
                    assert(output_lru_distinct(self@)) by {
                        assert forall|x: int, y: int|
                            0 <= x < y < self@.len() implies (#[trigger] self@[x]).0 != (
                        #[trigger] self@[y]).0 by {
                            if x < i {
                                assert(self@[x] == s0[x]);
                            } else {
                                assert(self@[x] == s0[x + 1]);
                            }
                            if y < i {
                                assert(self@[y] == s0[y]);
                            } else {
                                assert(self@[y] == s0[y + 1]);
                            }
                        }
                    }
                }
            },
            Option::None => {
                if self.entries.len() == self.capacity {
                    let ghost sA = self@;
                    self.entries.remove(0);
                    proof {
                        assert(self@ =~= sA.drop_first());
                        assert forall|x: int| 0 <= x < self@.len() implies (exists|j: int|
                            0 <= j < s0.len() && s0[j] == (#[trigger] self@[x])) && self@[x].0
                            != key by {
                            assert(s0[x + 1] == self@[x]);
                        }
                        assert(output_lru_distinct(self@)) by {
                            assert forall|x: int, y: int|
                                0 <= x < y < self@.len() implies (#[trigger] self@[x]).0 != (
                            #[trigger] self@[y]).0 by {
                                assert(self@[x] == s0[x + 1]);
                                assert(self@[y] == s0[y + 1]);
                            }
                        }
                    }
                }
            },
        }
        let ghost s1 = self@;
        assert forall|i: int| 0 <= i < s1.len() implies exists|j: int|
            0 <= j < s0.len() && s0[j] == (#[trigger] s1[i]) by {
            assert(s1[i] == self@[i]);
            if !(exists|j: int| 0 <= j < s0.len() && s0[j] == self@[i]) {
                assert(s1 == s0);
                assert(s0[i] == s1[i]);
            }
        }
        assert(forall|i: int| 0 <= i < s1.len() ==> (#[trigger] s1[i]).0 != key);
        assert(output_lru_distinct(s1));
        assert(s1.len() < self.capacity);
        let ghost vv = value@;
        self.entries.push((key, value));
        proof {
            assert(self@ =~= s1.push((key, vv)));
            assert(output_lru_distinct(self@)) by {
                assert forall|x: int, y: int|
                    0 <= x < y < self@.len() implies (#[trigger] self@[x]).0 != (
                #[trigger] self@[y]).0 by {
                    if y == self@.len() - 1 {
                        assert(self@[x] == s1[x]);
                    } else {
                        assert(self@[x] == s1[x]);
                        assert(self@[y] == s1[y]);
                    }
                }
            }
        }
    }

    /// Drop everything; the store does this on commit so cached reads
    /// never show stale values.
    pub fn clear(&mut self)
        ensures
            final(self).wf(),
            final(self)@ == Seq::<(OutPoint, CellOutputV)>::empty(),
            final(self).cap() == old(self).cap(),
    {
        self.entries.clear();
        assert(self@ =~= Seq::<(OutPoint, CellOutputV)>::empty());
    }
}

} // verus!
