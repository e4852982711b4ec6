//! A small keyed table: the finite maps that hold the ledger state of every
//! module (registries, balances, queues). Entries keep their insertion order;
//! keys are unique, compared through what they denote.
use vstd::prelude::*;

verus! {

/// A key of a [`Table`]: comparable through what it denotes, and copyable.
pub trait TableKey: Sized {
    /// What a key denotes.
    type KeyView;

    spec fn key(&self) -> Self::KeyView;

    fn key_eq(&self, other: &Self) -> (r: bool)
        ensures
            r == (self.key() == other.key()),
    ;

    fn key_copy(&self) -> (r: Self)
        ensures
            r.key() == self.key(),
    ;
}

impl TableKey for u64 {
    type KeyView = u64;

    open spec fn key(&self) -> u64 {
        *self
    }

    fn key_eq(&self, other: &Self) -> (r: bool) {
        *self == *other
    }

    fn key_copy(&self) -> (r: Self) {
        *self
    }
}

impl TableKey for u32 {
    type KeyView = u32;

    open spec fn key(&self) -> u32 {
        *self
    }

    fn key_eq(&self, other: &Self) -> (r: bool) {
        *self == *other
    }

    fn key_copy(&self) -> (r: Self) {
        *self
    }
}

impl TableKey for u8 {
    type KeyView = u8;

    open spec fn key(&self) -> u8 {
        *self
    }

    fn key_eq(&self, other: &Self) -> (r: bool) {
        *self == *other
    }

    fn key_copy(&self) -> (r: Self) {
        *self
    }
}

impl<const N: usize> TableKey for [u8; N] {
    type KeyView = [u8; N];

    open spec fn key(&self) -> [u8; N] {
        *self
    }

    fn key_eq(&self, other: &Self) -> (r: bool) {
        bytes_eq(self, other)
    }

    fn key_copy(&self) -> (r: Self) {
        *self
    }
}

impl<A: TableKey, B: TableKey> TableKey for (A, B) {
    type KeyView = (A::KeyView, B::KeyView);

    open spec fn key(&self) -> (A::KeyView, B::KeyView) {
        (self.0.key(), self.1.key())
    }

    fn key_eq(&self, other: &Self) -> (r: bool) {
        self.0.key_eq(&other.0) && self.1.key_eq(&other.1)
    }

    fn key_copy(&self) -> (r: Self) {
        (self.0.key_copy(), self.1.key_copy())
    }
}

/// Byte-wise equality of two fixed-size byte strings.
pub fn bytes_eq<const N: usize>(a: &[u8; N], b: &[u8; N]) -> (r: bool)
    ensures
        r == (a@ == b@),
        r == (*a == *b),
{
    broadcast use vstd::array::group_array_axioms;
    let mut i: usize = 0;
    while i < N
        invariant
            i <= N,
            a@.len() == N,
            b@.len() == N,
            forall|j: int| 0 <= j < i ==> a@[j] == b@[j],
        decreases N - i,
    {
        if a[i] != b[i] {
            assert(a@[i as int] != b@[i as int]);
            return false;
        }
        i = i + 1;
    }
    assert(a@ =~= b@);
    assert(*a =~= *b);
    true
}

/// Byte-wise equality of two byte slices.
pub fn slice_eq(a: &[u8], b: &[u8]) -> (r: bool)
    ensures
        r == (a@ == b@),
{
    if a.len() != b.len() {
        return false;
    }
    let mut i: usize = 0;
    while i < a.len()
        invariant
            i <= a@.len(),
            a@.len() == b@.len(),
            forall|j: int| 0 <= j < i ==> a@[j] == b@[j],
        decreases a@.len() - i,
    {
        if a[i] != b[i] {
            return false;
        }
        i = i + 1;
    }
    assert(a@ =~= b@);
    true
}

/// A finite map from keys to values, stored as a list of unique-keyed pairs.
pub struct Table<K: TableKey, V> {
    entries: Vec<(K, V)>,
}

impl<K: TableKey, V> Table<K, V> {
    #[verifier::type_invariant]
    closed spec fn unique_keys(self) -> bool {
        forall|i: int, j: int|
            0 <= i < j < self.entries@.len() ==> #[trigger] self.entries@[i].0.key()
                != #[trigger] self.entries@[j].0.key()
    }

    /// Position of the entry holding key `k`.
    closed spec fn pos(self, k: K::KeyView) -> int {
        choose|i: int| 0 <= i < self.entries@.len() && self.entries@[i].0.key() == k
    }

    closed spec fn has(self, k: K::KeyView) -> bool {
        exists|i: int| 0 <= i < self.entries@.len() && self.entries@[i].0.key() == k
    }

    /// The keys, in storage order.
    pub closed spec fn key_seq(self) -> Seq<K::KeyView> {
        self.entries@.map_values(|e: (K, V)| e.0.key())
    }

    /// The values, in storage order (aligned with [`Self::key_seq`]).
    pub closed spec fn value_seq(self) -> Seq<V> {
        self.entries@.map_values(|e: (K, V)| e.1)
    }

    pub closed spec fn as_map(self) -> Map<K::KeyView, V> {
        Map::new(|k: K::KeyView| self.has(k), |k: K::KeyView| self.entries@[self.pos(k)].1)
    }

    proof fn lemma_pos(self, i: int)
        requires
            self.unique_keys(),
            0 <= i < self.entries@.len(),
        ensures
            self.has(self.entries@[i].0.key()),
            self.pos(self.entries@[i].0.key()) == i,
            self.as_map().contains_key(self.entries@[i].0.key()),
            self.as_map()[self.entries@[i].0.key()] == self.entries@[i].1,
    {
        let k = self.entries@[i].0.key();
        assert(self.has(k));
        let j = self.pos(k);
        if j < i {
            assert(self.entries@[j].0.key() != self.entries@[i].0.key());
        } else if i < j {
            assert(self.entries@[i].0.key() != self.entries@[j].0.key());
        }
    }

    /// The keys and values in storage order describe the map exactly.
    pub open spec fn seqs_describe(self) -> bool {
        &&& self.key_seq().len() == self.value_seq().len()
        &&& self.key_seq().no_duplicates()
        &&& forall|i: int|
            0 <= i < self.key_seq().len() ==> #[trigger] self@.contains_key(self.key_seq()[i])
                && self@[self.key_seq()[i]] == self.value_seq()[i]
        &&& forall|k: K::KeyView| #[trigger] self@.contains_key(k) ==> self.key_seq().contains(k)
        &&& self@.dom().finite()
        &&& self@.dom() == self.key_seq().to_set()
    }

    /// The keys and values in storage order describe the map exactly.
    proof fn lemma_seqs(self)
        requires
            self.unique_keys(),
        ensures
            self.seqs_describe(),
            self.key_seq().len() == self.value_seq().len(),
            self.key_seq().no_duplicates(),
            forall|i: int|
                0 <= i < self.key_seq().len() ==> #[trigger] self@.contains_key(self.key_seq()[i])
                    && self@[self.key_seq()[i]] == self.value_seq()[i],
            forall|k: K::KeyView| #[trigger]
                self@.contains_key(k) ==> self.key_seq().contains(k),
            self@.dom().finite(),
            self@.dom() == self.key_seq().to_set(),
    {
        assert forall|i: int| 0 <= i < self.key_seq().len() implies #[trigger] self@.contains_key(
            self.key_seq()[i],
        ) && self@[self.key_seq()[i]] == self.value_seq()[i] by {
            self.lemma_pos(i);
        }
        assert forall|k: K::KeyView| #[trigger] self@.contains_key(k) implies self.key_seq().contains(
            k,
        ) by {
            let i = self.pos(k);
            assert(self.key_seq()[i] == k);
        }
        assert(self.key_seq().no_duplicates()) by {
            assert forall|i: int, j: int|
                0 <= i < self.key_seq().len() && 0 <= j < self.key_seq().len() && i != j implies
                self.key_seq()[i] != self.key_seq()[j] by {
                if i < j {
                    assert(self.entries@[i].0.key() != self.entries@[j].0.key());
                } else {
                    assert(self.entries@[j].0.key() != self.entries@[i].0.key());
                }
            }
        }
        assert(self@.dom() =~= self.key_seq().to_set());
        vstd::seq_lib::seq_to_set_is_finite(self.key_seq());
    }

    pub fn new() -> (t: Self)
        ensures
            t@ == Map::<K::KeyView, V>::empty(),
            t.key_seq() == Seq::<K::KeyView>::empty(),
            t.value_seq() == Seq::<V>::empty(),
            t.seqs_describe(),
    {
        let t = Table { entries: Vec::new() };
        assert(t@ =~= Map::<K::KeyView, V>::empty());
        assert(t.key_seq() =~= Seq::<K::KeyView>::empty());
        assert(t.value_seq() =~= Seq::<V>::empty());
        proof {
            use_type_invariant(&t);
            t.lemma_seqs();
        }
        t
    }

    /// Number of entries; the keys and values in storage order describe the
    /// map exactly.
    pub fn size(&self) -> (n: usize)
        ensures
            n == self.key_seq().len(),
            self.seqs_describe(),
            self.key_seq().len() == self.value_seq().len(),
            self.key_seq().no_duplicates(),
            forall|i: int|
                0 <= i < self.key_seq().len() ==> #[trigger] self@.contains_key(self.key_seq()[i])
                    && self@[self.key_seq()[i]] == self.value_seq()[i],
            forall|k: K::KeyView| #[trigger]
                self@.contains_key(k) ==> self.key_seq().contains(k),
            self@.dom().finite(),
            self@.dom() == self.key_seq().to_set(),
    {
        proof {
            use_type_invariant(self);
            self.lemma_seqs();
        }
        self.entries.len()
    }

    fn find(&self, k: &K) -> (r: Option<usize>)
        ensures
            match r {
                Some(i) => i < self.entries@.len() && self.entries@[i as int].0.key() == k.key(),
                None => !self.has(k.key()),
            },
    {
        let mut i: usize = 0;
        while i < self.entries.len()
            invariant
                i <= self.entries@.len(),
                forall|j: int| 0 <= j < i ==> self.entries@[j].0.key() != k.key(),
            decreases self.entries@.len() - i,
        {
            if self.entries[i].0.key_eq(k) {
                return Some(i);
            }
            i = i + 1;
        }
        None
    }

    pub fn contains_key(&self, k: &K) -> (r: bool)
        ensures
            r == self@.contains_key(k.key()),
    {
        self.find(k).is_some()
    }

    pub fn get(&self, k: &K) -> (r: Option<&V>)
        ensures
            match r {
                Some(v) => self@.contains_key(k.key()) && *v == self@[k.key()],
                None => !self@.contains_key(k.key()),
            },
    {
        proof {
            use_type_invariant(self);
        }
        match self.find(k) {
            Some(i) => {
                proof {
                    self.lemma_pos(i as int);
                }
                Some(&self.entries[i].1)
            },
            None => None,
        }
    }

    /// The key stored at position `i`.
    pub fn key_at(&self, i: usize) -> (r: &K)
        requires
            i < self.key_seq().len(),
        ensures
            r.key() == self.key_seq()[i as int],
    {
        &self.entries[i].0
    }

    /// The value stored at position `i`.
    pub fn value_at(&self, i: usize) -> (r: &V)
        requires
            i < self.key_seq().len(),
        ensures
            *r == self.value_seq()[i as int],
            self@.contains_key(self.key_seq()[i as int]),
            self@[self.key_seq()[i as int]] == *r,
    {
        proof {
            use_type_invariant(self);
            self.lemma_pos(i as int);
        }
        &self.entries[i].1
    }

    pub fn insert(&mut self, k: K, v: V)
        ensures
            final(self)@ == old(self)@.insert(k.key(), v),
            old(self)@.contains_key(k.key()) ==> final(self).key_seq() == old(self).key_seq(),
            !old(self)@.contains_key(k.key()) ==> final(self).key_seq() == old(self).key_seq().push(
                k.key(),
            ),
            old(self)@.contains_key(k.key()) ==> final(self).value_seq() == old(self).value_seq().update(
                old(self).key_seq().index_of(k.key()),
                v,
            ),
            !old(self)@.contains_key(k.key()) ==> final(self).value_seq() == old(self).value_seq().push(v),
            final(self).seqs_describe(),
    {
        proof {
            use_type_invariant(&*self);
        }
        let ghost old_map = self@;
        let ghost old_entries = self.entries@;
        let ghost kv = k.key();
        match self.find(&k) {
            Some(i) => {
                let mut entries: Vec<(K, V)> = Vec::new();
                std::mem::swap(&mut entries, &mut self.entries);
                let _ = entries.remove(i);
                entries.insert(i, (k, v));
                self.entries = entries;
                proof {
                    assert(self.entries@ =~= old_entries.update(i as int, (self.entries@[i as int])));
                    assert forall|a: int, b: int|
                        0 <= a < b < self.entries@.len() implies #[trigger] self.entries@[a].0.key()
                        != #[trigger] self.entries@[b].0.key() by {
                        assert(old_entries[a].0.key() != old_entries[b].0.key());
                    }
                    assert forall|kk: K::KeyView| #[trigger]
                        self@.contains_key(kk) == old_map.insert(kv, v).contains_key(kk) by {
                        if self.has(kk) {
                            let p = self.pos(kk);
                            if p != i {
                                old(self).lemma_pos(p);
                            }
                        }
                        if old(self).has(kk) {
                            let p = old(self).pos(kk);
                            assert(self.entries@[p].0.key() == kk);
                        }
                    }
                    assert forall|kk: K::KeyView| #[trigger] self@.contains_key(kk) implies self@[kk]
                        == old_map.insert(kv, v)[kk] by {
                        let p = self.pos(kk);
                        self.lemma_pos(p);
                        if p != i {
                            old(self).lemma_pos(p);
                        }
                    }
                    assert(self@ =~= old_map.insert(kv, v));
                    assert(self.key_seq() =~= old(self).key_seq());
                    old(self).lemma_seqs();
                    assert(old(self).key_seq()[i as int] == kv);
                    assert(old(self).key_seq().index_of(kv) == i) by {
                        let j = old(self).key_seq().index_of(kv);
                        assert(old(self).key_seq().contains(kv));
                        assert(old(self).key_seq()[j] == kv);
                    }
                    assert(self.value_seq() =~= old(self).value_seq().update(i as int, v));
                }
                proof {
                    use_type_invariant(&*self);
                    self.lemma_seqs();
                }
            },
            None => {
                let mut entries: Vec<(K, V)> = Vec::new();
                std::mem::swap(&mut entries, &mut self.entries);
                entries.push((k, v));
                self.entries = entries;
                proof {
                    assert forall|a: int, b: int|
                        0 <= a < b < self.entries@.len() implies #[trigger] self.entries@[a].0.key()
                        != #[trigger] self.entries@[b].0.key() by {
                        if b == old_entries.len() {
                            assert(self.entries@[a] == old_entries[a]);
                            old(self).lemma_pos(a);
                        } else {
                            assert(old_entries[a].0.key() != old_entries[b].0.key());
                        }
                    }
                    let n = old_entries.len() as int;
                    assert forall|kk: K::KeyView| #[trigger]
                        self@.contains_key(kk) == old_map.insert(kv, v).contains_key(kk) by {
                        if self.has(kk) {
                            let p = self.pos(kk);
                            if p < n {
                                old(self).lemma_pos(p);
                            }
                        }
                        if old(self).has(kk) {
                            let p = old(self).pos(kk);
                            assert(self.entries@[p].0.key() == kk);
                        }
                        if kk == kv {
                            assert(self.entries@[n].0.key() == kk);
                        }
                    }
                    assert forall|kk: K::KeyView| #[trigger] self@.contains_key(kk) implies self@[kk]
                        == old_map.insert(kv, v)[kk] by {
                        let p = self.pos(kk);
                        self.lemma_pos(p);
                        if p < n {
                            old(self).lemma_pos(p);
                        }
                    }
                    assert(self@ =~= old_map.insert(kv, v));
                    assert(self.key_seq() =~= old(self).key_seq().push(kv));
                    assert(self.value_seq() =~= old(self).value_seq().push(v));
                }
                proof {
                    use_type_invariant(&*self);
                    self.lemma_seqs();
                }
            },
        }
    }

    pub fn remove(&mut self, k: &K) -> (r: Option<V>)
        ensures
            final(self)@ == old(self)@.remove(k.key()),
            final(self).seqs_describe(),
            match r {
                Some(v) => old(self)@.contains_key(k.key()) && v == old(self)@[k.key()],
                None => !old(self)@.contains_key(k.key()),
            },
    {
        proof {
            use_type_invariant(&*self);
        }
        let ghost old_map = self@;
        let ghost old_entries = self.entries@;
        match self.find(k) {
            Some(i) => {
                proof {
                    old(self).lemma_pos(i as int);
                }
                let mut entries: Vec<(K, V)> = Vec::new();
                std::mem::swap(&mut entries, &mut self.entries);
                let (_, v) = entries.remove(i);
                proof {
                    assert forall|a: int, b: int|
                        0 <= a < b < entries@.len() implies #[trigger] entries@[a].0.key()
                        != #[trigger] entries@[b].0.key() by {
                        let oa = if a < i { a } else { a + 1 };
                        let ob = if b < i { b } else { b + 1 };
                        assert(entries@[a] == old_entries[oa]);
                        assert(entries@[b] == old_entries[ob]);
                    }
                }
                self.entries = entries;
                proof {
                    assert forall|a: int, b: int|
                        0 <= a < b < self.entries@.len() implies #[trigger] self.entries@[a].0.key()
                        != #[trigger] self.entries@[b].0.key() by {
                        let oa = if a < i { a } else { a + 1 };
                        let ob = if b < i { b } else { b + 1 };
                        assert(self.entries@[a] == old_entries[oa]);
                        assert(self.entries@[b] == old_entries[ob]);
                    }
                    assert forall|kk: K::KeyView| #[trigger]
                        self@.contains_key(kk) == old_map.remove(k.key()).contains_key(kk) by {
                        if self.has(kk) {
                            let p = self.pos(kk);
                            let op = if p < i { p } else { p + 1 };
                            assert(self.entries@[p] == old_entries[op]);
                            old(self).lemma_pos(op);
                            if op < i {
                                assert(old_entries[op].0.key() != old_entries[i as int].0.key());
                            } else {
                                assert(old_entries[i as int].0.key() != old_entries[op].0.key());
                            }
                        }
                        if old(self).has(kk) && kk != k.key() {
                            let op = old(self).pos(kk);
                            assert(op != i);
                            let p = if op < i { op } else { op - 1 };
                            assert(self.entries@[p] == old_entries[op]);
                        }
                    }
                    assert forall|kk: K::KeyView| #[trigger] self@.contains_key(kk) implies self@[kk]
                        == old_map.remove(k.key())[kk] by {
                        let p = self.pos(kk);
                        self.lemma_pos(p);
                        let op = if p < i { p } else { p + 1 };
                        assert(self.entries@[p] == old_entries[op]);
                        old(self).lemma_pos(op);
                    }
                    assert(self@ =~= old_map.remove(k.key()));
                    use_type_invariant(&*self);
                    self.lemma_seqs();
                }
                Some(v)
            },
            None => {
                proof {
                    assert(self@ =~= old_map.remove(k.key()));
                    use_type_invariant(&*self);
                    self.lemma_seqs();
                }
                None
            },
        }
    }
}

impl<K: TableKey, V> View for Table<K, V> {
    type V = Map<K::KeyView, V>;

    open spec fn view(&self) -> Map<K::KeyView, V> {
        self.as_map()
    }
}

} // verus!
