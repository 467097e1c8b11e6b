//! A keyed table: the rows of one kind of record, at most one per key.
//!
//! Its view is the map from key to record, as a hash map keyed by record id
//! would hold it; the rows can be walked in storage order.

use vstd::prelude::*;

verus! {

/// A key that can be compared at run time by its view.
pub trait KeyOf: Sized {
    type KV;

    spec fn kv(&self) -> Self::KV;

    fn same_key(&self, other: &Self) -> (b: bool)
        ensures
            b == (self.kv() == other.kv()),
    ;
}

impl KeyOf for u128 {
    type KV = u128;

    open spec fn kv(&self) -> u128 {
        *self
    }

    fn same_key(&self, other: &Self) -> (b: bool) {
        *self == *other
    }
}

impl KeyOf for (u128, u128) {
    type KV = (u128, u128);

    open spec fn kv(&self) -> (u128, u128) {
        *self
    }

    fn same_key(&self, other: &Self) -> (b: bool) {
        self.0 == other.0 && self.1 == other.1
    }
}

impl KeyOf for String {
    type KV = Seq<char>;

    open spec fn kv(&self) -> Seq<char> {
        self@
    }

    fn same_key(&self, other: &Self) -> (b: bool) {
        *self == *other
    }
}

/// A record stored under a key.
pub trait Record: View + Sized {
    type K: KeyOf;

    spec fn key_of(v: Self::V) -> <Self::K as KeyOf>::KV;

    fn key(&self) -> (k: Self::K)
        ensures
            k.kv() == Self::key_of(self@),
    ;

    fn copy_record(&self) -> (r: Self)
        ensures
            r@ == self@,
    ;
}

/// The view of a record's key.
pub type KV<T> = <<T as Record>::K as KeyOf>::KV;

/// Every record of `m` is stored under its own key.
pub open spec fn keys_match<T: Record>(m: Map<KV<T>, T::V>) -> bool {
    forall|k: KV<T>| #[trigger] m.contains_key(k) ==> T::key_of(m[k]) == k
}

proof fn lemma_enumerates_keys_match<T: Record>(m: Map<KV<T>, T::V>, rows: Seq<T>)
    requires
        enumerates::<T>(m, rows),
    ensures
        keys_match::<T>(m),
{
    assert forall|k: KV<T>| #[trigger] m.contains_key(k) implies T::key_of(m[k]) == k by {
        let i = choose|i: int| 0 <= i < rows.len() && T::key_of(rows[i]@) == k;
        assert(m[T::key_of(rows[i]@)] == rows[i]@);
    }
}

/// `rows` lists exactly the entries of `m`, each key once.
pub open spec fn enumerates<T: Record>(m: Map<KV<T>, T::V>, rows: Seq<T>) -> bool {
    &&& forall|i: int|
        #![trigger rows[i]]
        0 <= i < rows.len() ==> m.contains_key(T::key_of(rows[i]@)) && m[T::key_of(rows[i]@)]
            == rows[i]@
    &&& forall|i: int, j: int|
        #![trigger rows[i], rows[j]]
        0 <= i < j < rows.len() ==> T::key_of(rows[i]@) != T::key_of(rows[j]@)
    &&& forall|k: KV<T>|
        #![trigger m.contains_key(k)]
        m.contains_key(k) ==> exists|i: int| 0 <= i < rows.len() && T::key_of(rows[i]@) == k
}

pub struct Table<T: Record> {
    rows: Vec<T>,
    map: Ghost<Map<KV<T>, T::V>>,
}

impl<T: Record> View for Table<T> {
    type V = Map<KV<T>, T::V>;

    closed spec fn view(&self) -> Map<KV<T>, T::V> {
        self.map@
    }
}

impl<T: Record> Table<T> {
    #[verifier::type_invariant]
    spec fn wf(self) -> bool {
        enumerates::<T>(self.map@, self.rows@)
    }

    pub fn new() -> (t: Self)
        ensures
            t@ == Map::<KV<T>, T::V>::empty(),
            keys_match::<T>(t@),
    {
        Table { rows: Vec::new(), map: Ghost(Map::empty()) }
    }

    /// The rows, in storage order.
    pub fn rows(&self) -> (r: &Vec<T>)
        ensures
            enumerates::<T>(self@, r@),
            keys_match::<T>(self@),
    {
        proof { use_type_invariant(self); }
        proof { lemma_enumerates_keys_match::<T>(self.map@, self.rows@); }
        &self.rows
    }

    fn position(&self, key: &T::K) -> (r: Option<usize>)
        ensures
            match r {
                Some(i) => i < self.rows@.len() && T::key_of(self.rows@[i as int]@) == key.kv(),
                None => !self.map@.contains_key(key.kv()),
            },
    {
        proof { use_type_invariant(self); }
        let mut i: usize = 0;
        while i < self.rows.len()
            invariant
                i <= self.rows@.len(),
                enumerates::<T>(self.map@, self.rows@),
                forall|j: int| 0 <= j < i ==> T::key_of(#[trigger] self.rows@[j]@) != key.kv(),
            decreases self.rows@.len() - i,
        {
            if self.rows[i].key().same_key(key) {
                return Some(i);
            }
            i = i + 1;
        }
        None
    }

    pub fn get(&self, key: &T::K) -> (r: Option<&T>)
        ensures
            match r {
                Some(t) => self@.contains_key(key.kv()) && self@[key.kv()] == t@,
                None => !self@.contains_key(key.kv()),
            },
            keys_match::<T>(self@),
    {
        proof { use_type_invariant(self); }
        proof { lemma_enumerates_keys_match::<T>(self.map@, self.rows@); }
        match self.position(key) {
            Some(i) => Some(&self.rows[i]),
            None => None,
        }
    }

    pub fn contains(&self, key: &T::K) -> (b: bool)
        ensures
            b == self@.contains_key(key.kv()),
    {
        self.get(key).is_some()
    }

    /// Stores `t` under its key, replacing any record already there.
    pub fn insert(&mut self, t: T)
        ensures
            final(self)@ == old(self)@.insert(T::key_of(t@), t@),
            keys_match::<T>(final(self)@),
    {
        proof { use_type_invariant(&*self); }
        proof { lemma_enumerates_keys_match::<T>(self.map@, self.rows@); }
        let key = t.key();
        let ghost kv = key.kv();
        let ghost old_map = self.map@;
        let ghost old_rows = self.rows@;
        let ghost new_map = old_map.insert(kv, t@);
        match self.position(&key) {
            Some(i) => {
                let ghost tv = t@;
                let mut tmp = Table::new();
                std::mem::swap(&mut tmp, self);
                let Table { rows: mut rows, map: _ } = tmp;
                rows.set(i, t);
                proof {
                    assert(rows@ == old_rows.update(i as int, t));
                    assert forall|j: int| 0 <= j < rows@.len() implies new_map.contains_key(
                        T::key_of(#[trigger] rows@[j]@),
                    ) && new_map[T::key_of(rows@[j]@)] == rows@[j]@ by {
                        if j != i as int {
                            assert(rows@[j] == old_rows[j]);
                            assert(T::key_of(old_rows[j]@) != kv) by {
                                if j < i as int {
                                    assert(T::key_of(old_rows[j]@) != T::key_of(old_rows[i as int]@));
                                } else {
                                    assert(T::key_of(old_rows[i as int]@) != T::key_of(old_rows[j]@));
                                }
                            }
                        }
                    }
                    assert forall|a: int, b: int| 0 <= a < b < rows@.len() implies T::key_of(
                        #[trigger] rows@[a]@,
                    ) != T::key_of(#[trigger] rows@[b]@) by {
                        if a != i as int && b != i as int {
                            assert(T::key_of(old_rows[a]@) != T::key_of(old_rows[b]@));
                        } else if a == i as int {
                            assert(T::key_of(old_rows[a]@) != T::key_of(old_rows[b]@));
                        } else {
                            assert(T::key_of(old_rows[a]@) != T::key_of(old_rows[b]@));
                        }
                    }
                    assert forall|k: KV<T>| #[trigger] new_map.contains_key(k) implies exists|j: int|
                        0 <= j < rows@.len() && T::key_of(rows@[j]@) == k by {
                        if k == kv {
                            assert(T::key_of(rows@[i as int]@) == k);
                        } else {
                            assert(old_map.contains_key(k));
                            let j = choose|j: int| 0 <= j < old_rows.len() && T::key_of(old_rows[j]@) == k;
                            assert(rows@[j] == old_rows[j]);
                        }
                    }
                }
                *self = Table { rows, map: Ghost(new_map) };
            },
            None => {
                let mut tmp = Table::new();
                std::mem::swap(&mut tmp, self);
                let Table { rows: mut rows, map: _ } = tmp;
                rows.push(t);
                proof {
                    let n = old_rows.len() as int;
                    assert(rows@ == old_rows.push(t));
                    assert forall|j: int| 0 <= j < rows@.len() implies new_map.contains_key(
                        T::key_of(#[trigger] rows@[j]@),
                    ) && new_map[T::key_of(rows@[j]@)] == rows@[j]@ by {
                        if j < n {
                            assert(rows@[j] == old_rows[j]);
                            assert(old_map.contains_key(T::key_of(old_rows[j]@)));
                        }
                    }
                    assert forall|a: int, b: int| 0 <= a < b < rows@.len() implies T::key_of(
                        #[trigger] rows@[a]@,
                    ) != T::key_of(#[trigger] rows@[b]@) by {
                        if b < n {
                            assert(T::key_of(old_rows[a]@) != T::key_of(old_rows[b]@));
                        } else {
                            assert(rows@[a] == old_rows[a]);
                            assert(old_map.contains_key(T::key_of(old_rows[a]@)));
                        }
                    }
                    assert forall|k: KV<T>| #[trigger] new_map.contains_key(k) implies exists|j: int|
                        0 <= j < rows@.len() && T::key_of(rows@[j]@) == k by {
                        if k == kv {
                            assert(T::key_of(rows@[n]@) == k);
                        } else {
                            assert(old_map.contains_key(k));
                            let j = choose|j: int| 0 <= j < old_rows.len() && T::key_of(old_rows[j]@) == k;
                            assert(rows@[j] == old_rows[j]);
                        }
                    }
                }
                *self = Table { rows, map: Ghost(new_map) };
            },
        }
    }

    /// Removes and returns the record stored under `key`, if any.
    pub fn remove(&mut self, key: &T::K) -> (r: Option<T>)
        ensures
            final(self)@ == old(self)@.remove(key.kv()),
            keys_match::<T>(final(self)@),
            match r {
                Some(t) => old(self)@.contains_key(key.kv()) && old(self)@[key.kv()] == t@,
                None => !old(self)@.contains_key(key.kv()),
            },
    {
        proof { use_type_invariant(&*self); }
        let ghost old_map = self.map@;
        let ghost old_rows = self.rows@;
        let ghost new_map = old_map.remove(key.kv());
        proof { lemma_enumerates_keys_match::<T>(self.map@, self.rows@); }
        match self.position(key) {
            None => {
                proof {
                    assert(new_map =~= old_map);
                }
                None
            },
            Some(i) => {
                let mut tmp = Table::new();
                std::mem::swap(&mut tmp, self);
                let Table { rows: mut rows, map: _ } = tmp;
                let t = rows.remove(i);
                proof {
                    assert(rows@ == old_rows.remove(i as int));
                    assert forall|j: int| 0 <= j < rows@.len() implies new_map.contains_key(
                        T::key_of(#[trigger] rows@[j]@),
                    ) && new_map[T::key_of(rows@[j]@)] == rows@[j]@ by {
                        if j < i as int {
                            assert(rows@[j] == old_rows[j]);
                            assert(T::key_of(old_rows[j]@) != T::key_of(old_rows[i as int]@));
                        } else {
                            assert(rows@[j] == old_rows[j + 1]);
                            assert(T::key_of(old_rows[i as int]@) != T::key_of(old_rows[j + 1]@));
                        }
                    }
                    assert forall|a: int, b: int| 0 <= a < b < rows@.len() implies T::key_of(
                        #[trigger] rows@[a]@,
                    ) != T::key_of(#[trigger] rows@[b]@) by {
                        let a0 = if a < i as int { a } else { a + 1 };
                        let b0 = if b < i as int { b } else { b + 1 };
                        assert(rows@[a] == old_rows[a0]);
                        assert(rows@[b] == old_rows[b0]);
                        assert(T::key_of(old_rows[a0]@) != T::key_of(old_rows[b0]@));
                    }
                    assert forall|k: KV<T>| #[trigger] new_map.contains_key(k) implies exists|j: int|
                        0 <= j < rows@.len() && T::key_of(rows@[j]@) == k by {
                        assert(old_map.contains_key(k));
                        let j = choose|j: int| 0 <= j < old_rows.len() && T::key_of(old_rows[j]@) == k;
                        assert(j != i as int);
                        if j < i as int {
                            assert(rows@[j] == old_rows[j]);
                        } else {
                            assert(rows@[j - 1] == old_rows[j]);
                        }
                    }
                }
                *self = Table { rows, map: Ghost(new_map) };
                Some(t)
            },
        }
    }
}

} // verus!
